use keypad_remote::debounce::{default_quirks, DebounceFilter};

fn feed(filter: &mut DebounceFilter, raws: &[Option<char>]) -> Vec<Option<char>> {
    let mut out = Vec::new();
    for raw in raws {
        out.push(filter.update(*raw));
    }
    out
}

#[test]
fn end_to_end_sequence_fires_on_sixth_sample() {
    let mut filter = DebounceFilter::new(default_quirks());
    let raws = [None, None, Some('1'), Some('1'), Some('1'), Some('1')];
    let out = feed(&mut filter, &raws);
    assert_eq!(out, vec![None, None, None, None, None, Some('1')]);
}

#[test]
fn steady_key_fires_exactly_once() {
    let mut filter = DebounceFilter::new(default_quirks());
    let raws = [Some('7'), Some('7'), Some('7'), Some('7'), Some('7'), Some('7')];
    let out = feed(&mut filter, &raws);
    assert_eq!(out, vec![None, None, None, Some('7'), None, None]);
}

#[test]
fn chatter_never_fires() {
    let mut filter = DebounceFilter::new(default_quirks());
    let raws = [
        Some('4'),
        Some('4'),
        Some('4'),
        Some('5'),
        Some('5'),
        Some('5'),
        Some('4'),
        Some('4'),
        Some('4'),
        None,
        None,
        None,
    ];
    let out = feed(&mut filter, &raws);
    for emitted in out {
        assert_eq!(emitted, None);
    }
}

#[test]
fn locked_candidate_does_not_refire_until_reading_changes() {
    let mut filter = DebounceFilter::new(default_quirks());
    let out = feed(&mut filter, &[Some('8'); 10]);
    assert_eq!(out[3], Some('8'));
    for (i, emitted) in out.iter().enumerate() {
        if i != 3 {
            assert_eq!(*emitted, None);
        }
    }
    // a pass through a different reading re-arms the filter
    assert_eq!(filter.update(None), None);
    let again = feed(&mut filter, &[Some('8'); 4]);
    assert_eq!(again, vec![None, None, None, Some('8')]);
}

#[test]
fn quirk_hash_reads_as_three_while_three_is_held() {
    let mut filter = DebounceFilter::new(default_quirks());
    // confirm '3' first
    let out = feed(&mut filter, &[Some('3'); 4]);
    assert_eq!(out[3], Some('3'));
    // the noisy switch now reports '#': treated as '3', so still locked
    let noisy = feed(&mut filter, &[Some('#'), Some('3'), Some('#'), Some('3'), Some('#')]);
    assert_eq!(noisy, vec![None, None, None, None, None]);
    assert_eq!(filter.last_candidate(), Some('3'));
}

#[test]
fn hash_is_a_real_key_when_three_is_not_held() {
    let mut filter = DebounceFilter::new(default_quirks());
    let out = feed(&mut filter, &[Some('#'); 4]);
    assert_eq!(out, vec![None, None, None, Some('#')]);
}

#[test]
fn settling_state_is_visible_for_bounce_logging() {
    let mut filter = DebounceFilter::new(default_quirks());
    assert!(filter.is_settling());
    let _ = feed(&mut filter, &[Some('6'); 4]);
    assert!(!filter.is_settling());
    assert_eq!(filter.last_candidate(), Some('6'));
}

#[test]
fn hold_then_release_still_fires_on_schedule() {
    let mut filter = DebounceFilter::new(default_quirks());
    let raws = [Some('5'), Some('5'), Some('5'), Some('5'), None, None];
    let out = feed(&mut filter, &raws);
    assert_eq!(out, vec![None, None, None, Some('5'), None, None]);
}
