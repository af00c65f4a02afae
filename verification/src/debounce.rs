//! Debounce filter for the keypad: a raw reading must hold steady for
//! `SETTLE_CYCLES` poll cycles after a change before it is confirmed, and a
//! confirmed candidate fires exactly once until the raw reading changes again.

use vstd::prelude::*;

verus! {

/// Number of identical consecutive readings, after a candidate change, that a
/// reading must hold before the filter confirms it.
pub const SETTLE_CYCLES: i8 = 3;

/// The outcome of one keypad scan cycle: the key seen, or none pressed.
pub type ScanResult = Option<char>;

/// Abstract state of a `DebounceFilter`.
///
/// `countdown` is `-1` once the current candidate has fired (locked),
/// `0` when the candidate fires, and `1..=SETTLE_CYCLES` while settling.
/// `quirks` is the table of `(observed, corrected)` reading corrections.
pub struct DebounceV {
    pub last: Option<char>,
    pub countdown: int,
    pub quirks: Seq<(char, char)>,
}

/// Hardware quirk correction: if some `(observed, corrected)` pair in the
/// table matches the raw reading while `corrected` is the current candidate,
/// the raw reading is replaced by `corrected`; otherwise it is unchanged.
/// The first matching pair wins.
pub open spec fn spec_correct(
    quirks: Seq<(char, char)>,
    last: Option<char>,
    raw: Option<char>,
) -> Option<char>
    decreases quirks.len(),
{
    if quirks.len() == 0 {
        raw
    } else {
        let (observed, corrected) = quirks[0];
        if raw == Some(observed) && last == Some(corrected) {
            Some(corrected)
        } else {
            spec_correct(quirks.drop_first(), last, raw)
        }
    }
}

/// One debounce step on a corrected reading. Returns the next candidate, the
/// next countdown, and the emission (`Some(key)` exactly when a real key is
/// confirmed this cycle).
///
/// A changed reading is adopted as the new candidate with a fresh countdown
/// and emits nothing. An unchanged reading decrements a positive countdown;
/// the cycle on which the countdown reaches zero fires the candidate once and
/// locks the filter (`-1`) until the reading changes. A candidate of `None`
/// locks without emitting: idle never dispatches.
pub open spec fn spec_step(last: Option<char>, countdown: int, raw: Option<char>) -> (
    Option<char>,
    int,
    Option<char>,
) {
    if raw != last {
        (raw, SETTLE_CYCLES as int, None)
    } else {
        let c = if countdown > 0 {
            countdown - 1
        } else {
            countdown
        };
        if c == 0 {
            (last, -1, last)
        } else {
            (last, c, None)
        }
    }
}

/// Iterated `spec_step` over a sequence of corrected readings: final
/// candidate, final countdown, and the per-cycle emissions.
pub open spec fn spec_run(last: Option<char>, countdown: int, raws: Seq<Option<char>>) -> (
    Option<char>,
    int,
    Seq<Option<char>>,
)
    decreases raws.len(),
{
    if raws.len() == 0 {
        (last, countdown, Seq::empty())
    } else {
        let step = spec_step(last, countdown, raws[0]);
        let rest = spec_run(step.0, step.1, raws.drop_first());
        (rest.0, rest.1, seq![step.2] + rest.2)
    }
}

/// Debounces raw keypad readings, applying the quirk table first, and emits
/// each confirmed key exactly once.
pub struct DebounceFilter {
    last: Option<char>,
    countdown: i8,
    quirks: Vec<(char, char)>,
}

impl View for DebounceFilter {
    type V = DebounceV;

    closed spec fn view(&self) -> DebounceV {
        DebounceV { last: self.last, countdown: self.countdown as int, quirks: self.quirks@ }
    }
}

/// Equality of two scan results.
fn scan_eq(a: Option<char>, b: Option<char>) -> (r: bool)
    ensures
        r == (a == b),
{
    match (a, b) {
        (None, None) => true,
        (Some(x), Some(y)) => x == y,
        _ => false,
    }
}

/// Applies the quirk table to one raw reading.
fn correct_reading(quirks: &Vec<(char, char)>, last: Option<char>, raw: Option<char>) -> (r: Option<
    char,
>)
    ensures
        r == spec_correct(quirks@, last, raw),
{
    let mut i: usize = 0;
    proof {
        assert(quirks@.skip(0) =~= quirks@);
    }
    while i < quirks.len()
        invariant
            0 <= i <= quirks@.len(),
            spec_correct(quirks@.skip(i as int), last, raw) == spec_correct(quirks@, last, raw),
        decreases quirks@.len() - i,
    {
        let (observed, corrected) = quirks[i];
        proof {
            assert(quirks@.skip(i as int)[0] == quirks@[i as int]);
            assert(quirks@.skip(i as int).drop_first() =~= quirks@.skip(i as int + 1));
        }
        if scan_eq(raw, Some(observed)) && scan_eq(last, Some(corrected)) {
            return Some(corrected);
        }
        i = i + 1;
    }
    proof {
        assert(quirks@.skip(i as int) =~= Seq::<(char, char)>::empty());
    }
    raw
}

impl DebounceFilter {
    /// The filter's internal invariant: the countdown stays in range.
    pub open spec fn wf(self) -> bool {
        -1 <= self@.countdown <= SETTLE_CYCLES as int
    }

    /// A fresh filter: no candidate, full countdown, the given quirk table.
    pub fn new(quirks: Vec<(char, char)>) -> (f: DebounceFilter)
        ensures
            f.wf(),
            f@.last is None,
            f@.countdown == SETTLE_CYCLES as int,
            f@.quirks == quirks@,
    {
        DebounceFilter { last: None, countdown: SETTLE_CYCLES, quirks }
    }

    /// Consumes one raw scan result; returns the confirmed key exactly on the
    /// cycle a press is confirmed, and nothing otherwise. The raw reading is
    /// first corrected by the quirk table, then debounced by `spec_step`.
    pub fn update(&mut self, raw: ScanResult) -> (emitted: Option<char>)
        requires
            old(self).wf(),
        ensures
            final(self).wf(),
            final(self)@.quirks == old(self)@.quirks,
            ({
                let corrected = spec_correct(old(self)@.quirks, old(self)@.last, raw);
                let step = spec_step(old(self)@.last, old(self)@.countdown, corrected);
                final(self)@.last == step.0 && final(self)@.countdown == step.1 && emitted
                    == step.2
            }),
    {
        let corrected = correct_reading(&self.quirks, self.last, raw);
        if !scan_eq(corrected, self.last) {
            self.last = corrected;
            self.countdown = SETTLE_CYCLES;
            None
        } else {
            if self.countdown > 0 {
                self.countdown = self.countdown - 1;
            }
            if self.countdown == 0 {
                self.countdown = -1;
                self.last
            } else {
                None
            }
        }
    }

    /// The current candidate reading.
    pub fn last_candidate(&self) -> (r: Option<char>)
        ensures
            r == self@.last,
    {
        self.last
    }

    /// Whether the current candidate is still settling or about to fire,
    /// rather than locked; a changed reading in this state is a bounce.
    pub fn is_settling(&self) -> (r: bool)
        ensures
            r == (self@.countdown >= 0),
    {
        self.countdown >= 0
    }
}

proof fn lemma_run_len(last: Option<char>, countdown: int, raws: Seq<Option<char>>)
    ensures
        spec_run(last, countdown, raws).2.len() == raws.len(),
    decreases raws.len(),
{
    if raws.len() > 0 {
        let step = spec_step(last, countdown, raws[0]);
        lemma_run_len(step.0, step.1, raws.drop_first());
    }
}

/// Law: once locked for a candidate, identical readings never re-emit and
/// leave the filter locked; only a changed reading re-arms it.
pub proof fn lemma_locked_stays_silent(last: Option<char>, raws: Seq<Option<char>>)
    requires
        forall|i: int| 0 <= i < raws.len() ==> raws[i] == last,
    ensures
        spec_run(last, -1, raws).0 == last,
        spec_run(last, -1, raws).1 == -1,
        forall|i: int|
            0 <= i < spec_run(last, -1, raws).2.len() ==> #[trigger] spec_run(last, -1, raws).2[i] is None,
    decreases raws.len(),
{
    lemma_run_len(last, -1, raws);
    if raws.len() > 0 {
        assert(forall|i: int|
            0 <= i < raws.drop_first().len() ==> raws.drop_first()[i] == last);
        lemma_locked_stays_silent(last, raws.drop_first());
        lemma_run_len(last, -1, raws.drop_first());
        let emits = spec_run(last, -1, raws).2;
        let rest = spec_run(last, -1, raws.drop_first()).2;
        assert(forall|i: int| 1 <= i < emits.len() ==> emits[i] == rest[i - 1]);
    }
}

/// While a candidate is settling with `countdown` cycles to go, steady
/// identical readings fire it exactly once, on the `countdown`-th cycle,
/// and leave the filter locked.
proof fn lemma_settling_fires(last: Option<char>, countdown: int, raws: Seq<Option<char>>)
    requires
        1 <= countdown,
        raws.len() >= countdown,
        forall|i: int| 0 <= i < raws.len() ==> raws[i] == last,
    ensures
        spec_run(last, countdown, raws).0 == last,
        spec_run(last, countdown, raws).1 == -1,
        spec_run(last, countdown, raws).2[countdown - 1] == last,
        forall|i: int|
            0 <= i < spec_run(last, countdown, raws).2.len() && i != countdown - 1 ==> #[trigger] spec_run(
                last,
                countdown,
                raws,
            ).2[i] is None,
    decreases raws.len(),
{
    lemma_run_len(last, countdown, raws);
    lemma_run_len(spec_step(last, countdown, raws[0]).0, spec_step(last, countdown, raws[0]).1, raws.drop_first());
    assert(forall|i: int| 0 <= i < raws.drop_first().len() ==> raws.drop_first()[i] == last);
    let emits = spec_run(last, countdown, raws).2;
    if countdown == 1 {
        lemma_locked_stays_silent(last, raws.drop_first());
        let rest = spec_run(last, -1, raws.drop_first()).2;
        assert(forall|i: int| 1 <= i < emits.len() ==> emits[i] == rest[i - 1]);
    } else {
        lemma_settling_fires(last, countdown - 1, raws.drop_first());
        let rest = spec_run(last, countdown - 1, raws.drop_first()).2;
        assert(forall|i: int| 1 <= i < emits.len() ==> emits[i] == rest[i - 1]);
    }
}

/// Law: a reading that differs from the current candidate and then holds
/// steady is emitted exactly once, on the SETTLE_CYCLES-th cycle after the
/// cycle that adopted it, and the filter ends locked on that candidate.
pub proof fn lemma_steady_reading_fires_once(
    last: Option<char>,
    countdown: int,
    k: char,
    raws: Seq<Option<char>>,
)
    requires
        raws.len() > SETTLE_CYCLES as int,
        forall|i: int| 0 <= i < raws.len() ==> raws[i] == Some(k),
        last != Some(k),
    ensures
        spec_run(last, countdown, raws).0 == Some(k),
        spec_run(last, countdown, raws).1 == -1,
        spec_run(last, countdown, raws).2[SETTLE_CYCLES as int] == Some(k),
        forall|i: int|
            0 <= i < spec_run(last, countdown, raws).2.len() && i != SETTLE_CYCLES as int
                ==> #[trigger] spec_run(last, countdown, raws).2[i] is None,
{
    lemma_run_len(last, countdown, raws);
    lemma_run_len(Some(k), SETTLE_CYCLES as int, raws.drop_first());
    assert(forall|i: int| 0 <= i < raws.drop_first().len() ==> raws.drop_first()[i] == Some(k));
    lemma_settling_fires(Some(k), SETTLE_CYCLES as int, raws.drop_first());
    let emits = spec_run(last, countdown, raws).2;
    let rest = spec_run(Some(k), SETTLE_CYCLES as int, raws.drop_first()).2;
    assert(forall|i: int| 1 <= i < emits.len() ==> emits[i] == rest[i - 1]);
}

/// While a candidate is settling with `countdown` cycles to go, `countdown`
/// further identical readings fire it on the last of them, whatever comes
/// afterwards.
proof fn lemma_settling_prefix(last: Option<char>, countdown: int, raws: Seq<Option<char>>)
    requires
        1 <= countdown,
        raws.len() >= countdown,
        forall|i: int| 0 <= i < countdown ==> raws[i] == last,
    ensures
        spec_run(last, countdown, raws).2[countdown - 1] == last,
        forall|i: int|
            0 <= i < countdown - 1 ==> #[trigger] spec_run(last, countdown, raws).2[i] is None,
    decreases countdown,
{
    lemma_run_len(last, countdown, raws);
    let step = spec_step(last, countdown, raws[0]);
    lemma_run_len(step.0, step.1, raws.drop_first());
    let emits = spec_run(last, countdown, raws).2;
    if countdown > 1 {
        assert(forall|i: int|
            0 <= i < countdown - 1 ==> raws.drop_first()[i] == raws[i + 1] && raws[i + 1] == last);
        lemma_settling_prefix(last, countdown - 1, raws.drop_first());
        let rest = spec_run(last, countdown - 1, raws.drop_first()).2;
        assert(forall|i: int| 1 <= i < emits.len() ==> emits[i] == rest[i - 1]);
    }
}

/// Law: which cycle confirms a press is decided by the adopting reading and
/// the SETTLE_CYCLES readings after it alone: a reading that differs from
/// the current candidate and holds for SETTLE_CYCLES further cycles is
/// emitted on the last of them, and on none of the cycles before, whatever
/// the readings after that are.
pub proof fn lemma_hold_fires_on_schedule(
    last: Option<char>,
    countdown: int,
    k: char,
    raws: Seq<Option<char>>,
)
    requires
        raws.len() > SETTLE_CYCLES as int,
        forall|i: int| 0 <= i <= SETTLE_CYCLES as int ==> raws[i] == Some(k),
        last != Some(k),
    ensures
        spec_run(last, countdown, raws).2[SETTLE_CYCLES as int] == Some(k),
        forall|i: int|
            0 <= i < SETTLE_CYCLES as int ==> #[trigger] spec_run(last, countdown, raws).2[i]
                is None,
{
    lemma_run_len(last, countdown, raws);
    lemma_run_len(Some(k), SETTLE_CYCLES as int, raws.drop_first());
    assert(forall|i: int|
        0 <= i < SETTLE_CYCLES as int ==> raws.drop_first()[i] == raws[i + 1] && raws[i + 1]
            == Some(k));
    lemma_settling_prefix(Some(k), SETTLE_CYCLES as int, raws.drop_first());
    let emits = spec_run(last, countdown, raws).2;
    let rest = spec_run(Some(k), SETTLE_CYCLES as int, raws.drop_first()).2;
    assert(forall|i: int| 1 <= i < emits.len() ==> emits[i] == rest[i - 1]);
}

/// The reading keeps changing: `count` identical readings make up the current
/// run (its adopting cycle included), and every run, this one and all later
/// ones, ends before it accumulates more than SETTLE_CYCLES readings.
pub open spec fn chatter_free(prev: Option<char>, count: int, raws: Seq<Option<char>>) -> bool
    decreases raws.len(),
{
    if raws.len() == 0 {
        true
    } else if raws[0] == prev {
        count + 1 <= SETTLE_CYCLES as int && chatter_free(prev, count + 1, raws.drop_first())
    } else {
        chatter_free(raws[0], 1, raws.drop_first())
    }
}

proof fn lemma_chatter_helper(last: Option<char>, countdown: int, raws: Seq<Option<char>>)
    requires
        1 <= countdown <= SETTLE_CYCLES as int,
        chatter_free(last, SETTLE_CYCLES as int + 1 - countdown, raws),
    ensures
        forall|i: int|
            0 <= i < spec_run(last, countdown, raws).2.len() ==> #[trigger] spec_run(
                last,
                countdown,
                raws,
            ).2[i] is None,
    decreases raws.len(),
{
    if raws.len() > 0 {
        let emits = spec_run(last, countdown, raws).2;
        if raws[0] == last {
            lemma_chatter_helper(last, countdown - 1, raws.drop_first());
            let rest = spec_run(last, countdown - 1, raws.drop_first()).2;
            assert(forall|i: int| 1 <= i < emits.len() ==> emits[i] == rest[i - 1]);
        } else {
            lemma_chatter_helper(raws[0], SETTLE_CYCLES as int, raws.drop_first());
            let rest = spec_run(raws[0], SETTLE_CYCLES as int, raws.drop_first()).2;
            assert(forall|i: int| 1 <= i < emits.len() ==> emits[i] == rest[i - 1]);
        }
    }
}

/// Law: a sequence of readings that begins with a change and keeps changing
/// before SETTLE_CYCLES further identical cycles accumulate after each change
/// never makes the filter emit.
pub proof fn lemma_chatter_never_fires(last: Option<char>, countdown: int, raws: Seq<Option<char>>)
    requires
        raws.len() > 0,
        raws[0] != last,
        chatter_free(raws[0], 1, raws.drop_first()),
    ensures
        forall|i: int|
            0 <= i < spec_run(last, countdown, raws).2.len() ==> #[trigger] spec_run(
                last,
                countdown,
                raws,
            ).2[i] is None,
{
    lemma_chatter_helper(raws[0], SETTLE_CYCLES as int, raws.drop_first());
    let emits = spec_run(last, countdown, raws).2;
    let rest = spec_run(raws[0], SETTLE_CYCLES as int, raws.drop_first()).2;
    assert(forall|i: int| 1 <= i < emits.len() ==> emits[i] == rest[i - 1]);
}

/// Law: with the reference quirk table, while the confirmed candidate is
/// `'3'`, a raw reading of `'#'` steps the filter exactly as a raw `'3'`.
pub proof fn lemma_quirk_hash_reads_as_three(countdown: int)
    ensures
        spec_correct(seq![('#', '3')], Some('3'), Some('#')) == spec_correct(
            seq![('#', '3')],
            Some('3'),
            Some('3'),
        ),
        spec_step(Some('3'), countdown, spec_correct(seq![('#', '3')], Some('3'), Some('#')))
            == spec_step(
            Some('3'),
            countdown,
            spec_correct(seq![('#', '3')], Some('3'), Some('3')),
        ),
{
    assert(seq![('#', '3')].drop_first() =~= Seq::<(char, char)>::empty());
    assert(spec_correct(Seq::<(char, char)>::empty(), Some('3'), Some('3')) == Some('3'));
    assert(spec_correct(seq![('#', '3')], Some('3'), Some('#')) == Some('3'));
    assert(spec_correct(seq![('#', '3')], Some('3'), Some('3')) == Some('3'));
}

/// The quirk table of the reference device: one noisy switch intermittently
/// reports `'#'` while `'3'` is held.
pub fn default_quirks() -> (q: Vec<(char, char)>)
    ensures
        q@ == seq![('#', '3')],
{
    let mut q: Vec<(char, char)> = Vec::new();
    q.push(('#', '3'));
    proof {
        assert(q@ =~= seq![('#', '3')]);
    }
    q
}

} // verus!
