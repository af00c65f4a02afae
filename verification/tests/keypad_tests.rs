use keypad_remote::keypad::scan_keypad;

#[test]
fn every_key_of_the_layout_decodes() {
    let layout = [
        ['D', '#', '0', '*'],
        ['C', '9', '8', '7'],
        ['B', '6', '5', '4'],
        ['A', '3', '2', '1'],
    ];
    for col in 0..4 {
        for row in 0..4 {
            let mut readings = [[false; 4]; 4];
            readings[col][row] = true;
            assert_eq!(scan_keypad(&readings), Some(layout[col][row]));
        }
    }
}

#[test]
fn no_low_row_means_no_key() {
    assert_eq!(scan_keypad(&[[false; 4]; 4]), None);
}

#[test]
fn first_column_with_a_low_row_wins() {
    let mut readings = [[false; 4]; 4];
    readings[2][3] = true;
    readings[3][0] = true;
    assert_eq!(scan_keypad(&readings), Some('4'));
}

#[test]
fn first_low_row_within_a_column_wins() {
    let mut readings = [[false; 4]; 4];
    readings[1][0] = true;
    readings[1][2] = true;
    assert_eq!(scan_keypad(&readings), Some('C'));
}
