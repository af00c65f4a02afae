//! Scan decode for the 4x4 matrix keypad.
//!
//! The device drives one column line low at a time and reads the four row
//! lines; a pressed key pulls its row low in its column. The readings, one
//! boolean per line (`true` = the row read low, i.e. pressed), are handed in
//! as a 4x4 matrix indexed by column then row, and decoded here: the first
//! low row within the first column that produces any low row wins, an
//! inherent limitation of a diode-less matrix that is not corrected.

use vstd::prelude::*;

verus! {

/// The fixed key layout, by scanned column then row.
pub open spec fn spec_key_at(col: int, row: int) -> char {
    if col == 0 {
        if row == 0 {
            'D'
        } else if row == 1 {
            '#'
        } else if row == 2 {
            '0'
        } else {
            '*'
        }
    } else if col == 1 {
        if row == 0 {
            'C'
        } else if row == 1 {
            '9'
        } else if row == 2 {
            '8'
        } else {
            '7'
        }
    } else if col == 2 {
        if row == 0 {
            'B'
        } else if row == 1 {
            '6'
        } else if row == 2 {
            '5'
        } else {
            '4'
        }
    } else {
        if row == 0 {
            'A'
        } else if row == 1 {
            '3'
        } else if row == 2 {
            '2'
        } else {
            '1'
        }
    }
}

/// The first row, scanning rows upward, that reads low in one column.
pub open spec fn spec_first_low(col: Seq<bool>) -> Option<int> {
    if col[0] {
        Some(0)
    } else if col[1] {
        Some(1)
    } else if col[2] {
        Some(2)
    } else if col[3] {
        Some(3)
    } else {
        None
    }
}

/// The decoded key starting from column `c`: the first low row of the first
/// column, from `c` upward, with any low row.
pub open spec fn spec_scan_from(readings: [[bool; 4]; 4], c: int) -> Option<char>
    decreases 4 - c,
{
    if c < 0 || c >= 4 {
        None
    } else {
        match spec_first_low(readings@[c]@) {
            Some(r) => Some(spec_key_at(c, r)),
            None => spec_scan_from(readings, c + 1),
        }
    }
}

/// The key one full scan of the matrix reports, or `None` when no row reads
/// low in any column.
pub open spec fn spec_scan(readings: [[bool; 4]; 4]) -> Option<char> {
    spec_scan_from(readings, 0)
}

/// The key layout as executable lookup.
fn key_at(col: usize, row: usize) -> (k: char)
    requires
        col < 4,
        row < 4,
    ensures
        k == spec_key_at(col as int, row as int),
{
    if col == 0 {
        if row == 0 {
            'D'
        } else if row == 1 {
            '#'
        } else if row == 2 {
            '0'
        } else {
            '*'
        }
    } else if col == 1 {
        if row == 0 {
            'C'
        } else if row == 1 {
            '9'
        } else if row == 2 {
            '8'
        } else {
            '7'
        }
    } else if col == 2 {
        if row == 0 {
            'B'
        } else if row == 1 {
            '6'
        } else if row == 2 {
            '5'
        } else {
            '4'
        }
    } else {
        if row == 0 {
            'A'
        } else if row == 1 {
            '3'
        } else if row == 2 {
            '2'
        } else {
            '1'
        }
    }
}

/// Decodes one full scan of the matrix: `readings[c][r]` is `true` when row
/// `r` read low while column `c` was driven low. At most one key is reported
/// even if several are held: first match in column-major, then row-major
/// order.
pub fn scan_keypad(readings: &[[bool; 4]; 4]) -> (key: Option<char>)
    ensures
        key == spec_scan(*readings),
{
    let mut c: usize = 0;
    while c < 4
        invariant
            0 <= c <= 4,
            spec_scan_from(*readings, c as int) == spec_scan(*readings),
        decreases 4 - c,
    {
        let col = &readings[c];
        if col[0] {
            return Some(key_at(c, 0));
        }
        if col[1] {
            return Some(key_at(c, 1));
        }
        if col[2] {
            return Some(key_at(c, 2));
        }
        if col[3] {
            return Some(key_at(c, 3));
        }
        c = c + 1;
    }
    None
}

} // verus!
