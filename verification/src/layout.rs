//! Height of the input box for a query of a given length at a given
//! terminal width.

use vstd::prelude::*;

verus! {

/// Rows the input box needs: the query text is wrapped at the inner width
/// (the width minus borders and prompt), two border rows are added, and the
/// result is never fewer than three rows.
pub open spec fn spec_input_height(text_len: int, width: int) -> int {
    let inner = width - 4;
    if inner <= 0 {
        3
    } else {
        let a = text_len + 3;
        let lines = a / inner + if a % inner == 0 {
            0int
        } else {
            1int
        };
        if lines + 2 >= 3 {
            lines + 2
        } else {
            3
        }
    }
}

pub fn calc_input_height(text_len: usize, width: u16) -> (h: u16)
    requires
        text_len + 3 <= usize::MAX,
        width > 4 ==> (text_len + 3) / ((width - 4) as int) + 3 <= u16::MAX,
    ensures
        h == spec_input_height(text_len as int, width as int),
{
    let inner_width = if width >= 4 { (width - 4) as usize } else { 0 };
    if inner_width == 0 {
        return 3;
    }
    let a = text_len + 3;
    let lines = a / inner_width + if a % inner_width == 0 { 0 } else { 1 };
    let h = (lines as u16) + 2;
    if h >= 3 {
        h
    } else {
        3
    }
}

} // verus!
