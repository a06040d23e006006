use vstd::prelude::*;

use crate::text::{decimal, push_all, string_from_chars, u64_to_decimal};

verus! {

/// The transposition label: "+n" above zero, "-n" below, "0" at zero.
pub open spec fn transpose_label_spec(steps: i32) -> Seq<char> {
    if steps > 0 {
        seq!['+'] + decimal(steps as nat)
    } else if steps < 0 {
        seq!['-'] + decimal((-steps) as nat)
    } else {
        seq!['0']
    }
}

/// The text shown for a transposition of `steps` half steps.
pub fn transpose_label(steps: i32) -> (r: String)
    ensures
        r@ == transpose_label_spec(steps),
{
    let mut v: Vec<char> = Vec::new();
    if steps > 0 {
        v.push('+');
        push_all(&mut v, &u64_to_decimal(steps as u64));
    } else if steps < 0 {
        v.push('-');
        push_all(&mut v, &u64_to_decimal((-(steps as i64)) as u64));
    } else {
        v.push('0');
    }
    assert(v@ =~= transpose_label_spec(steps));
    string_from_chars(&v)
}

/// The save button's tooltip: what pressing it will do.
pub fn save_tooltip(is_saved: bool) -> (r: &'static str)
    ensures
        r@ == (if is_saved {
            "Remove from library"@
        } else {
            "Save to library"@
        }),
{
    if is_saved {
        "Remove from library"
    } else {
        "Save to library"
    }
}

} // verus!
