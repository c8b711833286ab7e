use vstd::prelude::*;

verus! {

/// The English ordinal suffix of a non-negative number: "st", "nd" and
/// "rd" for numbers ending in 1, 2 and 3, except that 11, 12 and 13 (and
/// 111, 212, ...) take "th", as does everything else.
pub open spec fn ordinal_suffix_spec(n: int) -> Seq<char> {
    if n % 100 == 11 || n % 100 == 12 || n % 100 == 13 {
        "th"@
    } else if n % 10 == 1 {
        "st"@
    } else if n % 10 == 2 {
        "nd"@
    } else if n % 10 == 3 {
        "rd"@
    } else {
        "th"@
    }
}

/// The English ordinal suffix for `num`, used when naming a fret.
pub fn get_ordinal_suffix(num: i32) -> (r: &'static str)
    requires
        num >= 0,
    ensures
        r@ == ordinal_suffix_spec(num as int),
{
    let ones = (num as u32) % 10;
    let tens = (num as u32) % 100;
    if tens == 11 || tens == 12 || tens == 13 {
        "th"
    } else if ones == 1 {
        "st"
    } else if ones == 2 {
        "nd"
    } else if ones == 3 {
        "rd"
    } else {
        "th"
    }
}

} // verus!
