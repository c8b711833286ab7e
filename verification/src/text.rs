use vstd::prelude::*;
use vstd::string::StrSliceExecFns;

verus! {

/// Whether `c` is an ASCII decimal digit.
pub open spec fn is_digit(c: char) -> bool {
    '0' <= c && c <= '9'
}

/// The numeric value of an ASCII decimal digit.
pub open spec fn digit_val(c: char) -> int {
    c as int - 48
}

/// Whether every character of `s` is an ASCII decimal digit.
pub open spec fn all_digits(s: Seq<char>) -> bool {
    forall|i: int| 0 <= i < s.len() ==> is_digit(#[trigger] s[i])
}

/// The base-ten value of a digit string, most significant digit first.
pub open spec fn digits_val(s: Seq<char>) -> int
    decreases s.len(),
{
    if s.len() == 0 {
        0
    } else {
        digits_val(s.drop_last()) * 10 + digit_val(s.last())
    }
}

/// The digit part of an integer literal: everything after a leading
/// `+` or `-`, or the whole string when there is no sign.
pub open spec fn int_text_body(s: Seq<char>) -> Seq<char> {
    if s.len() > 0 && (s[0] == '+' || s[0] == '-') {
        s.drop_first()
    } else {
        s
    }
}

/// The sign of an integer literal: -1 under a leading `-`, else 1.
pub open spec fn int_text_sign(s: Seq<char>) -> int {
    if s.len() > 0 && s[0] == '-' {
        -1
    } else {
        1
    }
}

/// Whether `s` is a well-formed `i32` literal: an optional sign, then at
/// least one digit and nothing else, with the value in `i32` range.
pub open spec fn is_i32_text(s: Seq<char>) -> bool {
    &&& int_text_body(s).len() > 0
    &&& all_digits(int_text_body(s))
    &&& i32::MIN <= int_text_sign(s) * digits_val(int_text_body(s)) <= i32::MAX
}

/// The value denoted by a well-formed `i32` literal.
pub open spec fn i32_text_value(s: Seq<char>) -> int {
    int_text_sign(s) * digits_val(int_text_body(s))
}

/// A digit string's value is never negative.
pub proof fn lemma_digits_val_nonneg(s: Seq<char>)
    requires
        all_digits(s),
    ensures
        digits_val(s) >= 0,
    decreases s.len(),
{
    if s.len() > 0 {
        assert(all_digits(s.drop_last()));
        lemma_digits_val_nonneg(s.drop_last());
    }
}

/// Extending a digit string never shrinks its value: any prefix of a
/// digit string has a value no greater than the whole string's.
pub proof fn lemma_digits_val_prefix_le(s: Seq<char>, k: int)
    requires
        all_digits(s),
        0 <= k <= s.len(),
    ensures
        digits_val(s.subrange(0, k)) <= digits_val(s),
    decreases s.len() - k,
{
    if k == s.len() {
        assert(s.subrange(0, k) =~= s);
    } else {
        let t = s.drop_last();
        assert(all_digits(t));
        assert(s.subrange(0, k) =~= t.subrange(0, k));
        lemma_digits_val_prefix_le(t, k);
        lemma_digits_val_nonneg(t);
    }
}

/// Character-by-character string equality, decided in executable code.
pub fn str_eq(a: &str, b: &str) -> (r: bool)
    ensures
        r == (a@ == b@),
{
    let n = a.unicode_len();
    if n != b.unicode_len() {
        return false;
    }
    let mut i: usize = 0;
    while i < n
        invariant
            0 <= i <= n,
            n == a@.len(),
            n == b@.len(),
            forall|j: int| 0 <= j < i ==> a@[j] == b@[j],
        decreases n - i,
    {
        if a.get_char(i) != b.get_char(i) {
            return false;
        }
        i = i + 1;
    }
    proof {
        assert(a@ =~= b@);
    }
    true
}

/// Parses an `i32` from text under the usual integer-literal grammar: an
/// optional `+` or `-` sign, then one or more decimal digits; anything
/// else, or a value outside the `i32` range, yields `None`.
pub fn parse_i32(s: &str) -> (r: Option<i32>)
    ensures
        is_i32_text(s@) ==> (r matches Some(v) && v == i32_text_value(s@)),
        !is_i32_text(s@) ==> r == None::<i32>,
{
    let n = s.unicode_len();
    let (off, neg): (usize, bool) = if n > 0 {
        let c0 = s.get_char(0);
        if c0 == '-' {
            (1, true)
        } else if c0 == '+' {
            (1, false)
        } else {
            (0, false)
        }
    } else {
        (0, false)
    };
    let ghost body = int_text_body(s@);
    proof {
        assert(body =~= s@.subrange(off as int, n as int));
    }
    if off >= n {
        return None;
    }
    let mut i: usize = off;
    let mut acc: u64 = 0;
    while i < n
        invariant
            off <= i <= n,
            n == s@.len(),
            body == int_text_body(s@),
            body =~= s@.subrange(off as int, n as int),
            forall|j: int| off <= j < i ==> is_digit(#[trigger] s@[j]),
            acc == digits_val(s@.subrange(off as int, i as int)),
            acc <= 0x8000_0000,
        decreases n - i,
    {
        let c = s.get_char(i);
        if !(c >= '0' && c <= '9') {
            proof {
                assert(body[i - off] == s@[i as int]);
                assert(!all_digits(body));
            }
            return None;
        }
        let d: u64 = (c as u32 - 48) as u64;
        let next: u64 = acc * 10 + d;
        proof {
            let pre = s@.subrange(off as int, i as int);
            let post = s@.subrange(off as int, i + 1);
            assert(post.drop_last() =~= pre);
            assert(post.last() == s@[i as int]);
        }
        if next > 0x8000_0000 {
            proof {
                if all_digits(body) {
                    let post = s@.subrange(off as int, i + 1);
                    assert(post =~= body.subrange(0, i + 1 - off));
                    lemma_digits_val_prefix_le(body, i + 1 - off);
                }
            }
            return None;
        }
        acc = next;
        i = i + 1;
    }
    proof {
        assert(s@.subrange(off as int, n as int) =~= body);
        lemma_digits_val_nonneg(body);
    }
    if neg {
        Some((-(acc as i64)) as i32)
    } else {
        if acc > 0x7FFF_FFFF {
            return None;
        }
        Some(acc as i32)
    }
}

} // verus!
