//! Decimal digit sequences: their numeric value, parsing with an overflow
//! check, and formatting back to text.

use vstd::prelude::*;
use vstd::string::StrSliceExecFns;
use vstd::string::StringExecFns;

verus! {

/// Whether `c` is an ASCII decimal digit.
pub open spec fn is_digit_char(c: char) -> bool {
    48 <= c as u32 <= 57
}

/// Whether every character of `s` is an ASCII decimal digit.
pub open spec fn all_digits(s: Seq<char>) -> bool {
    forall|i: int| 0 <= i < s.len() ==> is_digit_char(#[trigger] s[i])
}

/// The numeric value of one digit character.
pub open spec fn char_digit(c: char) -> nat {
    (c as u32 - 48) as nat
}

/// The digit character of one value below ten.
pub open spec fn digit_char_of(n: nat) -> char {
    ((48 + n) as u32) as char
}

/// The numeric value of a digit sequence read in base ten.
pub open spec fn digits_val(s: Seq<char>) -> nat
    decreases s.len(),
{
    if s.len() == 0 {
        0
    } else {
        digits_val(s.drop_last()) * 10 + char_digit(s.last())
    }
}

/// The canonical decimal representation of `n`: no leading zeros except
/// for the single digit `0` itself.
pub open spec fn dec_rep(n: nat) -> Seq<char>
    decreases n,
{
    if n < 10 {
        seq![digit_char_of(n)]
    } else {
        dec_rep(n / 10).push(digit_char_of(n % 10))
    }
}

/// Every prefix of a digit sequence has a value no greater than the whole
/// sequence's value.
proof fn lemma_digits_val_prefix_le(s: Seq<char>, k: int)
    requires
        0 <= k <= s.len(),
    ensures
        digits_val(s.subrange(0, k)) <= digits_val(s),
    decreases s.len() - k,
{
    if k == s.len() {
        assert(s.subrange(0, k) =~= s);
    } else {
        let a = s.subrange(0, k);
        let b = s.subrange(0, k + 1);
        assert(b.drop_last() =~= a);
        assert(digits_val(b) == digits_val(a) * 10 + char_digit(b.last()));
        lemma_digits_val_prefix_le(s, k + 1);
    }
}

/// Parse the digit characters of `s` in positions `[from, to)` as an
/// unsigned base-10 integer, reporting `None` when the value does not fit
/// in a `u32`.
pub(crate) fn parse_digits(s: &str, from: usize, to: usize) -> (r: Option<u32>)
    requires
        from <= to <= s@.len(),
        forall|i: int| from <= i < to ==> is_digit_char(#[trigger] s@[i]),
    ensures
        match r {
            Some(v) => v as nat == digits_val(s@.subrange(from as int, to as int)) && digits_val(
                s@.subrange(from as int, to as int),
            ) <= u32::MAX,
            None => digits_val(s@.subrange(from as int, to as int)) > u32::MAX,
        },
{
    let ghost t = s@.subrange(from as int, to as int);
    let mut acc: u64 = 0;
    let mut i: usize = from;
    while i < to
        invariant
            from <= i <= to <= s@.len(),
            forall|j: int| from <= j < to ==> is_digit_char(#[trigger] s@[j]),
            t == s@.subrange(from as int, to as int),
            acc as nat == digits_val(t.subrange(0, i - from)),
            acc <= u32::MAX,
        decreases to - i,
    {
        let c = s.get_char(i);
        assert(c == t[i - from]);
        let d: u64 = c as u64 - 48;
        let next: u64 = acc * 10 + d;
        proof {
            assert(t.subrange(0, i + 1 - from).drop_last() =~= t.subrange(0, i - from));
            assert(digits_val(t.subrange(0, i + 1 - from)) == acc as nat * 10 + d as nat);
        }
        if next > u32::MAX as u64 {
            proof {
                lemma_digits_val_prefix_le(t, i + 1 - from);
            }
            return None;
        }
        acc = next;
        i = i + 1;
    }
    assert(t.subrange(0, to - from) =~= t);
    Some(acc as u32)
}

/// The one-character string for a digit value below ten.
fn digit_str(d: u32) -> (r: &'static str)
    requires
        d < 10,
    ensures
        r@ =~= seq![digit_char_of(d as nat)],
{
    proof {
        reveal_strlit("0");
        reveal_strlit("1");
        reveal_strlit("2");
        reveal_strlit("3");
        reveal_strlit("4");
        reveal_strlit("5");
        reveal_strlit("6");
        reveal_strlit("7");
        reveal_strlit("8");
        reveal_strlit("9");
    }
    match d {
        0 => "0",
        1 => "1",
        2 => "2",
        3 => "3",
        4 => "4",
        5 => "5",
        6 => "6",
        7 => "7",
        8 => "8",
        _ => "9",
    }
}

/// The decimal representation is made of digits and parses back to the
/// value it was formatted from.
pub proof fn lemma_dec_rep_roundtrip(n: nat)
    ensures
        dec_rep(n).len() >= 1,
        all_digits(dec_rep(n)),
        digits_val(dec_rep(n)) == n,
    decreases n,
{
    if n < 10 {
        let s = dec_rep(n);
        assert(s.drop_last() =~= Seq::<char>::empty());
        assert(digits_val(Seq::<char>::empty()) == 0);
        assert(s.last() == digit_char_of(n));
        assert(digit_char_of(n) as u32 == 48 + n);
        assert(char_digit(digit_char_of(n)) == n);
        assert(digits_val(s) == char_digit(digit_char_of(n)));
    } else {
        lemma_dec_rep_roundtrip(n / 10);
        let s = dec_rep(n);
        assert(s.drop_last() =~= dec_rep(n / 10));
        assert(digits_val(s) == (n / 10) * 10 + char_digit(digit_char_of(n % 10)));
        assert(char_digit(digit_char_of(n % 10)) == n % 10);
        assert((n / 10) * 10 + n % 10 == n) by (nonlinear_arith);
    }
}

/// Format a value as its base-10 decimal text, as written to the
/// brightness control file.
pub fn format_brightness(v: u32) -> (s: String)
    ensures
        s@ == dec_rep(v as nat),
        all_digits(s@),
        digits_val(s@) == v as nat,
        s@.len() >= 1,
    decreases v,
{
    proof {
        lemma_dec_rep_roundtrip(v as nat);
    }
    if v < 10 {
        let s = String::from_str(digit_str(v));
        assert(s@ =~= dec_rep(v as nat));
        s
    } else {
        let mut s = format_brightness(v / 10);
        s.append(digit_str(v % 10));
        assert(s@ =~= dec_rep(v as nat));
        s
    }
}

} // verus!
