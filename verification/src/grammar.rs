//! The grammar of the value argument: an optional leading sign, one or
//! more decimal digits, an optional trailing percent sign.

use crate::digits::all_digits;
use crate::digits::is_digit_char;
use vstd::prelude::*;
use vstd::string::StrSliceExecFns;
use vstd::string::StringExecFns;

verus! {

/// Whether `c` is a sign prefix.
pub open spec fn is_sign_char(c: char) -> bool {
    c == '+' || c == '-'
}

/// How many characters the sign prefix occupies: one or none.
pub open spec fn sign_len(s: Seq<char>) -> int {
    if s.len() > 0 && is_sign_char(s[0]) {
        1
    } else {
        0
    }
}

/// Where the digit run ends: before a trailing percent sign, else at the
/// end of the string.
pub open spec fn body_end(s: Seq<char>) -> int {
    if s.len() > 0 && s[s.len() - 1] == '%' {
        s.len() - 1
    } else {
        s.len() as int
    }
}

/// The digit run between the sign prefix and the percent suffix.
pub open spec fn digits_part(s: Seq<char>) -> Seq<char> {
    s.subrange(sign_len(s), body_end(s))
}

/// Whether `s` matches the accepted value grammar: an optional `+` or `-`,
/// then one or more decimal digits, then an optional `%`.
pub open spec fn grammar_matches(s: Seq<char>) -> bool {
    sign_len(s) < body_end(s) && all_digits(digits_part(s))
}

/// Decide whether `s` matches the value grammar.
pub fn matches_value_grammar(s: &str) -> (r: bool)
    ensures
        r == grammar_matches(s@),
{
    let len = s.unicode_len();
    if len == 0 {
        return false;
    }
    let first = s.get_char(0);
    let start: usize = if first == '+' || first == '-' {
        1
    } else {
        0
    };
    let last = s.get_char(len - 1);
    let end: usize = if last == '%' {
        len - 1
    } else {
        len
    };
    assert(start as int == sign_len(s@));
    assert(end as int == body_end(s@));
    if start >= end {
        return false;
    }
    let mut i: usize = start;
    while i < end
        invariant
            start <= i <= end <= s@.len(),
            start as int == sign_len(s@),
            end as int == body_end(s@),
            forall|j: int| start <= j < i ==> is_digit_char(#[trigger] s@[j]),
        decreases end - i,
    {
        let c = s.get_char(i);
        let code = c as u32;
        if code < 48 || code > 57 {
            assert(!is_digit_char(s@[i as int]));
            assert(digits_part(s@)[i - start] == s@[i as int]);
            return false;
        }
        i = i + 1;
    }
    assert forall|k: int| 0 <= k < digits_part(s@).len() implies is_digit_char(
        #[trigger] digits_part(s@)[k],
    ) by {
        assert(digits_part(s@)[k] == s@[k + start]);
    }
    true
}

/// Validate the raw value argument: the empty string passes through as
/// "no value provided", any other string must match the grammar.
pub fn value_validator(value: &str) -> (r: Result<String, String>)
    ensures
        match r {
            Ok(s) => (value@.len() == 0 || grammar_matches(value@)) && s@ == value@,
            Err(m) => value@.len() > 0 && !grammar_matches(value@) && m@
                == "Value provided does not match proper form."@,
        },
{
    if value.unicode_len() == 0 {
        let s = String::new();
        assert(s@ =~= value@);
        return Ok(s);
    }
    if matches_value_grammar(value) {
        Ok(String::from_str(value))
    } else {
        Err(String::from_str("Value provided does not match proper form."))
    }
}

} // verus!
