//! The value reader's computation: take the text of a control file, trim
//! surrounding whitespace and parse an unsigned base-10 integer.

use crate::digits::all_digits;
use crate::digits::digits_val;
use crate::digits::is_digit_char;
use crate::digits::parse_digits;
use crate::error::BacklightError;
use vstd::prelude::*;
use vstd::string::StrSliceExecFns;

verus! {

/// Whether `c` is ASCII whitespace, the kind that surrounds the integer
/// in a control file (typically a trailing newline).
pub open spec fn is_space_char(c: char) -> bool {
    c == ' ' || c == '\t' || c == '\n' || c == '\r'
}

/// `s` with leading whitespace removed.
pub open spec fn trim_front(s: Seq<char>) -> Seq<char>
    decreases s.len(),
{
    if s.len() > 0 && is_space_char(s[0]) {
        trim_front(s.drop_first())
    } else {
        s
    }
}

/// `s` with trailing whitespace removed.
pub open spec fn trim_back(s: Seq<char>) -> Seq<char>
    decreases s.len(),
{
    if s.len() > 0 && is_space_char(s.last()) {
        trim_back(s.drop_last())
    } else {
        s
    }
}

/// `s` with whitespace removed from both ends.
pub open spec fn trimmed(s: Seq<char>) -> Seq<char> {
    trim_back(trim_front(s))
}

/// Whether trimmed control-file text is a parseable brightness value: at
/// least one character, digits only, and small enough for a `u32`.
pub open spec fn is_valid_brightness_text(t: Seq<char>) -> bool {
    t.len() > 0 && all_digits(t) && digits_val(t) <= u32::MAX
}

/// Parse the full text of a brightness control file.
///
/// The text is trimmed of surrounding whitespace and read as an unsigned
/// base-10 integer; anything else — an empty file, a stray character, a
/// value beyond `u32` — is a `ParseError`.
pub fn parse_brightness_text(s: &str) -> (r: Result<u32, BacklightError>)
    ensures
        match r {
            Ok(v) => is_valid_brightness_text(trimmed(s@)) && v as nat == digits_val(trimmed(s@)),
            Err(e) => e == BacklightError::ParseError && !is_valid_brightness_text(trimmed(s@)),
        },
{
    let len = s.unicode_len();
    assert(s@.subrange(0, len as int) =~= s@);
    let mut lo: usize = 0;
    while lo < len && is_space(s.get_char(lo))
        invariant
            lo <= len,
            len == s@.len(),
            trim_front(s@) == trim_front(s@.subrange(lo as int, len as int)),
        decreases len - lo,
    {
        proof {
            let cur = s@.subrange(lo as int, len as int);
            assert(cur[0] == s@[lo as int]);
            assert(cur.drop_first() =~= s@.subrange(lo + 1, len as int));
        }
        lo = lo + 1;
    }
    proof {
        let cur = s@.subrange(lo as int, len as int);
        if lo < len {
            assert(cur[0] == s@[lo as int]);
        }
        assert(trim_front(s@) == cur);
    }
    if lo == len {
        proof {
            assert(s@.subrange(lo as int, len as int) =~= Seq::<char>::empty());
            assert(trimmed(s@).len() == 0);
        }
        return Err(BacklightError::ParseError);
    }
    let mut hi: usize = len;
    while hi > lo && is_space(s.get_char(hi - 1))
        invariant
            lo <= hi <= len,
            len == s@.len(),
            trim_front(s@) == s@.subrange(lo as int, len as int),
            trim_back(s@.subrange(lo as int, len as int)) == trim_back(
                s@.subrange(lo as int, hi as int),
            ),
        decreases hi,
    {
        proof {
            let cur = s@.subrange(lo as int, hi as int);
            assert(cur.last() == s@[hi - 1]);
            assert(cur.drop_last() =~= s@.subrange(lo as int, hi - 1));
        }
        hi = hi - 1;
    }
    let ghost t = s@.subrange(lo as int, hi as int);
    proof {
        if hi > lo {
            assert(t.last() == s@[hi - 1]);
        } else {
            assert(t =~= Seq::<char>::empty());
        }
        assert(trimmed(s@) == t);
    }
    if hi == lo {
        return Err(BacklightError::ParseError);
    }
    let mut i: usize = lo;
    while i < hi
        invariant
            lo <= i <= hi <= len,
            len == s@.len(),
            t == s@.subrange(lo as int, hi as int),
            trimmed(s@) == t,
            forall|j: int| lo <= j < i ==> is_digit_char(#[trigger] s@[j]),
        decreases hi - i,
    {
        let c = s.get_char(i);
        let code = c as u32;
        if code < 48 || code > 57 {
            proof {
                assert(t[i - lo] == s@[i as int]);
                assert(!all_digits(t));
            }
            return Err(BacklightError::ParseError);
        }
        i = i + 1;
    }
    assert forall|k: int| 0 <= k < t.len() implies is_digit_char(#[trigger] t[k]) by {
        assert(t[k] == s@[k + lo]);
    }
    match parse_digits(s, lo, hi) {
        Some(v) => Ok(v),
        None => Err(BacklightError::ParseError),
    }
}

/// Decide whether `c` is ASCII whitespace.
fn is_space(c: char) -> (r: bool)
    ensures
        r == is_space_char(c),
{
    c == ' ' || c == '\t' || c == '\n' || c == '\r'
}

} // verus!
