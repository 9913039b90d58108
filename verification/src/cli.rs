//! The command line's verifiable decisions. The flag handling itself is
//! the surrounding application's business; what is decided here is how the
//! timeout text a user typed becomes a number of seconds.

use vstd::prelude::*;
use vstd::string::StrSliceExecFns;

use crate::text::char_is_digit;
use crate::text::is_digit;

verus! {

/// The numeric value of a digit character.
pub open spec fn digit_val(c: char) -> int {
    c as u32 - 0x30
}

/// The value of a run of digit characters read in base ten.
pub open spec fn digits_value(s: Seq<char>) -> int
    decreases s.len(),
{
    if s.len() == 0 {
        0
    } else {
        digits_value(s.drop_last()) * 10 + digit_val(s.last())
    }
}

/// `s` without an optional single leading plus sign.
pub open spec fn unsigned_digits(s: Seq<char>) -> Seq<char> {
    if s.len() > 0 && s[0] == '+' {
        s.drop_first()
    } else {
        s
    }
}

/// Whether `s` is text that parses as a `u64`: an optional leading plus,
/// then at least one digit and nothing else, with a value that fits.
pub open spec fn is_u64_text(s: Seq<char>) -> bool {
    let d = unsigned_digits(s);
    d.len() > 0 && (forall|k: int| 0 <= k < d.len() ==> is_digit(d[k])) && digits_value(d)
        <= u64::MAX
}

proof fn lemma_digits_value_nonneg(s: Seq<char>)
    requires
        forall|k: int| 0 <= k < s.len() ==> is_digit(s[k]),
    ensures
        digits_value(s) >= 0,
    decreases s.len(),
{
    if s.len() > 0 {
        lemma_digits_value_nonneg(s.drop_last());
    }
}

proof fn lemma_digits_value_take_le(s: Seq<char>, j: int)
    requires
        forall|k: int| 0 <= k < s.len() ==> is_digit(s[k]),
        0 <= j <= s.len(),
    ensures
        digits_value(s.take(j)) <= digits_value(s),
    decreases s.len() - j,
{
    if j < s.len() {
        let t = s.take(j + 1);
        assert(t.drop_last() =~= s.take(j));
        lemma_digits_value_nonneg(s.take(j));
        assert(digits_value(t) == digits_value(s.take(j)) * 10 + digit_val(s[j]));
        lemma_digits_value_take_le(s, j + 1);
    } else {
        assert(s.take(j) =~= s);
    }
}

/// The command line's parser.
pub struct CliParser;

impl CliParser {
    /// The configured timeout for the text a user typed: its value when
    /// the text parses as a `u64`, five seconds otherwise.
    pub fn parse_timeout(text: &str) -> (r: u64)
        ensures
            is_u64_text(text@) ==> r == digits_value(unsigned_digits(text@)),
            !is_u64_text(text@) ==> r == 5,
    {
        let len = text.unicode_len();
        let mut start: usize = 0;
        if len > 0 && text.get_char(0) == '+' {
            start = 1;
        }
        let ghost d = unsigned_digits(text@);
        proof {
            assert(d =~= text@.skip(start as int));
        }
        if start == len {
            return 5;
        }
        let mut value: u64 = 0;
        let mut i: usize = start;
        proof {
            assert(d.take(0) =~= Seq::<char>::empty());
        }
        while i < len
            invariant
                start <= i <= len,
                len == text@.len(),
                start <= 1,
                d == unsigned_digits(text@),
                d =~= text@.skip(start as int),
                d.len() == len - start,
                forall|k: int| 0 <= k < i - start ==> is_digit(d[k]),
                value == digits_value(d.take(i - start)),
            decreases len - i,
        {
            let c = text.get_char(i);
            proof {
                assert(d[i - start] == text@[i as int]);
            }
            if !char_is_digit(c) {
                return 5;
            }
            let digit: u64 = (c as u32 as u64) - 0x30;
            if value > (u64::MAX - digit) / 10 {
                proof {
                    assert(d.take(i - start + 1).drop_last() =~= d.take(i - start));
                    assert(d.take(i - start + 1).last() == d[i - start]);
                    assert(digits_value(d.take(i - start + 1)) > u64::MAX);
                    if is_u64_text(text@) {
                        lemma_digits_value_take_le(d, i - start + 1);
                        assert(false);
                    }
                }
                return 5;
            }
            value = value * 10 + digit;
            proof {
                assert(d.take(i - start + 1).drop_last() =~= d.take(i - start));
                assert(d.take(i - start + 1).last() == d[i - start]);
            }
            i = i + 1;
        }
        proof {
            assert(d.take((len - start) as int) =~= d);
        }
        value
    }
}

} // verus!
