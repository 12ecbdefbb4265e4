use vstd::prelude::*;
use vstd::string::StrSliceExecFns;
use crate::round::Choice;
use crate::BlackjackError;

verus! {

/// A decimal digit, by code point.
pub open spec fn is_digit(c: char) -> bool {
    48 <= c as int <= 57
}

/// The value of one decimal digit.
pub open spec fn digit_val(c: char) -> int {
    c as int - 48
}

/// Every character of the text is a decimal digit.
pub open spec fn all_digits(s: Seq<char>) -> bool {
    forall|i: int| 0 <= i < s.len() ==> is_digit(#[trigger] s[i])
}

/// The number a run of decimal digits spells, most significant first.
pub open spec fn num_of(s: Seq<char>) -> int
    decreases s.len(),
{
    if s.len() == 0 {
        0
    } else {
        num_of(s.drop_last()) * 10 + digit_val(s.last())
    }
}

/// A run of digits spells a non-negative number.
pub proof fn lemma_num_of_nonneg(s: Seq<char>)
    requires
        all_digits(s),
    ensures
        num_of(s) >= 0,
    decreases s.len(),
{
    if s.len() > 0 {
        assert(all_digits(s.drop_last())) by {
            assert(forall|i: int|
                0 <= i < s.drop_last().len() ==> #[trigger] s.drop_last()[i] == s[i]);
        }
        lemma_num_of_nonneg(s.drop_last());
        assert(is_digit(s.last()));
    }
}

/// Reading more digits never shrinks the number: the number a prefix
/// spells is at most the number the whole run spells.
pub proof fn lemma_num_of_prefix(s: Seq<char>, i: int)
    requires
        all_digits(s),
        0 <= i <= s.len(),
    ensures
        num_of(s.take(i)) <= num_of(s),
    decreases s.len() - i,
{
    if i == s.len() {
        assert(s.take(i) =~= s);
    } else {
        assert(s.take(i + 1).drop_last() =~= s.take(i));
        assert(s.take(i + 1).last() == s[i]);
        assert(all_digits(s.take(i))) by {
            assert(forall|j: int| 0 <= j < i ==> #[trigger] s.take(i)[j] == s[j]);
        }
        lemma_num_of_nonneg(s.take(i));
        assert(is_digit(s[i]));
        assert(num_of(s.take(i)) <= num_of(s.take(i + 1)));
        lemma_num_of_prefix(s, i + 1);
    }
}

/// Classify the hit-or-stand reply: the literal "h" hits, the literal
/// "s" stands, and anything else is refused with `UnrecognizedChoice`
/// so the caller can prompt again.
pub fn parse_choice(s: &str) -> (r: Result<Choice, BlackjackError>)
    ensures
        s@ == "h"@ ==> r == Ok::<Choice, BlackjackError>(Choice::Hit),
        s@ == "s"@ ==> r == Ok::<Choice, BlackjackError>(Choice::Stand),
        s@ != "h"@ && s@ != "s"@ ==> r == Err::<Choice, BlackjackError>(
            BlackjackError::UnrecognizedChoice,
        ),
{
    proof {
        reveal_strlit("h");
        reveal_strlit("s");
    }
    if s.unicode_len() == 1 {
        let c = s.get_char(0);
        if c == 'h' {
            proof {
                assert(s@ =~= "h"@);
            }
            return Ok(Choice::Hit);
        }
        if c == 's' {
            proof {
                assert(s@ =~= "s"@);
            }
            return Ok(Choice::Stand);
        }
    }
    Err(BlackjackError::UnrecognizedChoice)
}

/// The replay prompt takes the literal "y" as yes; by design anything
/// else — not only "n" — ends the session.
pub fn is_play_again(s: &str) -> (r: bool)
    ensures
        r == (s@ == "y"@),
{
    proof {
        reveal_strlit("y");
    }
    if s.unicode_len() == 1 {
        let c = s.get_char(0);
        if c == 'y' {
            proof {
                assert(s@ =~= "y"@);
            }
            return true;
        }
    }
    false
}

/// Read a whole line of decimal digits as a non-negative chip amount.
/// An empty line, any non-digit character, or an amount that does not
/// fit the ledger is refused with `MalformedBetInput` so the caller can
/// prompt again rather than fall over.
pub fn parse_bet(s: &str) -> (r: Result<i32, BlackjackError>)
    ensures
        r is Ok <==> s@.len() > 0 && all_digits(s@) && num_of(s@) <= i32::MAX,
        r is Ok ==> r == Ok::<i32, BlackjackError>(num_of(s@) as i32),
        r is Err ==> r == Err::<i32, BlackjackError>(BlackjackError::MalformedBetInput),
{
    let n = s.unicode_len();
    if n == 0 {
        return Err(BlackjackError::MalformedBetInput);
    }
    let mut acc: i32 = 0;
    let mut i: usize = 0;
    while i < n
        invariant
            n == s@.len(),
            i <= n,
            all_digits(s@.take(i as int)),
            acc == num_of(s@.take(i as int)),
            acc >= 0,
        decreases n - i,
    {
        let c = s.get_char(i);
        let u = c as u32;
        if u < 48 || u > 57 {
            return Err(BlackjackError::MalformedBetInput);
        }
        let d = u - 48;
        let wide: i64 = (acc as i64) * 10 + (d as i64);
        proof {
            assert(s@.take(i as int + 1).drop_last() =~= s@.take(i as int));
            assert(s@.take(i as int + 1).last() == s@[i as int]);
            assert(all_digits(s@.take(i as int + 1))) by {
                assert(forall|j: int|
                    0 <= j < i as int + 1 ==> #[trigger] s@.take(i as int + 1)[j] == s@[j]);
            }
            assert(num_of(s@.take(i as int + 1)) == wide);
        }
        if wide > i32::MAX as i64 {
            proof {
                if all_digits(s@) {
                    lemma_num_of_prefix(s@, i as int + 1);
                }
            }
            return Err(BlackjackError::MalformedBetInput);
        }
        acc = wide as i32;
        i = i + 1;
    }
    proof {
        assert(s@.take(n as int) =~= s@);
    }
    Ok(acc)
}

} // verus!
