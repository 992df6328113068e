//! Reading a timestamp: an unsigned decimal number of milliseconds.

use vstd::prelude::*;
use vstd::std_specs::iter::IteratorSpec;

verus! {

/// Why a text is no unsigned 64-bit decimal number.
#[derive(Debug, Clone, Copy, PartialEq, Eq, Structural)]
pub enum IntParseFault {
    /// The text is empty.
    Empty,
    /// A character is no decimal digit.
    InvalidDigit,
    /// The digits read so far already stand for more than 64 bits hold.
    PosOverflow,
}

pub open spec fn is_digit(c: char) -> bool {
    '0' <= c <= '9'
}

/// The number that a decimal digit stands for.
pub open spec fn digit_value(c: char) -> nat
    recommends
        is_digit(c),
{
    (c as nat - '0' as nat) as nat
}

pub open spec fn all_digits(s: Seq<char>) -> bool {
    forall|i: int| 0 <= i < s.len() ==> is_digit(#[trigger] s[i])
}

/// The number that a run of decimal digits stands for.
pub open spec fn decimal_value(s: Seq<char>) -> nat
    decreases s.len(),
{
    if s.len() == 0 {
        0
    } else {
        decimal_value(s.drop_last()) * 10 + digit_value(s.last())
    }
}

/// Reads digits from the left. The first character that is no digit, or that
/// takes the number past 64 bits, decides the fault.
pub open spec fn read_digits(s: Seq<char>) -> Result<u64, IntParseFault>
    decreases s.len(),
{
    if s.len() == 0 {
        Ok(0)
    } else {
        match read_digits(s.drop_last()) {
            Err(fault) => Err(fault),
            Ok(before) => if !is_digit(s.last()) {
                Err(IntParseFault::InvalidDigit)
            } else if before * 10 + digit_value(s.last()) > u64::MAX {
                Err(IntParseFault::PosOverflow)
            } else {
                Ok((before * 10 + digit_value(s.last())) as u64)
            },
        }
    }
}

/// The text without a plus sign in front of its digits.
pub open spec fn unsigned_part(s: Seq<char>) -> Seq<char> {
    if s.len() > 1 && s[0] == '+' {
        s.skip(1)
    } else {
        s
    }
}

/// What a timestamp text stands for.
pub open spec fn timestamp_of(s: Seq<char>) -> Result<u64, IntParseFault> {
    if s.len() == 0 {
        Err(IntParseFault::Empty)
    } else {
        read_digits(unsigned_part(s))
    }
}

/// Reading one character more, after a run that was read without fault.
pub proof fn lemma_read_one_more(s: Seq<char>, c: char)
    requires
        read_digits(s) is Ok,
    ensures
        read_digits(s.push(c)) == if !is_digit(c) {
            Err::<u64, IntParseFault>(IntParseFault::InvalidDigit)
        } else if read_digits(s)->Ok_0 * 10 + digit_value(c) > u64::MAX {
            Err(IntParseFault::PosOverflow)
        } else {
            Ok((read_digits(s)->Ok_0 * 10 + digit_value(c)) as u64)
        },
{
    assert(s.push(c).drop_last() == s);
}

/// A fault stands, whatever follows the character that caused it.
pub proof fn lemma_fault_is_final(s: Seq<char>, n: int)
    requires
        0 <= n <= s.len(),
        read_digits(s.take(n)) is Err,
    ensures
        read_digits(s) == read_digits(s.take(n)),
    decreases s.len(),
{
    if n == s.len() {
        assert(s.take(n) == s);
    } else {
        assert(s.drop_last().take(n) == s.take(n));
        lemma_fault_is_final(s.drop_last(), n);
    }
}

/// A run is read without fault exactly if it holds digits only and stands
/// for a number of at most 64 bits, and then it is read as that number.
pub proof fn lemma_read_digits_ok(s: Seq<char>)
    ensures
        read_digits(s) is Ok <==> all_digits(s) && decimal_value(s) <= u64::MAX,
        read_digits(s) is Ok ==> read_digits(s)->Ok_0 == decimal_value(s),
    decreases s.len(),
{
    if s.len() > 0 {
        let rest = s.drop_last();
        lemma_read_digits_ok(rest);
        if read_digits(s) is Ok {
            assert forall|i: int| 0 <= i < s.len() implies is_digit(#[trigger] s[i]) by {
                if i < rest.len() {
                    assert(rest[i] == s[i]);
                }
            }
        }
    }
}

/// A text is a timestamp exactly if, after a plus sign that may stand in
/// front, it holds at least one character, digits only, and stands for a
/// number of at most 64 bits. That number is then the timestamp.
pub proof fn lemma_timestamp_ok(s: Seq<char>)
    ensures
        timestamp_of(s) is Ok <==> unsigned_part(s).len() > 0 && all_digits(unsigned_part(s))
            && decimal_value(unsigned_part(s)) <= u64::MAX,
        timestamp_of(s) is Ok ==> timestamp_of(s)->Ok_0 == decimal_value(unsigned_part(s)),
{
    lemma_read_digits_ok(unsigned_part(s));
}

/// Reads a timestamp: decimal digits, with or without a plus sign in front,
/// that stand for a number of at most 64 bits.
pub fn parse_timestamp(text: &str) -> (r: Result<u64, IntParseFault>)
    ensures
        r == timestamp_of(text@),
{
    let mut chars = text.chars();
    let ghost mut seen: int = 0;
    let mut first = true;
    let mut signed = false;
    let mut any_digit = false;
    let mut value: u64 = 0;
    loop
        invariant
            0 <= seen <= text@.len(),
            chars.remaining() == text@.skip(seen),
            first <==> seen == 0,
            signed ==> seen >= 1 && text@[0] == '+',
            !signed && !first ==> text@[0] != '+',
            any_digit <==> seen > (if signed { 1int } else { 0int }),
            read_digits(text@.subrange(if signed { 1int } else { 0int }, seen)) == Ok::<
                u64,
                IntParseFault,
            >(value),
        ensures
            seen == text@.len(),
        decreases text@.len() - seen,
    {
        match chars.next() {
            None => {
                break ;
            },
            Some(c) => {
                let ghost from: int = if signed { 1 } else { 0 };
                let ghost digits = unsigned_part(text@);
                if first && c == '+' {
                    signed = true;
                } else {
                    proof {
                        assert(text@.subrange(from, seen + 1) == text@.subrange(from, seen).push(
                            c,
                        ));
                        lemma_read_one_more(text@.subrange(from, seen), c);
                        assert(digits.take(seen + 1 - from) == text@.subrange(from, seen + 1));
                        if read_digits(text@.subrange(from, seen + 1)) is Err {
                            lemma_fault_is_final(digits, seen + 1 - from);
                        }
                    }
                    if !('0' <= c && c <= '9') {
                        return Err(IntParseFault::InvalidDigit);
                    }
                    let d: u64 = (c as u32 - '0' as u32) as u64;
                    if value > (u64::MAX - d) / 10 {
                        return Err(IntParseFault::PosOverflow);
                    }
                    value = value * 10 + d;
                    any_digit = true;
                }
                first = false;
                proof {
                    seen = seen + 1;
                }
            },
        }
    }
    proof {
        if !first && !any_digit {
            // The text is a plus sign and nothing else.
            lemma_read_one_more(Seq::<char>::empty(), '+');
        }
    }
    if first {
        Err(IntParseFault::Empty)
    } else if !any_digit {
        Err(IntParseFault::InvalidDigit)
    } else {
        Ok(value)
    }
}

} // verus!
