//! Peer ids and the decimal names under which the media server knows them.

use vstd::prelude::*;
use vstd::string::*;

verus! {

/// The id of one connection to a room.
pub type PeerId = u32;

/// Whether `c` is one of the ten ASCII digits.
pub open spec fn is_digit(c: char) -> bool {
    '0' <= c <= '9'
}

/// The number that the digit `c` stands for.
pub open spec fn digit_value(c: char) -> nat {
    (c as int - '0' as int) as nat
}

/// The number that a sequence of digits stands for, most significant first.
pub open spec fn decimal_value(digits: Seq<char>) -> nat
    decreases digits.len(),
{
    if digits.len() == 0 {
        0
    } else {
        10 * decimal_value(digits.drop_last()) + digit_value(digits.last())
    }
}

/// What follows an optional leading plus sign.
pub open spec fn unsigned_part(s: Seq<char>) -> Seq<char> {
    if s.len() > 0 && s[0] == '+' {
        s.skip(1)
    } else {
        s
    }
}

/// Whether every character of `s` is a digit.
pub open spec fn all_digits(s: Seq<char>) -> bool {
    forall|i: int| 0 <= i < s.len() ==> is_digit(#[trigger] s[i])
}

/// Why a name does not name a peer.
#[derive(Clone, Copy, Debug, PartialEq, Eq)]
pub enum PeerIdError {
    /// The name is empty.
    Empty,
    /// There is no digit, or something that is not a digit.
    InvalidDigit,
    /// The number is too large for a peer id.
    TooLarge,
}

/// Whether the digits at the beginning of `s` stand for a number that is too large
/// for a peer id.
pub open spec fn begins_too_large(s: Seq<char>) -> bool {
    exists|i: int|
        0 <= i <= s.len() && all_digits(#[trigger] s.take(i)) && decimal_value(s.take(i)) > u32::MAX
}

/// The peer id that `s` names: an optional plus sign and at least one digit,
/// whose value fits a peer id. Of what is wrong with a name, the first counts.
pub open spec fn peer_id_named(s: Seq<char>) -> Result<PeerId, PeerIdError> {
    let digits = unsigned_part(s);
    if s.len() == 0 {
        Err(PeerIdError::Empty)
    } else if begins_too_large(digits) {
        Err(PeerIdError::TooLarge)
    } else if digits.len() == 0 || !all_digits(digits) {
        Err(PeerIdError::InvalidDigit)
    } else {
        Ok(decimal_value(digits) as u32)
    }
}

/// The digit that stands for `n`.
pub open spec fn digit_char(n: nat) -> char {
    ('0' as int + n as int) as char
}

/// `n` in decimal, without leading zeros.
pub open spec fn decimal_digits(n: nat) -> Seq<char>
    decreases n,
{
    if n < 10 {
        seq![digit_char(n)]
    } else {
        decimal_digits(n / 10).push(digit_char(n % 10))
    }
}

proof fn lemma_prefix_value(s: Seq<char>, i: int)
    requires
        0 <= i <= s.len(),
    ensures
        decimal_value(s.take(i)) <= decimal_value(s),
    decreases s.len(),
{
    if i < s.len() {
        lemma_prefix_value(s.drop_last(), i);
        assert(s.drop_last().take(i) =~= s.take(i));
    } else {
        assert(s.take(i) =~= s);
    }
}

/// Where the digits of `s` end at `n`, or `s` does, and stand for a number that is not
/// too large, there is no beginning that is.
proof fn lemma_not_too_large(s: Seq<char>, n: int)
    requires
        0 <= n <= s.len(),
        n < s.len() ==> !is_digit(s[n]),
        decimal_value(s.take(n)) <= u32::MAX,
    ensures
        !begins_too_large(s),
{
    assert forall|i: int|
        0 <= i <= s.len() && all_digits(#[trigger] s.take(i)) implies decimal_value(s.take(i))
        <= u32::MAX by {
        if i > n {
            assert(s.take(i)[n] == s[n]);
        }
        lemma_prefix_value(s.take(n), i);
        assert(s.take(n).take(i) =~= s.take(i));
    }
}

/// The peer whose name is `name`, if it names one.
pub fn parse_peer_id(name: &str) -> (result: Result<PeerId, PeerIdError>)
    ensures
        result == peer_id_named(name@),
{
    let len: usize = name.unicode_len();
    if len == 0 {
        return Err(PeerIdError::Empty);
    }
    let start: usize = if name.get_char(0) == '+' {
        1
    } else {
        0
    };
    let ghost digits = unsigned_part(name@);
    assert(digits =~= name@.skip(start as int));
    let mut value: u32 = 0;
    let mut i: usize = start;
    assert(digits.take(0) =~= Seq::<char>::empty());
    if start == len {
        proof {
            lemma_not_too_large(digits, 0);
        }
        return Err(PeerIdError::InvalidDigit);
    }
    while i < len
        invariant
            start <= i <= len,
            0 < len == name@.len(),
            digits == unsigned_part(name@),
            digits == name@.skip(start as int),
            forall|j: int| 0 <= j < i - start ==> is_digit(#[trigger] digits[j]),
            value == decimal_value(digits.take(i - start)),
        decreases len - i,
    {
        let c = name.get_char(i);
        assert(c == digits[i - start]);
        if c < '0' || c > '9' {
            proof {
                lemma_not_too_large(digits, i - start);
            }
            return Err(PeerIdError::InvalidDigit);
        }
        let digit: u32 = c as u32 - '0' as u32;
        let ghost next = digits.take(i - start + 1);
        assert(next.drop_last() =~= digits.take(i - start));
        let widened: u64 = value as u64 * 10 + digit as u64;
        assert(widened == decimal_value(next));
        if widened > u32::MAX as u64 {
            assert(all_digits(next));
            return Err(PeerIdError::TooLarge);
        }
        value = widened as u32;
        i += 1;
    }
    assert(digits.take(len - start) =~= digits);
    proof {
        lemma_not_too_large(digits, len - start);
    }
    Ok(value)
}

fn digit_str(n: u32) -> (s: &'static str)
    requires
        n < 10,
    ensures
        s@ == seq![digit_char(n as nat)],
{
    let s = match n {
        0 => "0",
        1 => "1",
        2 => "2",
        3 => "3",
        4 => "4",
        5 => "5",
        6 => "6",
        7 => "7",
        8 => "8",
        _ => "9",
    };
    proof {
        reveal_strlit("0");
        reveal_strlit("1");
        reveal_strlit("2");
        reveal_strlit("3");
        reveal_strlit("4");
        reveal_strlit("5");
        reveal_strlit("6");
        reveal_strlit("7");
        reveal_strlit("8");
        reveal_strlit("9");
    }
    assert(s@ =~= seq![digit_char(n as nat)]);
    s
}

/// The name under which the media server knows the peer: its id in decimal.
pub fn peer_identity(peer_id: PeerId) -> (name: String)
    ensures
        name@ == decimal_digits(peer_id as nat),
    decreases peer_id,
{
    if peer_id < 10 {
        digit_str(peer_id).to_owned()
    } else {
        let mut name = peer_identity(peer_id / 10);
        name.append(digit_str(peer_id % 10));
        assert(name@ =~= decimal_digits(peer_id as nat));
        name
    }
}

proof fn lemma_decimal_digits(n: nat)
    ensures
        decimal_digits(n).len() > 0,
        all_digits(decimal_digits(n)),
        decimal_value(decimal_digits(n)) == n,
    decreases n,
{
    reveal_with_fuel(decimal_value, 2);
    let s = decimal_digits(n);
    if n < 10 {
        assert(s.drop_last() =~= Seq::<char>::empty());
    } else {
        lemma_decimal_digits(n / 10);
        assert(s.drop_last() =~= decimal_digits(n / 10));
    }
}

/// The name of a peer names that peer and no other.
pub proof fn law_peer_identity_round_trip(peer_id: PeerId)
    ensures
        peer_id_named(decimal_digits(peer_id as nat)) == Ok::<PeerId, PeerIdError>(peer_id),
{
    let name = decimal_digits(peer_id as nat);
    lemma_decimal_digits(peer_id as nat);
    assert(is_digit(name[0]));
    assert(name.take(name.len() as int) =~= name);
    lemma_not_too_large(name, name.len() as int);
}

} // verus!
