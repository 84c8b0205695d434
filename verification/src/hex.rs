//! Hexadecimal numerals as the fastboot wire format uses them: the 8-digit
//! length argument of the `download:` command, and the size carried by a
//! `DATA` reply.

use vstd::prelude::*;

verus! {

/// Numeric value of one ASCII hex digit, upper or lower case.
pub open spec fn hex_digit_value(b: u8) -> Option<u8> {
    if 0x30 <= b && b <= 0x39 {
        Some((b - 0x30) as u8)
    } else if 0x61 <= b && b <= 0x66 {
        Some((b - 0x61 + 10) as u8)
    } else if 0x41 <= b && b <= 0x46 {
        Some((b - 0x41 + 10) as u8)
    } else {
        None
    }
}

/// Value of `s` read as further big-endian hex digits of a numeral whose
/// leading digits are already worth `acc`; `None` if some byte is no digit.
pub open spec fn hex_value_from(s: Seq<u8>, acc: nat) -> Option<nat>
    decreases s.len(),
{
    if s.len() == 0 {
        Some(acc)
    } else {
        match hex_digit_value(s[0]) {
            Some(d) => hex_value_from(s.drop_first(), (acc * 16 + d) as nat),
            None => None,
        }
    }
}

/// Value of a whole hex numeral; an empty string is no numeral.
pub open spec fn hex_value(s: Seq<u8>) -> Option<nat> {
    if s.len() == 0 {
        None
    } else {
        hex_value_from(s, 0)
    }
}

/// Appending digits never shrinks the value already accumulated.
proof fn lemma_hex_value_from_lower_bound(s: Seq<u8>, acc: nat)
    ensures
        hex_value_from(s, acc) matches Some(v) ==> v >= acc,
    decreases s.len(),
{
    if s.len() > 0 {
        match hex_digit_value(s[0]) {
            Some(d) => {
                lemma_hex_value_from_lower_bound(s.drop_first(), (acc * 16 + d) as nat);
            },
            None => {},
        }
    }
}

/// Numeric value of one ASCII hex digit, upper or lower case.
pub fn hex_digit(b: u8) -> (r: Option<u8>)
    ensures
        r == hex_digit_value(b),
{
    if 0x30 <= b && b <= 0x39 {
        Some(b - 0x30)
    } else if 0x61 <= b && b <= 0x66 {
        Some(b - 0x61 + 10)
    } else if 0x41 <= b && b <= 0x46 {
        Some(b - 0x41 + 10)
    } else {
        None
    }
}

/// Reads `s` as a hex numeral. `None` when `s` is empty, holds a byte that is
/// no hex digit, or names a value that does not fit in `usize`.
pub fn parse_hex(s: &[u8]) -> (r: Option<usize>)
    ensures
        ({
            let hv = hex_value(s@);
            match hv {
                Some(v) => r == (if v <= usize::MAX {
                    Some(v as usize)
                } else {
                    None::<usize>
                }),
                None => r is None,
            }
        }),
{
    let n = s.len();
    if n == 0 {
        return None;
    }
    let mut i: usize = 0;
    let mut acc: usize = 0;
    proof {
        assert(s@.skip(0) =~= s@);
    }
    while i < n
        invariant
            0 < n == s@.len(),
            i <= n,
            hex_value_from(s@.skip(i as int), acc as nat) == hex_value_from(s@, 0),
        decreases n - i,
    {
        proof {
            assert(s@.skip(i as int)[0] == s@[i as int]);
        }
        match hex_digit(s[i]) {
            None => {
                return None;
            },
            Some(d) => {
                proof {
                    assert(s@.skip(i as int).drop_first() =~= s@.skip(i as int + 1));
                }
                if acc > (usize::MAX - d as usize) / 16 {
                    proof {
                        let m = (usize::MAX - d) as nat;
                        assert(16 * (m / 16) + 16 > m) by (nonlinear_arith);
                        assert(acc as nat * 16 >= (m / 16 + 1) * 16) by (nonlinear_arith)
                            requires
                                acc as nat >= m / 16 + 1,
                        ;
                        assert(acc as nat * 16 + d > usize::MAX);
                        lemma_hex_value_from_lower_bound(
                            s@.skip(i as int + 1),
                            acc as nat * 16 + d as nat,
                        );
                    }
                    return None;
                }
                acc = acc * 16 + d as usize;
                i = i + 1;
            },
        }
    }
    proof {
        assert(s@.skip(n as int) =~= Seq::<u8>::empty());
    }
    Some(acc)
}

/// One lowercase hex digit for a value below 16.
pub open spec fn hex_digit_char(d: nat) -> u8
    recommends
        d < 16,
{
    if d < 10 {
        (0x30 + d) as u8
    } else {
        (0x61 + (d - 10)) as u8
    }
}

/// The last `k` hex digits of `n`, lowercase, most significant first.
pub open spec fn hex_digits(n: nat, k: nat) -> Seq<u8>
    decreases k,
{
    if k == 0 {
        Seq::empty()
    } else {
        hex_digits(n / 16, (k - 1) as nat).push(hex_digit_char(n % 16))
    }
}

/// The 8-digit, zero-padded, lowercase hex numeral of `n`.
pub open spec fn hex8(n: u32) -> Seq<u8> {
    hex_digits(n as nat, 8)
}

/// One lowercase hex digit for a value below 16.
fn hex_digit_byte(d: u8) -> (r: u8)
    requires
        d < 16,
    ensures
        r == hex_digit_char(d as nat),
{
    if d < 10 {
        0x30 + d
    } else {
        0x61 + (d - 10)
    }
}

/// The last `k` hex digits of `n`, lowercase, most significant first.
fn encode_hex_digits(n: u32, k: usize) -> (r: Vec<u8>)
    ensures
        r@ == hex_digits(n as nat, k as nat),
    decreases k,
{
    if k == 0 {
        Vec::new()
    } else {
        let mut r = encode_hex_digits(n / 16, k - 1);
        let d: u8 = (n % 16) as u8;
        r.push(hex_digit_byte(d));
        r
    }
}

/// Writes `n` as exactly eight lowercase hex digits, zero padded.
pub fn encode_hex8(n: u32) -> (r: Vec<u8>)
    ensures
        r@ == hex8(n),
{
    encode_hex_digits(n, 8)
}

} // verus!
