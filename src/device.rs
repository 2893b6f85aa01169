use vstd::prelude::*;
use vstd::string::StringSliceAdditionalSpecFns;

verus! {

/// Identity of a device; the key under which its session is registered.
pub type DeviceID = u128;

/// Number of hexadecimal digits in the text form of a device identity.
pub const DEVICE_ID_DIGITS: usize = 32;

/// The value of an ASCII hexadecimal digit, either case.
pub open spec fn hex_digit(b: u8) -> Option<nat> {
    if 48 <= b <= 57 {
        Some((b - 48) as nat)
    } else if 97 <= b <= 102 {
        Some((b - 87) as nat)
    } else if 65 <= b <= 70 {
        Some((b - 55) as nat)
    } else {
        None
    }
}

/// Whether every byte is a hexadecimal digit.
pub open spec fn all_hex(s: Seq<u8>) -> bool {
    forall|i: int| 0 <= i < s.len() ==> (#[trigger] hex_digit(s[i])) is Some
}

/// The number that hexadecimal digits `s` spell, most significant first.
pub open spec fn hex_value(s: Seq<u8>) -> nat
    decreases s.len(),
{
    if s.len() == 0 {
        0
    } else {
        hex_value(s.drop_last()) * 16 + hex_digit(s.last()).unwrap_or(0)
    }
}

/// `16` to the power `n`.
pub open spec fn pow16(n: nat) -> nat
    decreases n,
{
    if n == 0 {
        1
    } else {
        16 * pow16((n - 1) as nat)
    }
}

proof fn lemma_hex_value_bound(s: Seq<u8>)
    ensures
        hex_value(s) < pow16(s.len()),
    decreases s.len(),
{
    if s.len() > 0 {
        lemma_hex_value_bound(s.drop_last());
        let v = hex_value(s.drop_last());
        let p = pow16(s.drop_last().len());
        let d = hex_digit(s.last()).unwrap_or(0);
        assert(d < 16);
        assert(v * 16 + d < p * 16) by (nonlinear_arith)
            requires
                v < p,
                d < 16,
        ;
    }
}

proof fn lemma_pow16_32()
    ensures
        pow16(32) == 0x1_0000_0000_0000_0000_0000_0000_0000_0000,
{
    reveal_with_fuel(pow16, 33);
}

/// Reads a device identity from its text form: exactly 32 hexadecimal digits,
/// most significant first, in either case. Any other text is no identity.
pub fn parse_device_id(text: &str) -> (r: Option<DeviceID>)
    ensures
        r is Some <==> text.spec_bytes().len() == DEVICE_ID_DIGITS && all_hex(text.spec_bytes()),
        r is Some ==> r->0 == hex_value(text.spec_bytes()),
{
    let bytes = text.as_bytes();
    if bytes.len() != DEVICE_ID_DIGITS {
        return None;
    }
    let mut value: u128 = 0;
    let mut i: usize = 0;
    while i < bytes.len()
        invariant
            bytes@ == text.spec_bytes(),
            bytes@.len() == DEVICE_ID_DIGITS,
            0 <= i <= bytes@.len(),
            all_hex(bytes@.subrange(0, i as int)),
            value == hex_value(bytes@.subrange(0, i as int)),
        decreases bytes@.len() - i,
    {
        let b = bytes[i];
        let d: u128 = if 48 <= b && b <= 57 {
            (b - 48) as u128
        } else if 97 <= b && b <= 102 {
            (b - 87) as u128
        } else if 65 <= b && b <= 70 {
            (b - 55) as u128
        } else {
            proof {
                assert(hex_digit(bytes@[i as int]) is None);
            }
            return None;
        };
        let ghost next = bytes@.subrange(0, i + 1);
        proof {
            assert(next.drop_last() =~= bytes@.subrange(0, i as int));
            assert(next.last() == b);
            lemma_hex_value_bound(next);
            lemma_pow16_32();
            assert(pow16(next.len()) <= pow16(32)) by {
                lemma_pow16_monotone(next.len(), 32);
            }
            assert forall|j: int| 0 <= j < next.len() implies (#[trigger] hex_digit(next[j])) is Some by {
                if j < i {
                    assert(next[j] == bytes@.subrange(0, i as int)[j]);
                }
            }
        }
        value = value * 16 + d;
        i = i + 1;
    }
    proof {
        assert(bytes@.subrange(0, i as int) =~= bytes@);
    }
    Some(value)
}

proof fn lemma_pow16_monotone(a: nat, b: nat)
    requires
        a <= b,
    ensures
        pow16(a) <= pow16(b),
    decreases b - a,
{
    if a < b {
        lemma_pow16_monotone(a, (b - 1) as nat);
    }
}

} // verus!
