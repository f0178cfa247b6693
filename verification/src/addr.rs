//! Plain-value forms of the addresses the router works with: virtual IP
//! addresses of either family, configured prefixes, and the hex-encoded
//! destination identifiers of the mesh transport.

use vstd::prelude::*;

verus! {

/// A virtual IP address of either family, held as an integer in network
/// (big-endian) byte order.
#[derive(Clone, Copy, Debug, PartialEq, Eq, Structural)]
pub enum Ip {
    V4(u32),
    V6(u128),
}

/// A virtual address together with its prefix length, exactly as the
/// configuration states it.
#[derive(Clone, Copy, Debug, PartialEq, Eq, Structural)]
pub struct Cidr {
    pub addr: Ip,
    pub prefix_len: u8,
}

/// Whether a byte is the ASCII code of a hexadecimal digit.
pub open spec fn is_hex_digit(b: u8) -> bool {
    (0x30 <= b && b <= 0x39) || (0x61 <= b && b <= 0x66) || (0x41 <= b && b <= 0x46)
}

/// The numeric value of one hexadecimal digit given by its ASCII code.
pub open spec fn hex_digit_value(b: u8) -> int {
    if 0x30 <= b && b <= 0x39 {
        b - 0x30
    } else if 0x61 <= b && b <= 0x66 {
        b - 0x57
    } else {
        b - 0x37
    }
}

/// The value of a big-endian string of hexadecimal digits.
pub open spec fn hex_value(s: Seq<u8>) -> int
    decreases s.len(),
{
    if s.len() == 0 {
        0
    } else {
        hex_value(s.drop_last()) * 16 + hex_digit_value(s.last())
    }
}

/// Sixteen to the given power.
pub open spec fn pow16(n: nat) -> int
    decreases n,
{
    if n == 0 {
        1
    } else {
        16 * pow16((n - 1) as nat)
    }
}

/// A destination identifier is well formed when it holds at least 32 bytes
/// and its first 32 bytes are hexadecimal digits; bytes past the 32nd are
/// ignored.
pub open spec fn valid_dest_hex(s: Seq<u8>) -> bool {
    s.len() >= 32 && forall|i: int| 0 <= i < 32 ==> is_hex_digit(#[trigger] s[i])
}

/// The destination identifier encoded by a well-formed hex string: the
/// value of its first 32 digits.
pub open spec fn dest_hex_value(s: Seq<u8>) -> int {
    hex_value(s.subrange(0, 32))
}

pub proof fn lemma_pow16_pos(n: nat)
    ensures
        pow16(n) >= 1,
    decreases n,
{
    if n > 0 {
        lemma_pow16_pos((n - 1) as nat);
    }
}

pub proof fn lemma_pow16_increases(m: nat, n: nat)
    requires
        m <= n,
    ensures
        pow16(m) <= pow16(n),
    decreases n,
{
    if m < n {
        lemma_pow16_increases(m, (n - 1) as nat);
        lemma_pow16_pos((n - 1) as nat);
    }
}

/// The value of a string of hexadecimal digits is bounded by sixteen to
/// its length.
pub proof fn lemma_hex_value_bound(s: Seq<u8>)
    requires
        forall|i: int| 0 <= i < s.len() ==> is_hex_digit(#[trigger] s[i]),
    ensures
        0 <= hex_value(s) < pow16(s.len() as nat),
    decreases s.len(),
{
    if s.len() > 0 {
        lemma_hex_value_bound(s.drop_last());
        assert(is_hex_digit(s.last()));
        assert(0 <= hex_digit_value(s.last()) < 16);
    }
}

/// The value of one hexadecimal digit byte, or `None` where the byte is
/// not a hexadecimal digit.
fn hex_nibble(b: u8) -> (r: Option<u8>)
    ensures
        r is Some <==> is_hex_digit(b),
        is_hex_digit(b) ==> r == Some(hex_digit_value(b) as u8),
{
    if 0x30 <= b && b <= 0x39 {
        Some(b - 0x30)
    } else if 0x61 <= b && b <= 0x66 {
        Some(b - 0x57)
    } else if 0x41 <= b && b <= 0x46 {
        Some(b - 0x37)
    } else {
        None
    }
}

/// Parse a hex-encoded destination identifier: succeeds exactly on the
/// well-formed strings and returns the value of the first 32 digits.
pub fn parse_dest_hex(s: &Vec<u8>) -> (r: Option<u128>)
    ensures
        r is Some <==> valid_dest_hex(s@),
        valid_dest_hex(s@) ==> r == Some(dest_hex_value(s@) as u128),
{
    if s.len() < 32 {
        return None;
    }
    let mut acc: u128 = 0;
    let mut i: usize = 0;
    while i < 32
        invariant
            i <= 32,
            s@.len() >= 32,
            forall|j: int| 0 <= j < i ==> is_hex_digit(#[trigger] s@[j]),
            acc == hex_value(s@.subrange(0, i as int)),
        decreases 32 - i,
    {
        let b = s[i];
        match hex_nibble(b) {
            None => {
                return None;
            },
            Some(hv) => {
                proof {
                    let prefix = s@.subrange(0, i as int);
                    lemma_hex_value_bound(prefix);
                    assert(pow16((i + 1) as nat) == 16 * pow16(i as nat));
                    lemma_pow16_increases((i + 1) as nat, 32);
                    assert(pow16(32) == 0x1_0000_0000_0000_0000_0000_0000_0000_0000int) by {
                        reveal_with_fuel(pow16, 33);
                    }
                }
                let next: u128 = acc * 16 + hv as u128;
                proof {
                    assert(s@.subrange(0, i as int + 1).drop_last() =~= s@.subrange(0, i as int));
                    assert(s@.subrange(0, i as int + 1).last() == s@[i as int]);
                }
                acc = next;
                i = i + 1;
            },
        }
    }
    proof {
        assert(s@.subrange(0, 32) =~= s@.subrange(0, i as int));
    }
    Some(acc)
}

} // verus!
