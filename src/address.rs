//! 48-bit Bluetooth device addresses and their colon-hex text form.
use vstd::prelude::*;

use crate::text::{hex_digit, hex_digit_value, is_hex_digit, push_char, upper_hex_char, upper_hex_digit};

verus! {

/// A Bluetooth device address, held as an unsigned integer. Its order is the
/// numeric order of that integer.
#[derive(Clone, Copy, Debug, PartialEq, Eq, Structural, PartialOrd, Ord, Hash)]
pub struct BluetoothAddress(pub u64);

/// Why a string is not an address.
#[derive(Clone, Copy, Debug, PartialEq, Eq, Structural)]
pub enum AddressParseError {
    /// The string does not have the 17 characters of six octets and five colons.
    Length,
    /// The string has the right length, but some octet is not two hex digits or
    /// some separator is not a colon.
    Octet,
}

/// Number of characters of an address in text form.
pub const ADDRESS_TEXT_LEN: usize = 17;

/// Character `i` of an address text is a separator.
pub open spec fn is_separator_pos(i: int) -> bool {
    i % 3 == 2
}

/// `s` is six colon-separated two-digit hex octets (digits of either case).
pub open spec fn is_address_text(s: Seq<char>) -> bool {
    &&& s.len() == 17
    &&& forall|i: int|
        0 <= i < 17 ==> if is_separator_pos(i) {
            s[i] == ':'
        } else {
            is_hex_digit(#[trigger] s[i])
        }
}

/// `s` is an address text whose digits are all upper case: the canonical form.
pub open spec fn is_canonical_address_text(s: Seq<char>) -> bool {
    &&& is_address_text(s)
    &&& forall|i: int| 0 <= i < 17 && !is_separator_pos(i) ==> upper_hex_char(hex_digit_value(#[trigger] s[i])) == s[i]
}

/// Value of octet `k` (0 is the most significant) written in `s`.
pub open spec fn text_octet(s: Seq<char>, k: int) -> u64 {
    (hex_digit_value(s[3 * k]) * 16 + hex_digit_value(s[3 * k + 1])) as u64
}

/// The number whose octets are the first `k` octets written in `s`.
pub open spec fn text_prefix_value(s: Seq<char>, k: nat) -> u64
    decreases k,
{
    if k == 0 {
        0
    } else {
        (text_prefix_value(s, (k - 1) as nat) << 8u64) | text_octet(s, k - 1)
    }
}

/// The address that an address text denotes.
pub open spec fn text_value(s: Seq<char>) -> u64 {
    text_prefix_value(s, 6)
}

/// Octet `k` (0 is the most significant of six) of `n`.
pub open spec fn octet(n: u64, k: int) -> u64 {
    (n >> (8 * (5 - k)) as u64) & 0xffu64
}

/// The two upper-case hex digits of an octet.
pub open spec fn octet_text(b: u64) -> Seq<char> {
    seq![upper_hex_char((b / 16) as int), upper_hex_char((b % 16) as int)]
}

/// Canonical text of the low 48 bits of `n`.
pub open spec fn address_text(n: u64) -> Seq<char> {
    octet_text(octet(n, 0)) + seq![':'] + octet_text(octet(n, 1)) + seq![':'] + octet_text(
        octet(n, 2),
    ) + seq![':'] + octet_text(octet(n, 3)) + seq![':'] + octet_text(octet(n, 4)) + seq![':']
        + octet_text(octet(n, 5))
}

impl BluetoothAddress {
    pub fn from(n: u64) -> (r: BluetoothAddress)
        ensures
            r.0 == n,
    {
        BluetoothAddress(n)
    }

    /// Parses six colon-separated two-digit hex octets, most significant first.
    pub fn parse_str(s: &str) -> (r: Result<BluetoothAddress, AddressParseError>)
        ensures
            s@.len() != 17 <==> r == Err::<BluetoothAddress, _>(AddressParseError::Length),
            (s@.len() == 17 && !is_address_text(s@)) <==> r == Err::<BluetoothAddress, _>(
                AddressParseError::Octet,
            ),
            is_address_text(s@) <==> r is Ok,
            r is Ok ==> r->Ok_0.0 == text_value(s@),
    {
        let n = s.unicode_len();
        if n != ADDRESS_TEXT_LEN {
            return Err(AddressParseError::Length);
        }
        let mut value: u64 = 0;
        let mut k: usize = 0;
        while k < 6
            invariant
                s@.len() == 17,
                k <= 6,
                value == text_prefix_value(s@, k as nat),
                forall|i: int| 0 <= i < 3 * k && i < 17 ==> if is_separator_pos(i) {
                    s@[i] == ':'
                } else {
                    is_hex_digit(#[trigger] s@[i])
                },
            decreases 6 - k,
        {
            let hi = hex_digit(s.get_char(3 * k));
            let lo = hex_digit(s.get_char(3 * k + 1));
            let sep_ok = k == 5 || s.get_char(3 * k + 2) == ':';
            match (hi, lo) {
                (Some(h), Some(l)) if sep_ok => {
                    let b: u64 = (h as u64) * 16 + (l as u64);
                    assert(b == text_octet(s@, k as int));
                    value = (value << 8u64) | b;
                    k = k + 1;
                },
                _ => {
                    proof {
                        if hi is None {
                            assert(!is_hex_digit(s@[3 * k as int]));
                        } else if lo is None {
                            assert(!is_hex_digit(s@[3 * k as int + 1]));
                        } else {
                            assert(s@[3 * k as int + 2] != ':');
                        }
                    }
                    return Err(AddressParseError::Octet);
                },
            }
        }
        Ok(BluetoothAddress(value))
    }

    pub fn as_u64(self) -> (r: u64)
        ensures
            r == self.0,
    {
        self.0
    }

    /// Canonical text: six upper-case colon-separated octets of the low 48 bits.
    pub fn to_string(&self) -> (r: String)
        ensures
            r@ == address_text(self.0),
    {
        let n = self.0;
        let mut out = String::new();
        let mut k: usize = 0;
        while k < 6
            invariant
                k <= 6,
                n == self.0,
                out@ == address_text_prefix(n, k as int),
            decreases 6 - k,
        {
            let shift: u64 = (8 * (5 - k)) as u64;
            let b: u64 = (n >> shift) & 0xff;
            assert(b == octet(n, k as int));
            assert(b <= 0xff) by (bit_vector)
                requires
                    b == (n >> shift) & 0xff,
            ;
            if k > 0 {
                push_char(&mut out, ':');
            }
            push_char(&mut out, upper_hex_digit((b / 16) as u8));
            push_char(&mut out, upper_hex_digit((b % 16) as u8));
            assert(out@ =~= address_text_prefix(n, k + 1));
            k = k + 1;
        }
        proof {
            reveal_with_fuel(address_text_prefix, 7);
        }
        assert(out@ =~= address_text(n));
        out
    }
}

/// The canonical text of the first `k` octets of `n`, with separators between them.
pub open spec fn address_text_prefix(n: u64, k: int) -> Seq<char>
    decreases k,
{
    if k <= 0 {
        seq![]
    } else if k == 1 {
        octet_text(octet(n, 0))
    } else {
        address_text_prefix(n, k - 1) + seq![':'] + octet_text(octet(n, k - 1))
    }
}

proof fn lemma_octets_of_composed(p: Seq<u64>, v1: u64, v2: u64, v3: u64, v4: u64, v5: u64, v: u64)
    requires
        p.len() == 6,
        forall|k: int| 0 <= k < 6 ==> p[k] < 256,
        v1 == (0u64 << 8u64) | p[0],
        v2 == (v1 << 8u64) | p[1],
        v3 == (v2 << 8u64) | p[2],
        v4 == (v3 << 8u64) | p[3],
        v5 == (v4 << 8u64) | p[4],
        v == (v5 << 8u64) | p[5],
    ensures
        (v >> 40u64) & 0xffu64 == p[0],
        (v >> 32u64) & 0xffu64 == p[1],
        (v >> 24u64) & 0xffu64 == p[2],
        (v >> 16u64) & 0xffu64 == p[3],
        (v >> 8u64) & 0xffu64 == p[4],
        (v >> 0u64) & 0xffu64 == p[5],
{
    let (o0, o1, o2, o3, o4, o5) = (p[0], p[1], p[2], p[3], p[4], p[5]);
    assert(o0 < 256 && o1 < 256 && o2 < 256 && o3 < 256 && o4 < 256 && o5 < 256);
    assert((v >> 40u64) & 0xffu64 == o0 && (v >> 32u64) & 0xffu64 == o1 && (v >> 24u64) & 0xffu64
        == o2 && (v >> 16u64) & 0xffu64 == o3 && (v >> 8u64) & 0xffu64 == o4 && (v >> 0u64)
        & 0xffu64 == o5) by (bit_vector)
        requires
            o0 < 256 && o1 < 256 && o2 < 256 && o3 < 256 && o4 < 256 && o5 < 256,
            v1 == (0u64 << 8u64) | o0,
            v2 == (v1 << 8u64) | o1,
            v3 == (v2 << 8u64) | o2,
            v4 == (v3 << 8u64) | o3,
            v5 == (v4 << 8u64) | o4,
            v == (v5 << 8u64) | o5,
    ;
}

/// Octet `k` of the address that `s` denotes is the octet written at place `k` of `s`.
proof fn lemma_text_value_octets(s: Seq<char>)
    requires
        is_address_text(s),
    ensures
        forall|k: int| 0 <= k < 6 ==> #[trigger] octet(text_value(s), k) == text_octet(s, k),
        forall|k: int| 0 <= k < 6 ==> #[trigger] text_octet(s, k) < 256,
{
    assert forall|k: int| 0 <= k < 6 implies #[trigger] text_octet(s, k) < 256 by {
        assert(is_hex_digit(s[3 * k]));
        assert(is_hex_digit(s[3 * k + 1]));
    }
    reveal_with_fuel(text_prefix_value, 7);
    let p = seq![
        text_octet(s, 0),
        text_octet(s, 1),
        text_octet(s, 2),
        text_octet(s, 3),
        text_octet(s, 4),
        text_octet(s, 5),
    ];
    lemma_octets_of_composed(
        p,
        text_prefix_value(s, 1),
        text_prefix_value(s, 2),
        text_prefix_value(s, 3),
        text_prefix_value(s, 4),
        text_prefix_value(s, 5),
        text_value(s),
    );
    assert(octet(text_value(s), 0) == text_octet(s, 0));
    assert(octet(text_value(s), 1) == text_octet(s, 1));
    assert(octet(text_value(s), 2) == text_octet(s, 2));
    assert(octet(text_value(s), 3) == text_octet(s, 3));
    assert(octet(text_value(s), 4) == text_octet(s, 4));
    assert(octet(text_value(s), 5) == text_octet(s, 5));
}

/// Parsing a canonical address text and formatting the result gives back the
/// same text.
pub proof fn lemma_parse_format_round_trip(s: Seq<char>)
    requires
        is_canonical_address_text(s),
    ensures
        is_address_text(s),
        address_text(text_value(s)) == s,
{
    lemma_text_value_octets(s);
    let v = text_value(s);
    assert forall|k: int| 0 <= k < 6 implies #[trigger] octet_text(octet(v, k)) == s.subrange(
        3 * k,
        3 * k + 2,
    ) by {
        let hi = s[3 * k];
        let lo = s[3 * k + 1];
        assert(is_hex_digit(hi) && is_hex_digit(lo));
        assert(upper_hex_char(hex_digit_value(hi)) == hi);
        assert(upper_hex_char(hex_digit_value(lo)) == lo);
        assert(octet(v, k) == text_octet(s, k));
        assert(octet(v, k) / 16 == hex_digit_value(hi));
        assert(octet(v, k) % 16 == hex_digit_value(lo));
        assert(octet_text(octet(v, k)) =~= s.subrange(3 * k, 3 * k + 2));
    }
    assert(octet_text(octet(v, 0)) == s.subrange(0, 2));
    assert(octet_text(octet(v, 1)) == s.subrange(3, 5));
    assert(octet_text(octet(v, 2)) == s.subrange(6, 8));
    assert(octet_text(octet(v, 3)) == s.subrange(9, 11));
    assert(octet_text(octet(v, 4)) == s.subrange(12, 14));
    assert(octet_text(octet(v, 5)) == s.subrange(15, 17));
    assert(s[2] == ':' && s[5] == ':' && s[8] == ':' && s[11] == ':' && s[14] == ':');
    assert(address_text(v) =~= s);
}

/// The canonical text of an address holds only hex digits and colons, so never
/// a NUL character.
pub proof fn lemma_address_text_has_no_nul(n: u64)
    ensures
        !address_text(n).contains('\0'),
{
    let t = address_text(n);
    assert forall|k: int| 0 <= k < 6 implies #[trigger] octet(n, k) <= 255 by {
        let s = (8 * (5 - k)) as u64;
        let x = n >> s;
        assert(x & 0xffu64 <= 0xffu64) by (bit_vector);
    }
    assert forall|i: int| 0 <= i < t.len() implies t[i] != '\0' by {
        let k = i / 3;
        assert(octet(n, k) <= 255);
    }
}

impl std::str::FromStr for BluetoothAddress {
    type Err = AddressParseError;

    fn from_str(s: &str) -> Result<BluetoothAddress, AddressParseError> {
        BluetoothAddress::parse_str(s)
    }
}

} // verus!
