//! Hex encoding of digests, their binary expansion, and the difficulty
//! predicate that the proof-of-work puzzle is about.
use vstd::prelude::*;

verus! {

/// The lowercase hex digit for a value below 16.
pub open spec fn hex_digit(v: u8) -> char
    recommends
        v < 16,
{
    if v < 10 {
        ((v + 48) as u8) as char
    } else {
        ((v + 87) as u8) as char
    }
}

/// Whether a character is a hex digit (either case).
pub open spec fn is_hex_char(c: char) -> bool {
    (48 <= c as u32 && c as u32 <= 57) || (97 <= c as u32 && c as u32 <= 102) || (65 <= c as u32
        && c as u32 <= 70)
}

/// The value of a hex digit character.
pub open spec fn hex_char_val(c: char) -> u8
    recommends
        is_hex_char(c),
{
    if 48 <= c as u32 && c as u32 <= 57 {
        (c as u32 - 48) as u8
    } else if 97 <= c as u32 && c as u32 <= 102 {
        (c as u32 - 87) as u8
    } else {
        (c as u32 - 55) as u8
    }
}

/// A well-formed hex string: even length, hex digits throughout.
pub open spec fn valid_hex(s: Seq<char>) -> bool {
    s.len() % 2 == 0 && forall|i: int| 0 <= i < s.len() ==> is_hex_char(#[trigger] s[i])
}

/// The hex encoding of a byte sequence: two lowercase digits per byte, high
/// nibble first.
pub open spec fn hex_of(bytes: Seq<u8>) -> Seq<char> {
    Seq::new(
        2 * bytes.len(),
        |i: int|
            if i % 2 == 0 {
                hex_digit(bytes[i / 2] >> 4)
            } else {
                hex_digit(bytes[i / 2] & 0x0f)
            },
    )
}

/// The bytes denoted by a well-formed hex string.
pub open spec fn hex_bytes(s: Seq<char>) -> Seq<u8>
    recommends
        valid_hex(s),
{
    Seq::new(
        s.len() / 2,
        |i: int| (hex_char_val(s[2 * i]) * 16 + hex_char_val(s[2 * i + 1])) as u8,
    )
}

/// The eight binary digit characters of one byte, most significant first.
pub open spec fn byte_bits(b: u8) -> Seq<char> {
    Seq::new(
        8,
        |i: int|
            if (b >> (7 - i) as u8) & 1 == 1 {
                '1'
            } else {
                '0'
            },
    )
}

/// The binary expansion of a byte sequence: eight characters per byte, so a
/// 32-byte digest yields a 256-character string of '0' and '1'.
pub open spec fn binary_of(bytes: Seq<u8>) -> Seq<char> {
    Seq::new(8 * bytes.len(), |i: int| byte_bits(bytes[i / 8])[i % 8])
}

/// The difficulty predicate: the first `n` characters exist and are all '0'.
pub open spec fn zero_prefix(s: Seq<char>, n: nat) -> bool {
    n <= s.len() && forall|i: int| 0 <= i < n ==> #[trigger] s[i] == '0'
}

proof fn lemma_byte_nibbles(x: u8)
    ensures
        x >> 4 < 16,
        x & 0x0f < 16,
        x == (x >> 4) * 16 + (x & 0x0f),
{
    assert(x >> 4 < 16) by (bit_vector);
    assert(x & 0x0f < 16) by (bit_vector);
    assert(x == (x >> 4) * 16 + (x & 0x0f)) by (bit_vector);
}

/// A hex digit character is well formed and decodes back to its value.
proof fn lemma_hex_digit_val(v: u8)
    requires
        v < 16,
    ensures
        is_hex_char(hex_digit(v)),
        hex_char_val(hex_digit(v)) == v,
{
}

/// Hex encoding always yields a well-formed hex string.
pub proof fn lemma_hex_of_valid(bytes: Seq<u8>)
    ensures
        valid_hex(hex_of(bytes)),
        hex_of(bytes).len() == 2 * bytes.len(),
{
    assert forall|i: int| 0 <= i < hex_of(bytes).len() implies is_hex_char(
        #[trigger] hex_of(bytes)[i],
    ) by {
        lemma_byte_nibbles(bytes[i / 2]);
        lemma_hex_digit_val(bytes[i / 2] >> 4);
        lemma_hex_digit_val(bytes[i / 2] & 0x0f);
    }
}

/// Decoding inverts encoding: the bytes come back unchanged.
pub proof fn lemma_hex_round_trip(bytes: Seq<u8>)
    ensures
        hex_bytes(hex_of(bytes)) == bytes,
{
    let s = hex_of(bytes);
    assert forall|i: int| 0 <= i < bytes.len() implies #[trigger] hex_bytes(s)[i] == bytes[i] by {
        lemma_byte_nibbles(bytes[i]);
        lemma_hex_digit_val(bytes[i] >> 4);
        lemma_hex_digit_val(bytes[i] & 0x0f);
        assert(s[2 * i] == hex_digit(bytes[i] >> 4));
        assert(s[2 * i + 1] == hex_digit(bytes[i] & 0x0f));
    }
    assert(hex_bytes(s) =~= bytes);
}

/// Distinct byte sequences have distinct hex encodings.
pub proof fn lemma_hex_of_injective(a: Seq<u8>, b: Seq<u8>)
    requires
        hex_of(a) == hex_of(b),
    ensures
        a == b,
{
    lemma_hex_round_trip(a);
    lemma_hex_round_trip(b);
}

/// Difficulty is monotone: a digest that clears a longer all-zero prefix
/// clears every shorter one, so raising the difficulty only ever shrinks the
/// set of acceptable digests.
pub proof fn lemma_zero_prefix_monotonic(s: Seq<char>, m: nat, n: nat)
    requires
        m <= n,
        zero_prefix(s, n),
    ensures
        zero_prefix(s, m),
{
}

/// Relies on `hex::encode`: two lowercase hex digits per byte, high nibble
/// first.
#[verifier::external_body]
pub(crate) fn to_hex(bytes: &Vec<u8>) -> (r: String)
    ensures
        r@ == hex_of(bytes@),
{
    hex::encode(bytes)
}

/// Relies on `hex::decode`: it succeeds exactly on even-length strings of hex
/// digits (either case) and returns the denoted bytes.
#[verifier::external_body]
pub(crate) fn from_hex(s: &str) -> (r: Option<Vec<u8>>)
    ensures
        r is Some <==> valid_hex(s@),
        r matches Some(v) ==> v@ == hex_bytes(s@),
{
    match hex::decode(s) {
        Ok(v) => Some(v),
        Err(_) => None,
    }
}

/// The binary expansion of a digest, as characters.
pub(crate) fn hash_bits(hash: &Vec<u8>) -> (r: Vec<char>)
    ensures
        r@ == binary_of(hash@),
{
    let mut out: Vec<char> = Vec::new();
    let mut i: usize = 0;
    while i < hash.len()
        invariant
            i <= hash@.len(),
            out@.len() == 8 * i,
            forall|k: int| 0 <= k < out@.len() ==> #[trigger] out@[k] == binary_of(hash@)[k],
        decreases hash@.len() - i,
    {
        let b = hash[i];
        let mut j: usize = 0;
        while j < 8
            invariant
                j <= 8,
                i < hash@.len(),
                b == hash@[i as int],
                out@.len() == 8 * i + j,
                forall|k: int| 0 <= k < out@.len() ==> #[trigger] out@[k] == binary_of(hash@)[k],
            decreases 8 - j,
        {
            let sh: u8 = (7 - j) as u8;
            let c: char = if (b >> sh) & 1 == 1 {
                '1'
            } else {
                '0'
            };
            out.push(c);
            proof {
                let k = 8 * i + j;
                assert(k / 8 == i as int && k % 8 == j as int) by (nonlinear_arith)
                    requires
                        0 <= j < 8,
                        0 <= i,
                        k == 8 * i + j,
                ;
                assert(binary_of(hash@)[k] == byte_bits(b)[j as int]);
            }
            j = j + 1;
        }
        i = i + 1;
    }
    assert(out@ =~= binary_of(hash@));
    out
}

/// The binary expansion of a digest, rendered as a string of '0' and '1'.
pub fn hash_to_binary_representation(hash: &Vec<u8>) -> (r: String)
    ensures
        r@ == binary_of(hash@),
{
    let bits = hash_bits(hash);
    crate::text::chars_to_string(&bits)
}

/// Whether a digest clears the difficulty: its binary expansion starts with
/// `bits` many '0' characters.
pub fn meets_difficulty(hash: &Vec<u8>, bits: usize) -> (r: bool)
    ensures
        r == zero_prefix(binary_of(hash@), bits as nat),
{
    let bin = hash_bits(hash);
    if bits > bin.len() {
        return false;
    }
    let mut i: usize = 0;
    while i < bits
        invariant
            i <= bits,
            bits <= bin@.len(),
            bin@ == binary_of(hash@),
            forall|k: int| 0 <= k < i ==> #[trigger] bin@[k] == '0',
        decreases bits - i,
    {
        if bin[i] != '0' {
            return false;
        }
        i = i + 1;
    }
    true
}

} // verus!
