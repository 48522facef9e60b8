//! The canonical rendering of a block's fields and the digest taken over it.
//! Mining and validation must hash the very same text, so the rendering is
//! pinned down to the character: a JSON object with the five fields in fixed
//! (alphabetical) key order and standard string escaping.
use vstd::prelude::*;

use crate::encoding::hex_digit;
use crate::text::{chars_to_string, dec_i64, dec_u64, i64_chars, str_to_chars, u64_chars};

verus! {

/// How one character is written inside a JSON string literal.
pub open spec fn escaped_char(c: char) -> Seq<char> {
    if c == '"' {
        seq!['\\', '"']
    } else if c == '\\' {
        seq!['\\', '\\']
    } else if c == '\u{8}' {
        seq!['\\', 'b']
    } else if c == '\u{c}' {
        seq!['\\', 'f']
    } else if c == '\n' {
        seq!['\\', 'n']
    } else if c == '\r' {
        seq!['\\', 'r']
    } else if c == '\t' {
        seq!['\\', 't']
    } else if (c as u32) < 32 {
        seq!['\\', 'u', '0', '0', hex_digit(((c as u32) >> 4) as u8), hex_digit(
            ((c as u32) & 15) as u8,
        )]
    } else {
        seq![c]
    }
}

/// The body of a JSON string literal: each character escaped in turn.
pub open spec fn escape_seq(s: Seq<char>) -> Seq<char>
    decreases s.len(),
{
    if s.len() == 0 {
        Seq::empty()
    } else {
        escaped_char(s[0]) + escape_seq(s.subrange(1, s.len() as int))
    }
}

/// A complete JSON string literal, quotes included.
pub open spec fn json_string(s: Seq<char>) -> Seq<char> {
    seq!['"'] + escape_seq(s) + seq!['"']
}

/// The canonical text a block's digest is taken over: a JSON object with the
/// keys in alphabetical order and no whitespace.
pub open spec fn canonical_record(
    id: u64,
    timestamp: i64,
    previous_hash: Seq<char>,
    data: Seq<char>,
    nonce: u64,
) -> Seq<char> {
    "{\"data\":"@ + json_string(data) + ",\"id\":"@ + dec_u64(id) + ",\"nonce\":"@ + dec_u64(nonce)
        + ",\"previous_hash\":"@ + json_string(previous_hash) + ",\"timestamp\":"@ + dec_i64(
        timestamp,
    ) + "}"@
}

/// The SHA-256 digest of a text, named but not written out: the outside
/// hash function computes it, and everything here only needs that the same
/// text always yields the same 32 bytes.
pub uninterp spec fn sha256_of(s: Seq<char>) -> Seq<u8>;

/// The digest of a block's fields: SHA-256 over their canonical rendering.
pub open spec fn block_digest(
    id: u64,
    timestamp: i64,
    previous_hash: Seq<char>,
    data: Seq<char>,
    nonce: u64,
) -> Seq<u8> {
    sha256_of(canonical_record(id, timestamp, previous_hash, data, nonce))
}

/// Escaping a text one character longer appends that character's escape.
proof fn lemma_escape_push(s: Seq<char>, c: char)
    ensures
        escape_seq(s.push(c)) == escape_seq(s) + escaped_char(c),
    decreases s.len(),
{
    let t = s.push(c);
    if s.len() == 0 {
        assert(t[0] == c);
        assert(t.subrange(1, t.len() as int) =~= Seq::<char>::empty());
        assert(escape_seq(t) == escaped_char(c) + escape_seq(Seq::<char>::empty()));
        assert(escaped_char(c) + Seq::<char>::empty() =~= escaped_char(c));
        assert(escape_seq(s) + escaped_char(c) =~= escaped_char(c));
    } else {
        assert(t[0] == s[0]);
        assert(t.subrange(1, t.len() as int) =~= s.subrange(1, s.len() as int).push(c));
        lemma_escape_push(s.subrange(1, s.len() as int), c);
        let head = escaped_char(s[0]);
        let tail = escape_seq(s.subrange(1, s.len() as int));
        let last = escaped_char(c);
        assert(escape_seq(t) == head + (tail + last));
        assert(escape_seq(s) == head + tail);
        assert(head + (tail + last) =~= (head + tail) + last);
    }
}

/// Relies on `sha2::Sha256`: the digest is 32 bytes and depends on the input
/// characters alone.
#[verifier::external_body]
fn sha256_chars(s: &Vec<char>) -> (r: Vec<u8>)
    ensures
        r@ == sha256_of(s@),
        r@.len() == 32,
{
    let text: String = s.iter().collect();
    <sha2::Sha256 as sha2::Digest>::digest(text.as_bytes()).to_vec()
}

/// The exec counterpart of `hex_digit`.
fn hex_digit_char(v: u8) -> (c: char)
    requires
        v < 16,
    ensures
        c == hex_digit(v),
{
    if v < 10 {
        (v + 48) as char
    } else {
        (v + 87) as char
    }
}

/// Appends the characters of `piece` to `out`.
fn push_str_chars(out: &mut Vec<char>, piece: &str)
    ensures
        final(out)@ == old(out)@ + piece@,
{
    let mut chars = str_to_chars(piece);
    out.append(&mut chars);
}

/// Appends the escape of one character to `out`.
fn push_escaped(out: &mut Vec<char>, c: char)
    ensures
        final(out)@ == old(out)@ + escaped_char(c),
{
    if c == '"' {
        out.push('\\');
        out.push('"');
    } else if c == '\\' {
        out.push('\\');
        out.push('\\');
    } else if c == '\u{8}' {
        out.push('\\');
        out.push('b');
    } else if c == '\u{c}' {
        out.push('\\');
        out.push('f');
    } else if c == '\n' {
        out.push('\\');
        out.push('n');
    } else if c == '\r' {
        out.push('\\');
        out.push('r');
    } else if (c as u32) < 32 {
        let u = c as u32;
        if c == '\t' {
            out.push('\\');
            out.push('t');
        } else {
            proof {
                assert(u >> 4 < 16 && u & 15 < 16) by (bit_vector)
                    requires
                        u < 32,
                ;
            }
            out.push('\\');
            out.push('u');
            out.push('0');
            out.push('0');
            out.push(hex_digit_char((u >> 4) as u8));
            out.push(hex_digit_char((u & 15) as u8));
        }
    } else {
        out.push(c);
    }
    assert(out@ =~= old(out)@ + escaped_char(c));
}

/// Appends a complete JSON string literal for `s` to `out`.
fn push_json_string(out: &mut Vec<char>, s: &str)
    ensures
        final(out)@ == old(out)@ + json_string(s@),
{
    let chars = str_to_chars(s);
    out.push('"');
    let ghost mid = out@;
    let mut i: usize = 0;
    while i < chars.len()
        invariant
            i <= chars@.len(),
            chars@ == s@,
            out@ == mid + escape_seq(chars@.subrange(0, i as int)),
        decreases chars@.len() - i,
    {
        let c = chars[i];
        push_escaped(&mut *out, c);
        proof {
            assert(chars@.subrange(0, i + 1) =~= chars@.subrange(0, i as int).push(c));
            lemma_escape_push(chars@.subrange(0, i as int), c);
        }
        i = i + 1;
    }
    assert(chars@.subrange(0, chars@.len() as int) =~= chars@);
    out.push('"');
    assert(out@ =~= old(out)@ + json_string(s@));
}

/// The canonical rendering of the five fields, as characters.
fn canonical_chars(id: u64, timestamp: i64, previous_hash: &str, data: &str, nonce: u64) -> (r:
    Vec<char>)
    ensures
        r@ == canonical_record(id, timestamp, previous_hash@, data@, nonce),
{
    let mut out: Vec<char> = Vec::new();
    push_str_chars(&mut out, "{\"data\":");
    push_json_string(&mut out, data);
    push_str_chars(&mut out, ",\"id\":");
    let mut id_digits = u64_chars(id);
    out.append(&mut id_digits);
    push_str_chars(&mut out, ",\"nonce\":");
    let mut nonce_digits = u64_chars(nonce);
    out.append(&mut nonce_digits);
    push_str_chars(&mut out, ",\"previous_hash\":");
    push_json_string(&mut out, previous_hash);
    push_str_chars(&mut out, ",\"timestamp\":");
    let mut ts_digits = i64_chars(timestamp);
    out.append(&mut ts_digits);
    push_str_chars(&mut out, "}");
    assert(out@ =~= canonical_record(id, timestamp, previous_hash@, data@, nonce));
    out
}

/// The canonical rendering of the five fields, as a string: the exact text
/// the block's digest is taken over.
pub fn canonical_json(id: u64, timestamp: i64, previous_hash: &str, data: &str, nonce: u64) -> (r:
    String)
    ensures
        r@ == canonical_record(id, timestamp, previous_hash@, data@, nonce),
{
    let chars = canonical_chars(id, timestamp, previous_hash, data, nonce);
    chars_to_string(&chars)
}

/// The digest of a block's fields: deterministic, so two calls on the same
/// inputs yield byte-identical output.
pub fn calculate_hash(id: u64, timestamp: i64, previous_hash: &str, data: &str, nonce: u64) -> (r:
    Vec<u8>)
    ensures
        r@ == block_digest(id, timestamp, previous_hash@, data@, nonce),
        r@.len() == 32,
{
    let text = canonical_chars(id, timestamp, previous_hash, data, nonce);
    sha256_chars(&text)
}

} // verus!
