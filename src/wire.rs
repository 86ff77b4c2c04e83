//! Length-prefixed little-endian framing: integers, booleans and text fields.

use vstd::prelude::*;
use vstd::slice::slice_subrange;
use vstd::string::StringSliceAdditionalSpecFns;
use vstd::utf8::*;

verus! {

broadcast use group_utf8_lib;

/// The four little-endian bytes of `n`.
pub open spec fn le_u32(n: u32) -> Seq<u8> {
    seq![n as u8, (n >> 8u32) as u8, (n >> 16u32) as u8, (n >> 24u32) as u8]
}

/// The eight little-endian bytes of `n`.
pub open spec fn le_u64(n: u64) -> Seq<u8> {
    seq![
        n as u8,
        (n >> 8u64) as u8,
        (n >> 16u64) as u8,
        (n >> 24u64) as u8,
        (n >> 32u64) as u8,
        (n >> 40u64) as u8,
        (n >> 48u64) as u8,
        (n >> 56u64) as u8,
    ]
}

/// A text field can be framed when its UTF-8 form has a length that fits the
/// four-byte prefix.
pub open spec fn field_fits(s: Seq<char>) -> bool {
    encode_utf8(s).len() <= u32::MAX
}

/// A text field: the byte length of its UTF-8 form, then that form.
pub open spec fn str_field(s: Seq<char>) -> Seq<u8> {
    le_u32(encode_utf8(s).len() as u32) + encode_utf8(s)
}

/// The number whose little-endian bytes are `b0` to `b3`.
pub open spec fn u32_of(b0: u8, b1: u8, b2: u8, b3: u8) -> u32 {
    (b0 as u32) | ((b1 as u32) << 8u32) | ((b2 as u32) << 16u32) | ((b3 as u32) << 24u32)
}

proof fn lemma_u32_of_le(n: u32, b0: u8, b1: u8, b2: u8, b3: u8)
    requires
        b0 == n as u8,
        b1 == (n >> 8u32) as u8,
        b2 == (n >> 16u32) as u8,
        b3 == (n >> 24u32) as u8,
    ensures
        u32_of(b0, b1, b2, b3) == n,
{
    assert(u32_of(b0, b1, b2, b3) == n) by (bit_vector)
        requires
            b0 == n as u8,
            b1 == (n >> 8u32) as u8,
            b2 == (n >> 16u32) as u8,
            b3 == (n >> 24u32) as u8,
    ;
}

proof fn lemma_le_u32_of(b0: u8, b1: u8, b2: u8, b3: u8)
    ensures
        le_u32(u32_of(b0, b1, b2, b3)) == seq![b0, b1, b2, b3],
{
    let n = u32_of(b0, b1, b2, b3);
    assert(n as u8 == b0 && (n >> 8u32) as u8 == b1 && (n >> 16u32) as u8 == b2 && (n
        >> 24u32) as u8 == b3) by (bit_vector)
        requires
            n == (b0 as u32) | ((b1 as u32) << 8u32) | ((b2 as u32) << 16u32) | ((b3 as u32)
                << 24u32),
    ;
    assert(le_u32(n) =~= seq![b0, b1, b2, b3]);
}

/// Appends the little-endian bytes of `n`.
pub fn push_u32(out: &mut Vec<u8>, n: u32)
    ensures
        final(out)@ == old(out)@ + le_u32(n),
{
    out.push(n as u8);
    out.push((n >> 8u32) as u8);
    out.push((n >> 16u32) as u8);
    out.push((n >> 24u32) as u8);
    assert(final(out)@ =~= old(out)@ + le_u32(n));
}

/// The number whose little-endian bytes are the first eight of `b`.
pub open spec fn u64_of(b: Seq<u8>) -> u64 {
    (b[0] as u64) | ((b[1] as u64) << 8u64) | ((b[2] as u64) << 16u64) | ((b[3] as u64)
        << 24u64) | ((b[4] as u64) << 32u64) | ((b[5] as u64) << 40u64) | ((b[6] as u64)
        << 48u64) | ((b[7] as u64) << 56u64)
}

proof fn lemma_u64_of_le(n: u64)
    ensures
        u64_of(le_u64(n)) == n,
{
    let b = le_u64(n);
    let (b0, b1, b2, b3, b4, b5, b6, b7) = (b[0], b[1], b[2], b[3], b[4], b[5], b[6], b[7]);
    assert((b0 as u64) | ((b1 as u64) << 8u64) | ((b2 as u64) << 16u64) | ((b3 as u64)
        << 24u64) | ((b4 as u64) << 32u64) | ((b5 as u64) << 40u64) | ((b6 as u64) << 48u64)
        | ((b7 as u64) << 56u64) == n) by (bit_vector)
        requires
            b0 == n as u8,
            b1 == (n >> 8u64) as u8,
            b2 == (n >> 16u64) as u8,
            b3 == (n >> 24u64) as u8,
            b4 == (n >> 32u64) as u8,
            b5 == (n >> 40u64) as u8,
            b6 == (n >> 48u64) as u8,
            b7 == (n >> 56u64) as u8,
    ;
}

proof fn lemma_le_u64_of(b: Seq<u8>)
    requires
        b.len() == 8,
    ensures
        le_u64(u64_of(b)) == b,
{
    let n = u64_of(b);
    let (b0, b1, b2, b3, b4, b5, b6, b7) = (b[0], b[1], b[2], b[3], b[4], b[5], b[6], b[7]);
    assert(n as u8 == b0 && (n >> 8u64) as u8 == b1 && (n >> 16u64) as u8 == b2 && (n
        >> 24u64) as u8 == b3 && (n >> 32u64) as u8 == b4 && (n >> 40u64) as u8 == b5 && (n
        >> 48u64) as u8 == b6 && (n >> 56u64) as u8 == b7) by (bit_vector)
        requires
            n == (b0 as u64) | ((b1 as u64) << 8u64) | ((b2 as u64) << 16u64) | ((b3 as u64)
                << 24u64) | ((b4 as u64) << 32u64) | ((b5 as u64) << 40u64) | ((b6 as u64)
                << 48u64) | ((b7 as u64) << 56u64),
    ;
    assert(le_u64(n) =~= b);
}

/// Appends the little-endian bytes of `n`.
pub fn push_u64(out: &mut Vec<u8>, n: u64)
    ensures
        final(out)@ == old(out)@ + le_u64(n),
{
    out.push(n as u8);
    out.push((n >> 8u64) as u8);
    out.push((n >> 16u64) as u8);
    out.push((n >> 24u64) as u8);
    out.push((n >> 32u64) as u8);
    out.push((n >> 40u64) as u8);
    out.push((n >> 48u64) as u8);
    out.push((n >> 56u64) as u8);
    assert(final(out)@ =~= old(out)@ + le_u64(n));
}

/// Appends a text field: the byte length of `s` and its UTF-8 bytes.
pub fn push_str(out: &mut Vec<u8>, s: &String)
    requires
        field_fits(s@),
    ensures
        final(out)@ == old(out)@ + str_field(s@),
{
    let bytes = s.as_str().as_bytes();
    push_u32(out, bytes.len() as u32);
    let ghost start = out@;
    let mut i: usize = 0;
    while i < bytes.len()
        invariant
            i <= bytes@.len(),
            bytes@ == encode_utf8(s@),
            out@ == start + bytes@.subrange(0, i as int),
        decreases bytes@.len() - i,
    {
        out.push(bytes[i]);
        assert(bytes@.subrange(0, i + 1) =~= bytes@.subrange(0, i as int).push(bytes@[i as int]));
        i = i + 1;
    }
    assert(bytes@.subrange(0, bytes@.len() as int) =~= bytes@);
    assert(final(out)@ =~= old(out)@ + str_field(s@));
}

/// Appends a boolean: one byte, 1 for true and 0 for false.
pub fn push_bool(out: &mut Vec<u8>, v: bool)
    ensures
        final(out)@ == old(out)@.push(if v { 1u8 } else { 0u8 }),
{
    out.push(if v { 1u8 } else { 0u8 });
}

/// Reads the four little-endian bytes at `pos`.
pub fn read_u32(b: &[u8], pos: usize) -> (r: Option<u32>)
    ensures
        r is Some <==> pos + 4 <= b@.len(),
        r is Some ==> le_u32(r->0) == b@.subrange(pos as int, pos + 4),
        forall|n: u32|
            pos + 4 <= b@.len() && #[trigger] le_u32(n) == b@.subrange(pos as int, pos + 4)
                ==> r == Some(n),
{
    if b.len() < 4 || pos > b.len() - 4 {
        return None;
    }
    let n = (b[pos] as u32) | ((b[pos + 1] as u32) << 8u32) | ((b[pos + 2] as u32) << 16u32) | ((
    b[pos + 3] as u32) << 24u32);
    proof {
        lemma_le_u32_of(b@[pos as int], b@[pos + 1], b@[pos + 2], b@[pos + 3]);
        assert(b@.subrange(pos as int, pos + 4) =~= seq![
            b@[pos as int],
            b@[pos + 1],
            b@[pos + 2],
            b@[pos + 3],
        ]);
        assert forall|m: u32| #[trigger] le_u32(m) == b@.subrange(pos as int, pos + 4) implies m
            == n by {
            assert(le_u32(m)[0] == b@[pos as int] && le_u32(m)[1] == b@[pos + 1] && le_u32(m)[2]
                == b@[pos + 2] && le_u32(m)[3] == b@[pos + 3]);
            lemma_u32_of_le(m, b@[pos as int], b@[pos + 1], b@[pos + 2], b@[pos + 3]);
        }
    }
    Some(n)
}

/// Reads the eight little-endian bytes at `pos`.
pub fn read_u64(b: &[u8], pos: usize) -> (r: Option<u64>)
    ensures
        r is Some <==> pos + 8 <= b@.len(),
        r is Some ==> le_u64(r->0) == b@.subrange(pos as int, pos + 8),
        forall|n: u64|
            pos + 8 <= b@.len() && #[trigger] le_u64(n) == b@.subrange(pos as int, pos + 8)
                ==> r == Some(n),
{
    if b.len() < 8 || pos > b.len() - 8 {
        return None;
    }
    let ghost w = b@.subrange(pos as int, pos + 8);
    let n = (b[pos] as u64) | ((b[pos + 1] as u64) << 8u64) | ((b[pos + 2] as u64) << 16u64) | ((
    b[pos + 3] as u64) << 24u64) | ((b[pos + 4] as u64) << 32u64) | ((b[pos + 5] as u64)
        << 40u64) | ((b[pos + 6] as u64) << 48u64) | ((b[pos + 7] as u64) << 56u64);
    proof {
        assert(n == u64_of(w));
        lemma_le_u64_of(w);
        assert forall|m: u64| #[trigger] le_u64(m) == w implies m == n by {
            lemma_u64_of_le(m);
        }
    }
    Some(n)
}

/// Relies on std::str::from_utf8: it accepts exactly the valid UTF-8 byte
/// sequences, and the string it returns has those bytes.
#[verifier::external_body]
fn utf8_text(b: &[u8]) -> (r: Option<&str>)
    ensures
        r is Some <==> valid_utf8(b@),
        r is Some ==> r->0.spec_bytes() == b@,
{
    std::str::from_utf8(b).ok()
}

/// Reads a text field at `pos`; returns it and the position after it.
pub fn read_str(b: &[u8], pos: usize) -> (r: Option<(String, usize)>)
    ensures
        r is Some ==> {
            let (s, end) = r->0;
            &&& field_fits(s@)
            &&& end == pos + str_field(s@).len() <= b@.len()
            &&& b@.subrange(pos as int, end as int) == str_field(s@)
        },
        forall|s: Seq<char>|
            field_fits(s) && pos + str_field(s).len() <= b@.len() && b@.subrange(
                pos as int,
                pos + str_field(s).len(),
            ) == #[trigger] str_field(s) ==> r is Some && (r->0).0@ == s,
{
    let len = match read_u32(b, pos) {
        Some(n) => n,
        None => {
            proof {
                assert forall|s: Seq<char>|
                    field_fits(s) && pos + str_field(s).len() <= b@.len() && b@.subrange(
                        pos as int,
                        pos + str_field(s).len(),
                    ) == #[trigger] str_field(s) implies false by {}
            }
            return None;
        },
    };
    let blen = b.len();
    assert(pos + 4 <= blen);
    let start = pos + 4;
    if len as usize > b.len() - start {
        proof {
            assert forall|s: Seq<char>|
                field_fits(s) && pos + str_field(s).len() <= b@.len() && b@.subrange(
                    pos as int,
                    pos + str_field(s).len(),
                ) == #[trigger] str_field(s) implies false by {
                assert(b@.subrange(pos as int, pos + 4) =~= str_field(s).subrange(0, 4));
                assert(str_field(s).subrange(0, 4) =~= le_u32(encode_utf8(s).len() as u32));
            }
        }
        return None;
    }
    let end = start + len as usize;
    let text = slice_subrange(b, start, end);
    match utf8_text(text) {
        Some(t) => {
            let out = t.to_owned();
            proof {
                assert(b@.subrange(pos as int, pos + 4) == le_u32(len));
                assert(b@.subrange(pos as int, end as int) =~= le_u32(len) + text@);
                assert(encode_utf8(out@) == text@);
                assert(str_field(out@) =~= b@.subrange(pos as int, end as int));
                assert forall|s: Seq<char>|
                    field_fits(s) && pos + str_field(s).len() <= b@.len() && b@.subrange(
                        pos as int,
                        pos + str_field(s).len(),
                    ) == #[trigger] str_field(s) implies out@ == s by {
                    assert(b@.subrange(pos as int, pos + 4) =~= str_field(s).subrange(0, 4));
                    assert(str_field(s).subrange(0, 4) =~= le_u32(encode_utf8(s).len() as u32));
                    assert(encode_utf8(s).len() == len);
                    assert(text@ =~= str_field(s).subrange(4, str_field(s).len() as int));
                    assert(encode_utf8(s) =~= text@);
                    assert(decode_utf8(encode_utf8(s)) == s);
                    assert(decode_utf8(encode_utf8(out@)) == out@);
                }
            }
            Some((out, end))
        },
        None => {
            proof {
                assert forall|s: Seq<char>|
                    field_fits(s) && pos + str_field(s).len() <= b@.len() && b@.subrange(
                        pos as int,
                        pos + str_field(s).len(),
                    ) == #[trigger] str_field(s) implies false by {
                    assert(b@.subrange(pos as int, pos + 4) =~= str_field(s).subrange(0, 4));
                    assert(str_field(s).subrange(0, 4) =~= le_u32(encode_utf8(s).len() as u32));
                    assert(encode_utf8(s).len() == len);
                    assert(text@ =~= str_field(s).subrange(4, str_field(s).len() as int));
                    assert(encode_utf8(s) =~= text@);
                }
            }
            None
        },
    }
}

/// Reads a boolean byte at `pos`: 0 is false, 1 is true, anything else is
/// refused.
pub fn read_bool(b: &[u8], pos: usize) -> (r: Option<bool>)
    ensures
        r is Some <==> pos < b@.len() && (b@[pos as int] == 0 || b@[pos as int] == 1),
        r is Some ==> r->0 == (b@[pos as int] == 1),
{
    if pos >= b.len() {
        return None;
    }
    let v = b[pos];
    if v == 0 {
        Some(false)
    } else if v == 1 {
        Some(true)
    } else {
        None
    }
}

} // verus!
