//! The byte encoding shared by instructions and records: single bytes, and
//! text as a four-byte little-endian length followed by its UTF-8 bytes.

use vstd::prelude::*;
use vstd::slice::{slice_subrange, slice_to_vec};
use vstd::utf8::{decode_utf8, encode_utf8, valid_utf8};

verus! {

broadcast use vstd::utf8::group_utf8_lib;

/// The unsigned integer held little-endian in `b[pos..pos + 4]`.
pub open spec fn u32_le_at(b: Seq<u8>, pos: int) -> nat {
    b[pos] as nat + b[pos + 1] as nat * 256 + b[pos + 2] as nat * 65536 + b[pos + 3] as nat
        * 16777216
}

/// The four little-endian bytes of `n`, for `n < 2^32`.
pub open spec fn u32_le_bytes(n: nat) -> Seq<u8> {
    seq![
        (n % 256) as u8,
        ((n / 256) % 256) as u8,
        ((n / 65536) % 256) as u8,
        ((n / 16777216) % 256) as u8,
    ]
}

/// The encoding of a text field.
pub open spec fn text_bytes(s: Seq<char>) -> Seq<u8> {
    u32_le_bytes(encode_utf8(s).len()) + encode_utf8(s)
}

/// A text field whose UTF-8 form fits the four-byte length prefix.
pub open spec fn text_fits(s: Seq<char>) -> bool {
    encode_utf8(s).len() < 0x1_0000_0000
}

/// The text field that starts at `pos`, and the position after it.
pub open spec fn parse_text(b: Seq<u8>, pos: int) -> Option<(Seq<char>, int)> {
    if 0 <= pos && pos + 4 <= b.len() {
        let end = pos + 4 + u32_le_at(b, pos);
        if end <= b.len() && valid_utf8(b.subrange(pos + 4, end)) {
            Some((decode_utf8(b.subrange(pos + 4, end)), end))
        } else {
            None
        }
    } else {
        None
    }
}

/// The byte at `pos`, and the position after it.
pub open spec fn parse_byte(b: Seq<u8>, pos: int) -> Option<(u8, int)> {
    if 0 <= pos < b.len() {
        Some((b[pos], pos + 1))
    } else {
        None
    }
}

/// The four bytes of `u32_le_bytes(n)` read back give `n`.
pub proof fn lemma_u32_le_round_trip(n: nat, b: Seq<u8>, pos: int)
    requires
        n < 0x1_0000_0000,
        0 <= pos,
        pos + 4 <= b.len(),
        b.subrange(pos, pos + 4) == u32_le_bytes(n),
    ensures
        u32_le_at(b, pos) == n,
{
    assert(b[pos] == b.subrange(pos, pos + 4)[0]);
    assert(b[pos + 1] == b.subrange(pos, pos + 4)[1]);
    assert(b[pos + 2] == b.subrange(pos, pos + 4)[2]);
    assert(b[pos + 3] == b.subrange(pos, pos + 4)[3]);
    assert((n % 256) + ((n / 256) % 256) * 256 + ((n / 65536) % 256) * 65536 + ((n / 16777216)
        % 256) * 16777216 == n) by (nonlinear_arith)
        requires
            n < 0x1_0000_0000,
    ;
}

/// A text field written at `pos` is read back whole, whatever follows it.
pub proof fn lemma_text_round_trip(b: Seq<u8>, pos: int, s: Seq<char>)
    requires
        text_fits(s),
        0 <= pos,
        pos + text_bytes(s).len() <= b.len(),
        b.subrange(pos, pos + text_bytes(s).len()) == text_bytes(s),
    ensures
        parse_text(b, pos) == Some((s, pos + text_bytes(s).len())),
{
    let e = encode_utf8(s);
    let t = text_bytes(s);
    assert(b.subrange(pos, pos + 4) =~= t.subrange(0, 4));
    assert(t.subrange(0, 4) =~= u32_le_bytes(e.len()));
    lemma_u32_le_round_trip(e.len(), b, pos);
    assert(b.subrange(pos + 4, pos + 4 + e.len()) =~= t.subrange(4, t.len() as int));
    assert(t.subrange(4, t.len() as int) =~= e);
}

/// Relies on `String::from_utf8`: it accepts exactly the byte vectors that
/// are valid UTF-8, and the string it gives holds those bytes.
#[verifier::external_body]
fn string_from_utf8(v: Vec<u8>) -> (r: Option<String>)
    ensures
        r is Some <==> valid_utf8(v@),
        r matches Some(s) ==> encode_utf8(s@) == v@,
{
    String::from_utf8(v).ok()
}

/// Reads the text field at `pos`.
pub fn read_text(b: &[u8], pos: usize) -> (r: Option<(String, usize)>)
    ensures
        match r {
            Some((s, end)) => parse_text(b@, pos as int) == Some((s@, end as int)),
            None => parse_text(b@, pos as int) is None,
        },
{
    if pos > b.len() || b.len() - pos < 4 {
        return None;
    }
    let n: u64 = b[pos] as u64 + (b[pos + 1] as u64) * 256 + (b[pos + 2] as u64) * 65536
        + (b[pos + 3] as u64) * 16777216;
    assert(n == u32_le_at(b@, pos as int));
    if n > (b.len() - pos - 4) as u64 {
        return None;
    }
    let start: usize = pos + 4;
    let end: usize = start + n as usize;
    let v = slice_to_vec(slice_subrange(b, start, end));
    match string_from_utf8(v) {
        Some(s) => {
            proof {
                vstd::utf8::encode_utf8_decode_utf8(s@);
            }
            Some((s, end))
        },
        None => None,
    }
}

/// Reads the byte at `pos`.
pub fn read_byte(b: &[u8], pos: usize) -> (r: Option<(u8, usize)>)
    ensures
        match r {
            Some((x, end)) => parse_byte(b@, pos as int) == Some((x, end as int)),
            None => parse_byte(b@, pos as int) is None,
        },
{
    if pos < b.len() {
        Some((b[pos], pos + 1))
    } else {
        None
    }
}

/// Appends the bytes of `src`.
pub fn push_bytes(out: &mut Vec<u8>, src: &[u8])
    ensures
        final(out)@ == old(out)@ + src@,
{
    let ghost start = out@;
    let mut i: usize = 0;
    while i < src.len()
        invariant
            0 <= i <= src@.len(),
            out@ == start + src@.subrange(0, i as int),
        decreases src@.len() - i,
    {
        out.push(src[i]);
        i = i + 1;
        assert(src@.subrange(0, i as int) =~= src@.subrange(0, i - 1) + seq![src@[i - 1]]);
    }
    assert(src@.subrange(0, i as int) =~= src@);
}

/// Appends `s` as a text field.
pub fn write_text(out: &mut Vec<u8>, s: &String)
    requires
        text_fits(s@),
    ensures
        final(out)@ == old(out)@ + text_bytes(s@),
{
    let bytes = s.as_str().as_bytes();
    let n: usize = bytes.len();
    assert(n == encode_utf8(s@).len());
    let n32: u32 = n as u32;
    let ghost start = out@;
    out.push((n32 % 256) as u8);
    out.push(((n32 / 256) % 256) as u8);
    out.push(((n32 / 65536) % 256) as u8);
    out.push(((n32 / 16777216) % 256) as u8);
    assert(out@ =~= start + u32_le_bytes(n as nat));
    push_bytes(out, bytes);
    assert(out@ =~= start + text_bytes(s@));
}

/// The four fields that instructions and records both carry.
pub struct ReviewFields {
    pub title: Seq<char>,
    pub rating: u8,
    pub description: Seq<char>,
    pub location: Seq<char>,
}

/// The encoding of the four fields, in order.
pub open spec fn fields_bytes(f: ReviewFields) -> Seq<u8> {
    text_bytes(f.title) + seq![f.rating] + text_bytes(f.description) + text_bytes(f.location)
}

/// Every text field fits its length prefix.
pub open spec fn fields_fit(f: ReviewFields) -> bool {
    text_fits(f.title) && text_fits(f.description) && text_fits(f.location)
}

/// The four fields that start at `pos`, and the position after them.
pub open spec fn parse_fields(b: Seq<u8>, pos: int) -> Option<(ReviewFields, int)> {
    match parse_text(b, pos) {
        Some((title, p1)) => match parse_byte(b, p1) {
            Some((rating, p2)) => match parse_text(b, p2) {
                Some((description, p3)) => match parse_text(b, p3) {
                    Some((location, p4)) => Some(
                        (ReviewFields { title, rating, description, location }, p4),
                    ),
                    None => None,
                },
                None => None,
            },
            None => None,
        },
        None => None,
    }
}

/// Four fields written at `pos` are read back whole, whatever follows them.
pub proof fn lemma_fields_round_trip(b: Seq<u8>, pos: int, f: ReviewFields)
    requires
        fields_fit(f),
        0 <= pos,
        pos + fields_bytes(f).len() <= b.len(),
        b.subrange(pos, pos + fields_bytes(f).len()) == fields_bytes(f),
    ensures
        parse_fields(b, pos) == Some((f, pos + fields_bytes(f).len())),
{
    let fb = fields_bytes(f);
    let t = text_bytes(f.title);
    let d = text_bytes(f.description);
    let l = text_bytes(f.location);
    let tl = t.len() as int;
    let dl = d.len() as int;
    let p1 = pos + tl;
    let p2 = p1 + 1;
    let p3 = p2 + dl;
    let p4 = p3 + l.len();
    assert(fb =~= t + seq![f.rating] + d + l);
    assert(b.subrange(pos, p1) =~= fb.subrange(0, tl));
    assert(fb.subrange(0, tl) =~= t);
    lemma_text_round_trip(b, pos, f.title);
    assert(b[p1] == fb[tl]);
    assert(b.subrange(p2, p3) =~= fb.subrange(tl + 1, tl + 1 + dl));
    assert(fb.subrange(tl + 1, tl + 1 + dl) =~= d);
    lemma_text_round_trip(b, p2, f.description);
    assert(b.subrange(p3, p4) =~= fb.subrange(tl + 1 + dl, fb.len() as int));
    assert(fb.subrange(tl + 1 + dl, fb.len() as int) =~= l);
    lemma_text_round_trip(b, p3, f.location);
}

/// Reads the four fields at `pos`.
pub fn read_fields(b: &[u8], pos: usize) -> (r: Option<(String, u8, String, String, usize)>)
    ensures
        match r {
            Some((t, x, d, l, end)) => parse_fields(b@, pos as int) == Some(
                (ReviewFields { title: t@, rating: x, description: d@, location: l@ }, end as int),
            ),
            None => parse_fields(b@, pos as int) is None,
        },
{
    let (title, p1) = match read_text(b, pos) {
        Some(v) => v,
        None => return None,
    };
    let (rating, p2) = match read_byte(b, p1) {
        Some(v) => v,
        None => return None,
    };
    let (description, p3) = match read_text(b, p2) {
        Some(v) => v,
        None => return None,
    };
    let (location, p4) = match read_text(b, p3) {
        Some(v) => v,
        None => return None,
    };
    Some((title, rating, description, location, p4))
}

/// Appends the four fields.
pub fn write_fields(
    out: &mut Vec<u8>,
    title: &String,
    rating: u8,
    description: &String,
    location: &String,
)
    requires
        text_fits(title@),
        text_fits(description@),
        text_fits(location@),
    ensures
        final(out)@ == old(out)@ + fields_bytes(
            ReviewFields {
                title: title@,
                rating,
                description: description@,
                location: location@,
            },
        ),
{
    let ghost start = out@;
    write_text(out, title);
    out.push(rating);
    write_text(out, description);
    write_text(out, location);
    assert(out@ =~= start + fields_bytes(
        ReviewFields { title: title@, rating, description: description@, location: location@ },
    ));
}

} // verus!
