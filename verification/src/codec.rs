use vstd::prelude::*;

use vstd::slice::{slice_subrange, slice_to_vec};
use vstd::utf8::{
    decode_utf8, encode_utf8, encode_utf8_decode_utf8, encode_utf8_valid_utf8, valid_utf8,
};

verus! {

/// The little-endian byte image of a 64-bit integer.
pub open spec fn u64_le(x: u64) -> Seq<u8> {
    seq![
        (x & 0xff) as u8,
        ((x >> 8) & 0xff) as u8,
        ((x >> 16) & 0xff) as u8,
        ((x >> 24) & 0xff) as u8,
        ((x >> 32) & 0xff) as u8,
        ((x >> 40) & 0xff) as u8,
        ((x >> 48) & 0xff) as u8,
        ((x >> 56) & 0xff) as u8,
    ]
}

/// The 64-bit integer read from eight little-endian bytes.
pub open spec fn le_val(b: Seq<u8>) -> u64
    recommends
        b.len() == 8,
{
    (b[0] as u64) | ((b[1] as u64) << 8) | ((b[2] as u64) << 16) | ((b[3] as u64) << 24) | ((b[4]
        as u64) << 32) | ((b[5] as u64) << 40) | ((b[6] as u64) << 48) | ((b[7] as u64) << 56)
}

/// Writing an integer and reading it back is the identity.
pub proof fn lemma_u64_le_roundtrip(x: u64)
    ensures
        le_val(u64_le(x)) == x,
{
    let b = u64_le(x);
    assert(b[0] == (x & 0xff) as u8);
    assert(b[1] == ((x >> 8) & 0xff) as u8);
    assert(b[2] == ((x >> 16) & 0xff) as u8);
    assert(b[3] == ((x >> 24) & 0xff) as u8);
    assert(b[4] == ((x >> 32) & 0xff) as u8);
    assert(b[5] == ((x >> 40) & 0xff) as u8);
    assert(b[6] == ((x >> 48) & 0xff) as u8);
    assert(b[7] == ((x >> 56) & 0xff) as u8);
    assert((((x & 0xff) as u8) as u64) | ((((x >> 8) & 0xff) as u8) as u64) << 8 | ((((x >> 16)
        & 0xff) as u8) as u64) << 16 | ((((x >> 24) & 0xff) as u8) as u64) << 24 | ((((x >> 32)
        & 0xff) as u8) as u64) << 32 | ((((x >> 40) & 0xff) as u8) as u64) << 40 | ((((x >> 48)
        & 0xff) as u8) as u64) << 48 | ((((x >> 56) & 0xff) as u8) as u64) << 56 == x)
        by (bit_vector);
}

/// The notification message for a created event: the id, then the summary
/// and the description, each UTF-8 encoded behind a little-endian length.
pub open spec fn spec_message(id: u64, summary: Seq<char>, description: Seq<char>) -> Seq<u8> {
    let sb = encode_utf8(summary);
    let db = encode_utf8(description);
    u64_le(id) + u64_le(sb.len() as u64) + sb + u64_le(db.len() as u64) + db
}

/// The strict parse of a notification message: `None` unless the bytes are
/// exactly one well-framed message whose text fields are valid UTF-8.
pub open spec fn spec_parse_message(b: Seq<u8>) -> Option<(u64, Seq<char>, Seq<char>)> {
    if b.len() < 24 {
        None
    } else {
        let id = le_val(b.subrange(0, 8));
        let slen = le_val(b.subrange(8, 16)) as int;
        if b.len() < 24 + slen {
            None
        } else {
            let sb = b.subrange(16, 16 + slen);
            let dlen = le_val(b.subrange(16 + slen, 24 + slen)) as int;
            if b.len() != 24 + slen + dlen {
                None
            } else {
                let db = b.subrange(24 + slen, 24 + slen + dlen);
                if valid_utf8(sb) && valid_utf8(db) {
                    Some((id, decode_utf8(sb), decode_utf8(db)))
                } else {
                    None
                }
            }
        }
    }
}

/// Law: the notification channel round-trips. Parsing an encoded message
/// yields exactly the id, summary and description that were published.
pub proof fn lemma_message_roundtrip(id: u64, summary: Seq<char>, description: Seq<char>)
    requires
        encode_utf8(summary).len() <= u64::MAX,
        encode_utf8(description).len() <= u64::MAX,
    ensures
        spec_parse_message(spec_message(id, summary, description)) == Some(
            (id, summary, description),
        ),
{
    let sb = encode_utf8(summary);
    let db = encode_utf8(description);
    let slen = sb.len() as int;
    let dlen = db.len() as int;
    let m = spec_message(id, summary, description);
    assert(m.len() == 24 + slen + dlen);
    assert(m.subrange(0, 8) =~= u64_le(id));
    assert(m.subrange(8, 16) =~= u64_le(slen as u64));
    assert(m.subrange(16, 16 + slen) =~= sb);
    assert(m.subrange(16 + slen, 24 + slen) =~= u64_le(dlen as u64));
    assert(m.subrange(24 + slen, 24 + slen + dlen) =~= db);
    lemma_u64_le_roundtrip(id);
    lemma_u64_le_roundtrip(slen as u64);
    lemma_u64_le_roundtrip(dlen as u64);
    encode_utf8_valid_utf8(summary);
    encode_utf8_valid_utf8(description);
    encode_utf8_decode_utf8(summary);
    encode_utf8_decode_utf8(description);
}

/// Append the little-endian image of `x`.
fn push_u64_le(out: &mut Vec<u8>, x: u64)
    ensures
        final(out)@ == old(out)@ + u64_le(x),
{
    out.push((x & 0xff) as u8);
    out.push(((x >> 8) & 0xff) as u8);
    out.push(((x >> 16) & 0xff) as u8);
    out.push(((x >> 24) & 0xff) as u8);
    out.push(((x >> 32) & 0xff) as u8);
    out.push(((x >> 40) & 0xff) as u8);
    out.push(((x >> 48) & 0xff) as u8);
    out.push(((x >> 56) & 0xff) as u8);
    proof {
        assert(out@ =~= old(out)@ + u64_le(x));
    }
}

/// Read the integer stored little-endian at `off`.
fn read_u64_le(b: &Vec<u8>, off: usize) -> (x: u64)
    requires
        off + 8 <= b@.len(),
    ensures
        x == le_val(b@.subrange(off as int, off as int + 8)),
{
    let n = b.len();
    proof {
        assert(off + 8 <= n);
    }
    let x = (b[off] as u64) | ((b[off + 1] as u64) << 8) | ((b[off + 2] as u64) << 16) | ((b[off
        + 3] as u64) << 24) | ((b[off + 4] as u64) << 32) | ((b[off + 5] as u64) << 40) | ((b[off
        + 6] as u64) << 48) | ((b[off + 7] as u64) << 56);
    proof {
        let s = b@.subrange(off as int, off as int + 8);
        assert(s[0] == b@[off as int]);
        assert(s[1] == b@[off as int + 1]);
        assert(s[2] == b@[off as int + 2]);
        assert(s[3] == b@[off as int + 3]);
        assert(s[4] == b@[off as int + 4]);
        assert(s[5] == b@[off as int + 5]);
        assert(s[6] == b@[off as int + 6]);
        assert(s[7] == b@[off as int + 7]);
    }
    x
}

/// Relies on `String::from_utf8`: it succeeds exactly on valid UTF-8 input
/// and yields the string those bytes encode.
#[verifier::external_body]
fn string_from_utf8(v: Vec<u8>) -> (r: Option<String>)
    ensures
        match r {
            Some(s) => valid_utf8(v@) && encode_utf8(s@) == v@,
            None => !valid_utf8(v@),
        },
{
    match String::from_utf8(v) {
        Ok(s) => Some(s),
        Err(_) => None,
    }
}

/// Serialize a created event's id, summary and description as one
/// notification message.
pub fn encode_message(id: u64, summary: &String, description: &String) -> (r: Vec<u8>)
    ensures
        r@ == spec_message(id, summary@, description@),
{
    let mut out: Vec<u8> = Vec::new();
    push_u64_le(&mut out, id);
    let mut sb: Vec<u8> = summary.as_str().as_bytes_vec();
    push_u64_le(&mut out, sb.len() as u64);
    out.append(&mut sb);
    let mut db: Vec<u8> = description.as_str().as_bytes_vec();
    push_u64_le(&mut out, db.len() as u64);
    out.append(&mut db);
    proof {
        assert(out@ =~= spec_message(id, summary@, description@));
    }
    out
}

/// Parse one notification message back into its id, summary and
/// description; `None` exactly when the bytes are not a well-formed message.
pub fn decode_message(b: &Vec<u8>) -> (r: Option<(u64, String, String)>)
    ensures
        match r {
            Some(m) => spec_parse_message(b@) == Some((m.0, m.1@, m.2@)),
            None => spec_parse_message(b@) is None,
        },
{
    if b.len() < 24 {
        return None;
    }
    let id = read_u64_le(b, 0);
    let slen64 = read_u64_le(b, 8);
    if slen64 > (b.len() - 24) as u64 {
        return None;
    }
    let slen = slen64 as usize;
    let sb: Vec<u8> = slice_to_vec(slice_subrange(b.as_slice(), 16, 16 + slen));
    let dlen64 = read_u64_le(b, 16 + slen);
    let rest = b.len() - 24 - slen;
    if dlen64 != rest as u64 {
        return None;
    }
    let dv: Vec<u8> = slice_to_vec(slice_subrange(b.as_slice(), 24 + slen, b.len()));
    let summary = match string_from_utf8(sb) {
        Some(s) => s,
        None => {
            return None;
        },
    };
    let description = match string_from_utf8(dv) {
        Some(s) => s,
        None => {
            return None;
        },
    };
    proof {
        encode_utf8_decode_utf8(summary@);
        encode_utf8_decode_utf8(description@);
    }
    Some((id, summary, description))
}

} // verus!
