//! The fixed byte layout of the ledger's stored state.
//!
//! Every record is serialized into a constant-size envelope: an 8-byte tag,
//! three length-prefixed UTF-8 texts, two little-endian integers, and zero
//! padding up to the fixed allocation size. The counter is serialized as its
//! own 8-byte tag followed by the 8-byte count. Encoding and decoding are
//! verified against a single mathematical description of the layout, so the
//! allocation size and the wire format can never drift apart.

use vstd::prelude::*;
use vstd::utf8::encode_utf8;
use vstd::utf8::decode_utf8;
use vstd::utf8::valid_utf8;
use crate::record::ErrorCode;
use crate::record::Impact;
use crate::record::ImpactView;
use crate::record::MAX_FIELD_BYTES;

verus! {

/// The 8-byte tag opening every record envelope, read as a little-endian
/// unsigned 64-bit integer.
pub const RECORD_TAG: u64 = 0x4352544341504D49;

/// The 8-byte tag opening the counter envelope, read as a little-endian
/// unsigned 64-bit integer.
pub const COUNTER_TAG: u64 = 0x544E554F43504D49;

/// The fixed allocation size of one record: tag, three length-prefixed
/// texts at their maximum, quantity, timestamp. Requesting storage and
/// laying out the bytes both go through this one constant.
pub const RECORD_SPACE: usize = Impact::MAX_SIZE;

/// The fixed allocation size of the counter: tag and count.
pub const COUNTER_SPACE: usize = 8 + 8;

/// The little-endian bytes of an unsigned 32-bit integer.
pub open spec fn u32_le_bytes(x: u32) -> Seq<u8> {
    seq![x as u8, (x >> 8) as u8, (x >> 16) as u8, (x >> 24) as u8]
}

/// The little-endian bytes of an unsigned 64-bit integer.
pub open spec fn u64_le_bytes(x: u64) -> Seq<u8> {
    seq![
        x as u8,
        (x >> 8) as u8,
        (x >> 16) as u8,
        (x >> 24) as u8,
        (x >> 32) as u8,
        (x >> 40) as u8,
        (x >> 48) as u8,
        (x >> 56) as u8,
    ]
}

/// The little-endian bytes of a signed 64-bit integer, in two's complement.
pub open spec fn i64_le_bytes(x: i64) -> Seq<u8> {
    u64_le_bytes(x as u64)
}

/// The unsigned 32-bit integer read from four little-endian bytes.
pub open spec fn le_bytes_to_u32(s: Seq<u8>) -> u32
    recommends
        s.len() == 4,
{
    (s[0] as u32) | (s[1] as u32) << 8 | (s[2] as u32) << 16 | (s[3] as u32) << 24
}

/// The unsigned 64-bit integer read from eight little-endian bytes.
pub open spec fn le_bytes_to_u64(s: Seq<u8>) -> u64
    recommends
        s.len() == 8,
{
    (s[0] as u64) | (s[1] as u64) << 8 | (s[2] as u64) << 16 | (s[3] as u64) << 24
        | (s[4] as u64) << 32 | (s[5] as u64) << 40 | (s[6] as u64) << 48 | (s[7] as u64) << 56
}

/// The signed 64-bit integer read from eight little-endian bytes.
pub open spec fn le_bytes_to_i64(s: Seq<u8>) -> i64
    recommends
        s.len() == 8,
{
    le_bytes_to_u64(s) as i64
}

/// Reading back the little-endian bytes of an unsigned 32-bit integer
/// yields the integer.
pub proof fn lemma_u32_le_round_trip(x: u32)
    ensures
        le_bytes_to_u32(u32_le_bytes(x)) == x,
{
    assert((x as u8 as u32) | ((x >> 8) as u8 as u32) << 8 | ((x >> 16) as u8 as u32) << 16
        | ((x >> 24) as u8 as u32) << 24 == x) by (bit_vector);
}

/// Reading back the little-endian bytes of an unsigned 64-bit integer
/// yields the integer.
pub proof fn lemma_u64_le_round_trip(x: u64)
    ensures
        le_bytes_to_u64(u64_le_bytes(x)) == x,
{
    assert((x as u8 as u64) | ((x >> 8) as u8 as u64) << 8 | ((x >> 16) as u8 as u64) << 16
        | ((x >> 24) as u8 as u64) << 24 | ((x >> 32) as u8 as u64) << 32
        | ((x >> 40) as u8 as u64) << 40 | ((x >> 48) as u8 as u64) << 48
        | ((x >> 56) as u8 as u64) << 56 == x) by (bit_vector);
}

/// Reading back the little-endian bytes of a signed 64-bit integer yields
/// the integer.
pub proof fn lemma_i64_le_round_trip(x: i64)
    ensures
        le_bytes_to_i64(i64_le_bytes(x)) == x,
{
    lemma_u64_le_round_trip(x as u64);
    assert((x as u64) as i64 == x) by (bit_vector);
}

/// Distinct unsigned 64-bit integers have distinct little-endian bytes.
pub proof fn lemma_u64_le_bytes_injective(x: u64, y: u64)
    requires
        u64_le_bytes(x) == u64_le_bytes(y),
    ensures
        x == y,
{
    lemma_u64_le_round_trip(x);
    lemma_u64_le_round_trip(y);
}

/// Append the little-endian bytes of an unsigned 32-bit integer.
pub fn push_u32_le(out: &mut Vec<u8>, x: u32)
    ensures
        final(out)@ == old(out)@ + u32_le_bytes(x),
{
    out.push(#[verifier::truncate] (x as u8));
    out.push(#[verifier::truncate] ((x >> 8) as u8));
    out.push(#[verifier::truncate] ((x >> 16) as u8));
    out.push(#[verifier::truncate] ((x >> 24) as u8));
    assert(out@ =~= old(out)@ + u32_le_bytes(x));
}

/// Append the little-endian bytes of an unsigned 64-bit integer.
pub fn push_u64_le(out: &mut Vec<u8>, x: u64)
    ensures
        final(out)@ == old(out)@ + u64_le_bytes(x),
{
    out.push(#[verifier::truncate] (x as u8));
    out.push(#[verifier::truncate] ((x >> 8) as u8));
    out.push(#[verifier::truncate] ((x >> 16) as u8));
    out.push(#[verifier::truncate] ((x >> 24) as u8));
    out.push(#[verifier::truncate] ((x >> 32) as u8));
    out.push(#[verifier::truncate] ((x >> 40) as u8));
    out.push(#[verifier::truncate] ((x >> 48) as u8));
    out.push(#[verifier::truncate] ((x >> 56) as u8));
    assert(out@ =~= old(out)@ + u64_le_bytes(x));
}

/// Append the little-endian bytes of a signed 64-bit integer.
pub fn push_i64_le(out: &mut Vec<u8>, x: i64)
    ensures
        final(out)@ == old(out)@ + i64_le_bytes(x),
{
    push_u64_le(out, #[verifier::truncate] (x as u64));
}

/// Read an unsigned 32-bit integer from four little-endian bytes of `b`
/// starting at `off`.
pub fn read_u32_le(b: &Vec<u8>, off: usize) -> (r: u32)
    requires
        off + 4 <= b.len(),
    ensures
        r == le_bytes_to_u32(b@.subrange(off as int, off as int + 4)),
{
    let r = (b[off] as u32) | (b[off + 1] as u32) << 8 | (b[off + 2] as u32) << 16
        | (b[off + 3] as u32) << 24;
    proof {
        let s = b@.subrange(off as int, off as int + 4);
        assert(s[0] == b@[off as int] && s[1] == b@[off as int + 1] && s[2] == b@[off as int + 2]
            && s[3] == b@[off as int + 3]);
    }
    r
}

/// Read an unsigned 64-bit integer from eight little-endian bytes of `b`
/// starting at `off`.
pub fn read_u64_le(b: &Vec<u8>, off: usize) -> (r: u64)
    requires
        off + 8 <= b.len(),
    ensures
        r == le_bytes_to_u64(b@.subrange(off as int, off as int + 8)),
{
    let r = (b[off] as u64) | (b[off + 1] as u64) << 8 | (b[off + 2] as u64) << 16
        | (b[off + 3] as u64) << 24 | (b[off + 4] as u64) << 32 | (b[off + 5] as u64) << 40
        | (b[off + 6] as u64) << 48 | (b[off + 7] as u64) << 56;
    proof {
        let s = b@.subrange(off as int, off as int + 8);
        assert(s[0] == b@[off as int] && s[1] == b@[off as int + 1] && s[2] == b@[off as int + 2]
            && s[3] == b@[off as int + 3] && s[4] == b@[off as int + 4] && s[5] == b@[off as int
            + 5] && s[6] == b@[off as int + 6] && s[7] == b@[off as int + 7]);
    }
    r
}

/// Read a signed 64-bit integer from eight little-endian bytes of `b`
/// starting at `off`.
pub fn read_i64_le(b: &Vec<u8>, off: usize) -> (r: i64)
    requires
        off + 8 <= b.len(),
    ensures
        r == le_bytes_to_i64(b@.subrange(off as int, off as int + 8)),
{
    let x = read_u64_le(b, off);
    #[verifier::truncate] (x as i64)
}

/// One length-prefixed text field: four little-endian length bytes, then
/// the UTF-8 payload.
pub open spec fn field_bytes(s: Seq<char>) -> Seq<u8> {
    u32_le_bytes(encode_utf8(s).len() as u32) + encode_utf8(s)
}

/// The serialized content of a record, before padding: tag, three texts,
/// quantity, timestamp.
pub open spec fn record_bytes(r: ImpactView) -> Seq<u8> {
    u64_le_bytes(RECORD_TAG) + field_bytes(r.donor) + field_bytes(r.ngo) + field_bytes(r.medicine)
        + u64_le_bytes(r.quantity) + i64_le_bytes(r.timestamp)
}

/// The full fixed-size image of a record: its content, zero-padded to the
/// fixed allocation size.
pub open spec fn record_image(r: ImpactView) -> Seq<u8> {
    record_bytes(r) + Seq::new((RECORD_SPACE - record_bytes(r).len()) as nat, |i: int| 0u8)
}

/// The full fixed-size image of the counter: its tag, then the count.
pub open spec fn counter_image(count: u64) -> Seq<u8> {
    u64_le_bytes(COUNTER_TAG) + u64_le_bytes(count)
}

/// A well-formed record's content fits the fixed allocation.
pub proof fn lemma_record_bytes_len(r: ImpactView)
    requires
        r.wf(),
    ensures
        record_bytes(r).len() == 36 + encode_utf8(r.donor).len() + encode_utf8(r.ngo).len()
            + encode_utf8(r.medicine).len(),
        record_bytes(r).len() <= RECORD_SPACE,
{
}

/// Append one length-prefixed text field.
fn push_field(out: &mut Vec<u8>, s: &String)
    requires
        encode_utf8(s@).len() <= MAX_FIELD_BYTES,
    ensures
        final(out)@ == old(out)@ + field_bytes(s@),
{
    let bytes = s.as_str().as_bytes_vec();
    push_u32_le(out, bytes.len() as u32);
    let mut rest = bytes;
    out.append(&mut rest);
    assert(out@ =~= old(out)@ + field_bytes(s@));
}

/// Serialize a record into its fixed-size image. A record whose texts
/// exceed their byte budget is rejected whole: nothing is ever truncated.
pub fn encode_record(r: &Impact) -> (out: Result<Vec<u8>, ErrorCode>)
    ensures
        match out {
            Ok(v) => {
                &&& r@.wf()
                &&& v@ == record_image(r@)
                &&& v@.len() == RECORD_SPACE
            },
            Err(e) => {
                &&& e == ErrorCode::EncodingTooLarge
                &&& !r@.wf()
            },
        },
{
    if r.donor.as_str().as_bytes_vec().len() > MAX_FIELD_BYTES
        || r.ngo.as_str().as_bytes_vec().len() > MAX_FIELD_BYTES
        || r.medicine.as_str().as_bytes_vec().len() > MAX_FIELD_BYTES {
        return Err(ErrorCode::EncodingTooLarge);
    }
    proof {
        lemma_record_bytes_len(r@);
    }
    let mut out: Vec<u8> = Vec::new();
    push_u64_le(&mut out, RECORD_TAG);
    push_field(&mut out, &r.donor);
    push_field(&mut out, &r.ngo);
    push_field(&mut out, &r.medicine);
    push_u64_le(&mut out, r.quantity);
    push_i64_le(&mut out, r.timestamp);
    assert(out@ =~= record_bytes(r@));
    let ghost content_len = out@.len();
    while out.len() < RECORD_SPACE
        invariant
            content_len <= RECORD_SPACE,
            content_len <= out@.len() <= RECORD_SPACE,
            out@ == record_bytes(r@) + Seq::new((out@.len() - content_len) as nat, |i: int| 0u8),
        decreases RECORD_SPACE - out.len(),
    {
        out.push(0u8);
        assert(out@ =~= record_bytes(r@) + Seq::new((out@.len() - content_len) as nat, |i: int| 0u8));
    }
    assert(out@ =~= record_image(r@));
    Ok(out)
}

/// Serialize the counter into its fixed-size image.
pub fn encode_counter(count: u64) -> (out: Vec<u8>)
    ensures
        out@ == counter_image(count),
        out@.len() == COUNTER_SPACE,
{
    let mut out: Vec<u8> = Vec::new();
    push_u64_le(&mut out, COUNTER_TAG);
    push_u64_le(&mut out, count);
    assert(out@ =~= counter_image(count));
    out
}

/// Relies on String::from_utf8: it builds the string holding exactly the
/// given bytes when they are valid UTF-8, and rejects exactly the byte
/// sequences that are not.
#[verifier::external_body]
fn string_from_utf8(v: Vec<u8>) -> (r: Option<String>)
    ensures
        match r {
            Some(s) => valid_utf8(v@) && encode_utf8(s@) == v@,
            None => !valid_utf8(v@),
        },
{
    String::from_utf8(v).ok()
}

/// Copy the bytes of `b` between `start` and `end` into a fresh vector.
fn copy_range(b: &Vec<u8>, start: usize, end: usize) -> (out: Vec<u8>)
    requires
        start <= end <= b@.len(),
    ensures
        out@ == b@.subrange(start as int, end as int),
{
    let mut out: Vec<u8> = Vec::new();
    let mut i = start;
    while i < end
        invariant
            start <= i <= end <= b@.len(),
            out@ == b@.subrange(start as int, i as int),
        decreases end - i,
    {
        out.push(b[i]);
        i = i + 1;
        assert(out@ =~= b@.subrange(start as int, i as int));
    }
    out
}

/// What parsing one length-prefixed text field at offset `off` yields: the
/// decoded characters and the offset just past the field, or nothing if the
/// length prefix oversteps its budget or the buffer, or the payload is not
/// UTF-8.
pub open spec fn parse_field(bytes: Seq<u8>, off: int) -> Option<(Seq<char>, int)> {
    if off + 4 > bytes.len() {
        None
    } else {
        let l = le_bytes_to_u32(bytes.subrange(off, off + 4)) as int;
        if l > MAX_FIELD_BYTES || off + 4 + l > bytes.len() {
            None
        } else {
            let payload = bytes.subrange(off + 4, off + 4 + l);
            if valid_utf8(payload) {
                Some((decode_utf8(payload), off + 4 + l))
            } else {
                None
            }
        }
    }
}

/// What parsing a full record image yields. A buffer parses exactly when it
/// has the fixed size, opens with the record tag, carries three well-formed
/// text fields and the two integers, and is zero-padded to the end.
pub open spec fn parse_record(bytes: Seq<u8>) -> Option<ImpactView> {
    if bytes.len() != RECORD_SPACE {
        None
    } else if le_bytes_to_u64(bytes.subrange(0, 8)) != RECORD_TAG {
        None
    } else {
        match parse_field(bytes, 8) {
            None => None,
            Some((donor, o1)) => match parse_field(bytes, o1) {
                None => None,
                Some((ngo, o2)) => match parse_field(bytes, o2) {
                    None => None,
                    Some((medicine, o3)) => {
                        let quantity = le_bytes_to_u64(bytes.subrange(o3, o3 + 8));
                        let timestamp = le_bytes_to_i64(bytes.subrange(o3 + 8, o3 + 16));
                        if forall|i: int| o3 + 16 <= i < bytes.len() ==> bytes[i] == 0u8 {
                            Some(ImpactView { donor, ngo, medicine, quantity, timestamp })
                        } else {
                            None
                        }
                    },
                },
            },
        }
    }
}

/// What parsing a counter image yields: the count, if the buffer has the
/// fixed size and opens with the counter tag.
pub open spec fn parse_counter(bytes: Seq<u8>) -> Option<u64> {
    if bytes.len() != COUNTER_SPACE {
        None
    } else if le_bytes_to_u64(bytes.subrange(0, 8)) != COUNTER_TAG {
        None
    } else {
        Some(le_bytes_to_u64(bytes.subrange(8, 16)))
    }
}

/// Read one length-prefixed text field at offset `off`, yielding the text
/// and the offset just past the field.
fn read_field(bytes: &Vec<u8>, off: usize) -> (r: Option<(String, usize)>)
    ensures
        match r {
            Some(p) => parse_field(bytes@, off as int) == Some((p.0@, p.1 as int)),
            None => parse_field(bytes@, off as int) is None,
        },
{
    let n: usize = bytes.len();
    if n < 4 || off > n - 4 {
        return None;
    }
    let l = read_u32_le(bytes, off) as usize;
    if l > MAX_FIELD_BYTES || l > n - (off + 4) {
        return None;
    }
    let payload = copy_range(bytes, off + 4, off + 4 + l);
    match string_from_utf8(payload) {
        None => None,
        Some(s) => {
            proof {
                vstd::utf8::encode_utf8_decode_utf8(s@);
            }
            Some((s, off + 4 + l))
        },
    }
}

/// Deserialize a record from its fixed-size image. Exactly the buffers
/// that the layout describes are accepted; everything else yields nothing.
pub fn decode_record(bytes: &Vec<u8>) -> (r: Option<Impact>)
    ensures
        match r {
            Some(rec) => parse_record(bytes@) == Some(rec@),
            None => parse_record(bytes@) is None,
        },
{
    let n: usize = bytes.len();
    if n != RECORD_SPACE {
        return None;
    }
    let tag = read_u64_le(bytes, 0);
    if tag != RECORD_TAG {
        return None;
    }
    let (donor, o1) = match read_field(bytes, 8) {
        None => {
            return None;
        },
        Some(p) => p,
    };
    let (ngo, o2) = match read_field(bytes, o1) {
        None => {
            return None;
        },
        Some(p) => p,
    };
    let (medicine, o3) = match read_field(bytes, o2) {
        None => {
            return None;
        },
        Some(p) => p,
    };
    assert(o3 + 16 <= RECORD_SPACE);
    let quantity = read_u64_le(bytes, o3);
    let timestamp = read_i64_le(bytes, o3 + 8);
    let mut i = o3 + 16;
    while i < n
        invariant
            o3 + 16 <= i <= n == bytes@.len(),
            n == RECORD_SPACE,
            le_bytes_to_u64(bytes@.subrange(0, 8)) == RECORD_TAG,
            parse_field(bytes@, 8) == Some((donor@, o1 as int)),
            parse_field(bytes@, o1 as int) == Some((ngo@, o2 as int)),
            parse_field(bytes@, o2 as int) == Some((medicine@, o3 as int)),
            quantity == le_bytes_to_u64(bytes@.subrange(o3 as int, o3 as int + 8)),
            timestamp == le_bytes_to_i64(bytes@.subrange(o3 as int + 8, o3 as int + 16)),
            forall|j: int| o3 + 16 <= j < i ==> bytes@[j] == 0u8,
        decreases n - i,
    {
        if bytes[i] != 0 {
            assert(!(forall|j: int| o3 + 16 <= j < bytes@.len() ==> bytes@[j] == 0u8));
            return None;
        }
        i = i + 1;
    }
    Some(Impact { donor, ngo, medicine, quantity, timestamp })
}

/// Deserialize the counter from its fixed-size image.
pub fn decode_counter(bytes: &Vec<u8>) -> (r: Option<u64>)
    ensures
        r == parse_counter(bytes@),
{
    if bytes.len() != COUNTER_SPACE {
        return None;
    }
    let tag = read_u64_le(bytes, 0);
    if tag != COUNTER_TAG {
        return None;
    }
    Some(read_u64_le(bytes, 8))
}

/// Writing the counter and reading it back yields the exact same count.
pub proof fn lemma_counter_round_trip(count: u64)
    ensures
        parse_counter(counter_image(count)) == Some(count),
{
    let img = counter_image(count);
    assert(img.subrange(0, 8) =~= u64_le_bytes(COUNTER_TAG));
    assert(img.subrange(8, 16) =~= u64_le_bytes(count));
    lemma_u64_le_round_trip(COUNTER_TAG);
    lemma_u64_le_round_trip(count);
}

/// Writing a record and reading it back yields the exact same field
/// values: the fixed-size image of any record within the size limits
/// parses to precisely that record.
#[verifier::rlimit(50)]
pub proof fn lemma_record_round_trip(r: ImpactView)
    requires
        r.wf(),
    ensures
        parse_record(record_image(r)) == Some(r),
{
    let db = encode_utf8(r.donor);
    let nb = encode_utf8(r.ngo);
    let mb = encode_utf8(r.medicine);
    let dl = db.len() as int;
    let nl = nb.len() as int;
    let ml = mb.len() as int;
    let t = u64_le_bytes(RECORD_TAG);
    let f1 = field_bytes(r.donor);
    let f2 = field_bytes(r.ngo);
    let f3 = field_bytes(r.medicine);
    let q = u64_le_bytes(r.quantity);
    let s = i64_le_bytes(r.timestamp);
    let rb = record_bytes(r);
    let img = record_image(r);
    lemma_record_bytes_len(r);
    assert(f1.len() == 4 + dl && f2.len() == 4 + nl && f3.len() == 4 + ml);
    assert(img.len() == RECORD_SPACE);
    let o1 = 12 + dl;
    let o2 = o1 + 4 + nl;
    let o3 = o2 + 4 + ml;

    assert(img.subrange(0, 8) =~= t);
    lemma_u64_le_round_trip(RECORD_TAG);

    assert(img.subrange(8, 12) =~= u32_le_bytes(db.len() as u32));
    assert(img.subrange(12, 12 + dl) =~= db);
    lemma_u32_le_round_trip(db.len() as u32);
    vstd::utf8::encode_utf8_valid_utf8(r.donor);
    vstd::utf8::encode_utf8_decode_utf8(r.donor);
    assert(parse_field(img, 8) == Some((r.donor, o1)));

    assert(img.subrange(o1, o1 + 4) =~= u32_le_bytes(nb.len() as u32));
    assert(img.subrange(o1 + 4, o1 + 4 + nl) =~= nb);
    lemma_u32_le_round_trip(nb.len() as u32);
    vstd::utf8::encode_utf8_valid_utf8(r.ngo);
    vstd::utf8::encode_utf8_decode_utf8(r.ngo);
    assert(parse_field(img, o1) == Some((r.ngo, o2)));

    assert(img.subrange(o2, o2 + 4) =~= u32_le_bytes(mb.len() as u32));
    assert(img.subrange(o2 + 4, o2 + 4 + ml) =~= mb);
    lemma_u32_le_round_trip(mb.len() as u32);
    vstd::utf8::encode_utf8_valid_utf8(r.medicine);
    vstd::utf8::encode_utf8_decode_utf8(r.medicine);
    assert(parse_field(img, o2) == Some((r.medicine, o3)));

    assert(img.subrange(o3, o3 + 8) =~= q);
    lemma_u64_le_round_trip(r.quantity);
    assert(img.subrange(o3 + 8, o3 + 16) =~= s);
    lemma_i64_le_round_trip(r.timestamp);

    assert(o3 + 16 == rb.len());
    assert(forall|i: int| o3 + 16 <= i < img.len() ==> img[i] == 0u8);
}

} // verus!

