//! The persisted chunk payload: the raw 4096-byte id buffer behind a
//! length-prefixed frame (a little-endian 64-bit byte count, then the
//! bytes), passed through a gzip stream compressor. Framing and validation
//! are verified; only the compressor itself is trusted.

use std::io::Read;
use std::io::Write;
use vstd::prelude::*;

use crate::chunk::{chunk_wf, Chunk, CHUNK_VOLUME};

verus! {

/// What the gzip compressor returns for a given input. flate2 writes a
/// reproducible stream (zero timestamp, fixed OS byte), so the output is a
/// function of the input bytes alone.
pub uninterp spec fn gzip_of(data: Seq<u8>) -> Seq<u8>;

/// Relies on flate2's GzEncoder: compressing a buffer yields the
/// reproducible gzip stream for exactly those bytes.
#[verifier::external_body]
fn gzip_compress(data: &Vec<u8>) -> (r: Vec<u8>)
    ensures
        r@ == gzip_of(data@),
{
    let mut encoder = flate2::write::GzEncoder::new(Vec::new(), flate2::Compression::fast());
    match encoder.write_all(data.as_slice()) {
        Ok(()) => {},
        Err(_) => {},
    }
    match encoder.finish() {
        Ok(out) => out,
        Err(_) => Vec::new(),
    }
}

/// What the gzip decompressor returns for a given input, if it accepts it:
/// like the compressor, flate2's decoding depends on the input bytes alone.
pub uninterp spec fn gunzip_of(data: Seq<u8>) -> Option<Seq<u8>>;

/// Relies on flate2's GzDecoder: decompression is a function of the input
/// bytes alone, and gzip is lossless, so decompressing the stream the
/// compressor produced for some buffer yields that buffer back.
#[verifier::external_body]
fn gzip_decompress(data: &Vec<u8>) -> (r: Option<Vec<u8>>)
    ensures
        r is Some ==> gunzip_of(data@) == Some(r->Some_0@),
        r is None ==> gunzip_of(data@) is None,
        forall|orig: Seq<u8>|
            data@ == gzip_of(orig) ==> r is Some && r->Some_0@ == orig,
{
    let mut decoder = flate2::read::GzDecoder::new(data.as_slice());
    let mut out = Vec::new();
    match decoder.read_to_end(&mut out) {
        Ok(_) => Some(out),
        Err(_) => None,
    }
}

/// The eight little-endian digits of a byte count.
pub open spec fn spec_len_le(n: u64) -> Seq<u8> {
    seq![
        (n as int % 256) as u8,
        (n as int / 256 % 256) as u8,
        (n as int / 65536 % 256) as u8,
        (n as int / 16777216 % 256) as u8,
        (n as int / 4294967296 % 256) as u8,
        (n as int / 1099511627776 % 256) as u8,
        (n as int / 281474976710656 % 256) as u8,
        (n as int / 72057594037927936 % 256) as u8,
    ]
}

/// The value the eight little-endian digits stand for.
pub open spec fn spec_len_value(b: Seq<u8>) -> int {
    b[0] + b[1] * 256 + b[2] * 65536 + b[3] * 16777216 + b[4] * 4294967296 + b[5]
        * 1099511627776 + b[6] * 281474976710656 + b[7] * 72057594037927936
}

/// A framed buffer: its length as eight little-endian bytes, then itself.
pub open spec fn spec_frame(data: Seq<u8>) -> Seq<u8> {
    spec_len_le(data.len() as u64) + data
}

/// What unframing accepts and returns: exactly the buffers of at least
/// eight bytes whose length prefix counts the remaining bytes.
pub open spec fn spec_unframe(d: Seq<u8>) -> Option<Seq<u8>> {
    if d.len() >= 8 && spec_len_value(d.subrange(0, 8)) == d.len() - 8 {
        Some(d.skip(8))
    } else {
        None
    }
}

/// What decoding a persisted payload yields: the decompressed, unframed
/// buffer, exactly when it decompresses, unframes and spans 4096 cells.
pub open spec fn spec_decode_payload(d: Seq<u8>) -> Option<Seq<u8>> {
    match gunzip_of(d) {
        Some(u) => match spec_unframe(u) {
            Some(body) => if body.len() == CHUNK_VOLUME {
                Some(body)
            } else {
                None
            },
            None => None,
        },
        None => None,
    }
}

/// Reading back the eight digits of a count restores the count.
pub proof fn lemma_len_le_value(n: u64)
    ensures
        spec_len_value(spec_len_le(n)) == n,
{
    let x = n as int;
    vstd::arithmetic::div_mod::lemma_mod_breakdown(x, 256, 256);
    vstd::arithmetic::div_mod::lemma_mod_breakdown(x, 65536, 256);
    vstd::arithmetic::div_mod::lemma_mod_breakdown(x, 16777216, 256);
    vstd::arithmetic::div_mod::lemma_mod_breakdown(x, 4294967296, 256);
    vstd::arithmetic::div_mod::lemma_mod_breakdown(x, 1099511627776, 256);
    vstd::arithmetic::div_mod::lemma_mod_breakdown(x, 281474976710656, 256);
    vstd::arithmetic::div_mod::lemma_mod_breakdown(x, 72057594037927936, 256);
    vstd::arithmetic::div_mod::lemma_small_mod(n as nat, 18446744073709551616nat);
}

/// Frame a buffer: eight little-endian length bytes, then the bytes.
fn frame_bytes(data: &Vec<u8>) -> (r: Vec<u8>)
    requires
        data@.len() < 4294967296,
    ensures
        r@ == spec_frame(data@),
{
    let n = data.len() as u64;
    let mut out: Vec<u8> = Vec::new();
    out.push((n % 256) as u8);
    out.push((n / 256 % 256) as u8);
    out.push((n / 65536 % 256) as u8);
    out.push((n / 16777216 % 256) as u8);
    out.push((n / 4294967296 % 256) as u8);
    out.push((n / 1099511627776 % 256) as u8);
    out.push((n / 281474976710656 % 256) as u8);
    out.push((n / 72057594037927936 % 256) as u8);
    let mut i: usize = 0;
    while i < data.len()
        invariant
            out@.len() == 8 + i,
            i <= data@.len(),
            out@.subrange(0, 8) == spec_len_le(n),
            out@.subrange(8, out@.len() as int) == data@.subrange(0, i as int),
        decreases data@.len() - i,
    {
        out.push(data[i]);
        proof {
            assert(out@.subrange(0, 8) =~= spec_len_le(n));
            assert(out@.subrange(8, out@.len() as int) =~= data@.subrange(0, i + 1));
        }
        i += 1;
    }
    proof {
        assert(out@.len() == spec_frame(data@).len());
        assert forall|j: int| 0 <= j < out@.len() implies out@[j] == spec_frame(data@)[j] by {
            if j < 8 {
                assert(out@[j] == out@.subrange(0, 8)[j]);
            } else {
                assert(out@[j] == out@.subrange(8, out@.len() as int)[j - 8]);
                assert(data@.subrange(0, data@.len() as int)[j - 8] == data@[j - 8]);
            }
        }
        assert(out@ =~= spec_frame(data@));
    }
    out
}

/// Unframe a buffer: the frame is valid exactly when it is at least eight
/// bytes long and its length prefix counts the remaining bytes; the payload
/// comes back unchanged. In particular, unframing any framed buffer
/// restores it.
fn unframe_bytes(data: &Vec<u8>) -> (r: Option<Vec<u8>>)
    ensures
        r is Some <==> spec_unframe(data@) is Some,
        r is Some ==> Some(r->Some_0@) == spec_unframe(data@),
        forall|orig: Seq<u8>|
            data@ == spec_frame(orig) && orig.len() < 4294967296 ==> r is Some && r->Some_0@
                == orig,
{
    if data.len() < 8 {
        proof {
            assert forall|orig: Seq<u8>|
                data@ == spec_frame(orig) && orig.len() < 4294967296 implies false by {}
        }
        return None;
    }
    let b0 = data[0] as u64;
    let b1 = data[1] as u64;
    let b2 = data[2] as u64;
    let b3 = data[3] as u64;
    let b4 = data[4] as u64;
    let b5 = data[5] as u64;
    let b6 = data[6] as u64;
    let b7 = data[7] as u64;
    // Eight base-256 digits always fit a u64 exactly.
    let len_minus_8 = (data.len() - 8) as u64;
    let value: u64 = b0 + b1 * 256 + b2 * 65536 + b3 * 16777216 + b4 * 4294967296 + b5
        * 1099511627776 + b6 * 281474976710656 + b7 * 72057594037927936;
    proof {
        assert(spec_len_value(data@.subrange(0, 8)) == value);
    }
    if value != len_minus_8 {
        proof {
            assert forall|orig: Seq<u8>|
                data@ == spec_frame(orig) && orig.len() < 4294967296 implies false by {
                assert(data@.subrange(0, 8) =~= spec_len_le(orig.len() as u64));
                lemma_len_le_value(orig.len() as u64);
            }
        }
        return None;
    }
    let mut out: Vec<u8> = Vec::new();
    let mut i: usize = 8;
    while i < data.len()
        invariant
            8 <= i <= data@.len(),
            out@ == data@.subrange(8, i as int),
        decreases data@.len() - i,
    {
        out.push(data[i]);
        proof {
            assert(out@ =~= data@.subrange(8, i + 1));
        }
        i += 1;
    }
    proof {
        assert(out@ =~= data@.subrange(8, data@.len() as int));
        assert(out@ =~= data@.skip(8));
        assert forall|orig: Seq<u8>|
            data@ == spec_frame(orig) && orig.len() < 4294967296 implies out@ == orig by {
            assert(data@.subrange(8, data@.len() as int) =~= orig);
        }
    }
    Some(out)
}

/// Encode a chunk for persistence: the raw buffer, framed, compressed.
pub fn encode_chunk_payload(c: &Chunk) -> (r: Vec<u8>)
    requires
        chunk_wf(*c),
    ensures
        r@ == gzip_of(spec_frame(c@)),
{
    let raw = c.serialize();
    let framed = frame_bytes(&raw);
    gzip_compress(&framed)
}

/// Decode a persisted chunk payload. Any payload the encoder produced for
/// a chunk decodes back to that chunk, cell for cell; a corrupt payload —
/// a broken stream, a bad frame, a wrong buffer size — yields `None`, so
/// callers fall back to regeneration.
pub fn decode_chunk_payload(data: &Vec<u8>) -> (r: Option<Chunk>)
    ensures
        r is Some <==> spec_decode_payload(data@) is Some,
        r is Some ==> chunk_wf(r->Some_0) && Some(r->Some_0@) == spec_decode_payload(data@),
        forall|c: Seq<u8>|
            data@ == gzip_of(spec_frame(c)) && c.len() == CHUNK_VOLUME ==> r is Some && (r
                ->Some_0)@ == c,
{
    let decompressed = match gzip_decompress(data) {
        Some(d) => d,
        None => {
            return None;
        },
    };
    let payload = match unframe_bytes(&decompressed) {
        Some(p) => p,
        None => {
            return None;
        },
    };
    Chunk::deserialize(payload.as_slice())
}

} // verus!
