//! The static asset encoder: frames a whitelisted file's bytes in HTTP/1.1
//! chunked transfer encoding behind fixed headers.

use std::io::Write;
use vstd::prelude::*;
use vstd::utf8::encode_utf8;

verus! {

/// The chunk size assets are framed with.
pub open spec fn chunk_size() -> nat {
    8
}

/// HTTP/1.1 chunked transfer framing of `d` with chunks of `chunk_size()`
/// bytes: each chunk is its length as one hex digit (the sizes reached never
/// exceed 8, so one decimal-looking digit suffices), CRLF, the bytes, CRLF;
/// a zero-sized chunk closes the stream.
pub open spec fn chunked_of(d: Seq<u8>) -> Seq<u8>
    decreases d.len(),
{
    if d.len() == 0 {
        seq![48u8, 13u8, 10u8, 13u8, 10u8]
    } else {
        let n = if d.len() < chunk_size() {
            d.len()
        } else {
            chunk_size()
        };
        seq![(48 + n) as u8, 13u8, 10u8] + d.subrange(0, n as int) + seq![13u8, 10u8]
            + chunked_of(d.subrange(n as int, d.len() as int))
    }
}

/// The fixed headers sent before a chunked asset body.
pub open spec fn asset_headers() -> Seq<char> {
    "HTTP/1.1 200 OK\r\nContent-type: image/jpeg\r\nTransfer-Encoding: chunked\r\n\r\n"@
}

/// Relies on `chunked_transfer::Encoder`: writing all of `data` through an
/// encoder with chunk size 8 emits, for each full or final partial chunk,
/// its length in hex, CRLF, the chunk, CRLF, and on drop the closing
/// `0\r\n\r\n`; writes to a `Vec` never fail.
#[verifier::external_body]
fn chunk_encode(data: &Vec<u8>) -> (r: Vec<u8>)
    ensures
        r@ == chunked_of(data@),
{
    let mut encoded = Vec::new();
    {
        let mut encoder = chunked_transfer::Encoder::with_chunks_size(&mut encoded, 8);
        encoder.write_all(data).unwrap();
    }
    encoded
}

/// The fixed response sent when a whitelisted file cannot be read.
pub open spec fn asset_error() -> Seq<char> {
    "HTTP/1.1 500 INTERNAL_SERVER_ERROR\r\nContent-Length: 0\r\n\r\n"@
}

/// The response for a whitelisted asset whose bytes could not be read:
/// a server error, never a crash.
pub fn asset_error_response() -> (r: String)
    ensures
        r@ == asset_error(),
{
    let mut r = String::new();
    r.append("HTTP/1.1 500 INTERNAL_SERVER_ERROR\r\nContent-Length: 0\r\n\r\n");
    r
}

/// The full response for a whitelisted asset: the fixed headers, then the
/// file's bytes in chunked framing.
pub fn asset_response(data: &Vec<u8>) -> (r: Vec<u8>)
    ensures
        r@ == encode_utf8(asset_headers()) + chunked_of(data@),
{
    let headers =
        "HTTP/1.1 200 OK\r\nContent-type: image/jpeg\r\nTransfer-Encoding: chunked\r\n\r\n";
    let mut r = headers.as_bytes_vec();
    let mut encoded = chunk_encode(data);
    r.append(&mut encoded);
    r
}

} // verus!
