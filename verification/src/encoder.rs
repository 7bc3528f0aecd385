//! Coding of saved buffers: gzip on the way to disk, gunzip on the way back.

use vstd::prelude::*;
use vstd::utf8::{decode_utf8, encode_utf8, encode_utf8_decode_utf8, encode_utf8_valid_utf8, valid_utf8};
use flate2::Compression;
use flate2::write::GzEncoder;
use flate2::read::GzDecoder;
use std::io::Read;
use std::io::Write;

verus! {

/// The gzip stream that flate2's `GzEncoder` writes for `data` at the
/// default compression level (its header carries no time stamp and a fixed
/// system byte, so the stream depends on `data` alone).
pub uninterp spec fn gzip_compressed(data: Seq<u8>) -> Seq<u8>;

/// What flate2's `GzDecoder`, read to the end, gives for `data`, or `None`
/// where it reports an error (as it does where `data` is no gzip stream).
pub uninterp spec fn gzip_decompressed(data: Seq<u8>) -> Option<Seq<u8>>;

/// A complete gzip member as flate2 writes it: the magic bytes, the
/// deflate method, and at least the 10-byte header and 8-byte trailer.
pub open spec fn is_gzip_member(s: Seq<u8>) -> bool {
    &&& s.len() >= 18
    &&& s[0] == 0x1f
    &&& s[1] == 0x8b
    &&& s[2] == 8
}

/// A way of turning buffers into their stored form and back. Decoding may
/// fail; it then hands back a report of the failure, if the coder makes
/// reports.
pub trait Encoder {
    fn encode(&self, data: &mut Vec<u8>);

    fn decode(&self, data: &mut Vec<u8>) -> Option<CodingFailure>;
}

/// A failed decoding: the decoder's error, and the bytes it was given.
pub struct CodingFailure {
    pub error: String,
    pub input: Vec<u8>,
}

/// The gzip coding of buffers.
pub struct GzBytes {
    log: bool,
}

/// What replaces a buffer once it was coded: the coded bytes, or nothing
/// where coding failed.
pub open spec fn coded_or_empty(coded: Option<Seq<u8>>) -> Seq<u8> {
    match coded {
        Some(bytes) => bytes,
        None => Seq::empty(),
    }
}

/// What encoding leaves in a buffer that held `original`: its gzip stream,
/// from which the decoder reads `original` back.
pub open spec fn encode_outcome(original: Seq<u8>, stored: Seq<u8>) -> bool {
    &&& stored == gzip_compressed(original)
    &&& gzip_decompressed(stored) == Some(original)
    &&& is_gzip_member(stored)
}

/// What decoding leaves in a buffer that held `stored`.
pub open spec fn decode_outcome(stored: Seq<u8>) -> Seq<u8> {
    coded_or_empty(gzip_decompressed(stored))
}

/// Decoding what encoding stored gives the buffer back, for every buffer.
pub proof fn law_decode_undoes_encode(original: Seq<u8>, stored: Seq<u8>)
    requires
        encode_outcome(original, stored),
    ensures
        decode_outcome(stored) == original,
{
}

/// Encoding equal buffers stores equal bytes.
pub proof fn law_encode_is_deterministic(
    original1: Seq<u8>,
    stored1: Seq<u8>,
    original2: Seq<u8>,
    stored2: Seq<u8>,
)
    requires
        encode_outcome(original1, stored1),
        encode_outcome(original2, stored2),
        original1 == original2,
    ensures
        stored1 == stored2,
{
}

/// A text saved as its UTF-8 bytes, encoded, is loaded back unchanged:
/// decoding gives its bytes back, and they are valid UTF-8 that reads as
/// the same text.
pub proof fn law_saved_text_loads_back(text: Seq<char>, stored: Seq<u8>)
    requires
        encode_outcome(encode_utf8(text), stored),
    ensures
        decode_outcome(stored) == encode_utf8(text),
        valid_utf8(decode_outcome(stored)),
        decode_utf8(decode_outcome(stored)) == text,
{
    encode_utf8_valid_utf8(text);
    encode_utf8_decode_utf8(text);
}

impl GzBytes {
    /// A gzip coder that reports its failures.
    pub fn new() -> (g: GzBytes)
        ensures
            g.reports_failures(),
    {
        GzBytes { log: true }
    }

    /// Whether a failed decoding hands back a report of the failure.
    pub closed spec fn reports_failures(self) -> bool {
        self.log
    }

    /// Calls flate2's `GzDecoder::new` on `bytes` and reads it to the end.
    /// Trusted: the result is `gzip_decompressed(bytes)`; an error comes
    /// back as its `Debug` text, of which nothing is said.
    #[verifier::external_body]
    fn gzdecode(&self, bytes: &Vec<u8>) -> (r: Result<Vec<u8>, String>)
        ensures
            match r {
                Ok(d) => gzip_decompressed(bytes@) == Some(d@),
                Err(_) => gzip_decompressed(bytes@) is None,
            },
    {
        let mut decoder = GzDecoder::new(bytes.as_slice());
        let mut buffer = Vec::new();
        match decoder.read_to_end(&mut buffer) {
            Ok(_) => Ok(buffer),
            Err(e) => Err(format!("{:?}", e)),
        }
    }

    /// Calls flate2's `GzEncoder::new` with the default level over an empty
    /// `Vec`, writes `bytes` into it and finishes it. Trusted: this always
    /// succeeds (a `Vec` never refuses a write, and the deflate stage reports
    /// no error on such calls), the stream is `gzip_compressed(bytes)`, it is
    /// one complete gzip member, and `GzDecoder` reads `bytes` back out of it.
    #[verifier::external_body]
    fn gzencode(&self, bytes: &Vec<u8>) -> (r: Option<Vec<u8>>)
        ensures
            r is Some,
            r matches Some(c) ==> c@ == gzip_compressed(bytes@),
            r matches Some(c) ==> gzip_decompressed(c@) == Some(bytes@),
            r matches Some(c) ==> is_gzip_member(c@),
    {
        let mut encoder = GzEncoder::new(Vec::new(), Compression::default());
        encoder.write_all(bytes.as_slice()).ok()?;
        encoder.finish().ok()
    }

    /// Puts the outcome of a coding in place of `data`: the coded bytes, or
    /// an empty buffer where coding failed.
    pub fn adopt(data: &mut Vec<u8>, coded: Option<Vec<u8>>)
        ensures
            final(data)@ == coded_or_empty(
                match coded {
                    Some(c) => Some(c@),
                    None => None,
                },
            ),
    {
        match coded {
            Some(bytes) => {
                *data = bytes;
            },
            None => {
                *data = Vec::new();
            },
        }
    }
}

impl Encoder for GzBytes {
    /// Replaces `data` by its gzip stream.
    fn encode(&self, data: &mut Vec<u8>)
        ensures
            encode_outcome(old(data)@, final(data)@),
    {
        let coded = self.gzencode(data);
        GzBytes::adopt(data, coded);
    }

    /// Replaces `data` by what it decompresses to, or by nothing where it is
    /// not a gzip stream; a failure is reported where the coder reports
    /// failures.
    fn decode(&self, data: &mut Vec<u8>) -> (report: Option<CodingFailure>)
        ensures
            final(data)@ == decode_outcome(old(data)@),
            report is Some <==> (self.reports_failures() && gzip_decompressed(old(data)@) is None),
            report matches Some(f) ==> f.input@ == old(data)@,
    {
        match self.gzdecode(data) {
            Ok(bytes) => {
                *data = bytes;
                None
            },
            Err(error) => {
                let mut input: Vec<u8> = Vec::new();
                std::mem::swap(data, &mut input);
                if self.log {
                    Some(CodingFailure { error, input })
                } else {
                    None
                }
            },
        }
    }
}

} // verus!
