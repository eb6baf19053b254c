//! The XZ and LZMA2 coders of `lzma_rust2`, the compression engine behind
//! this library. Each item here is trusted: its contract is read off
//! `lzma_rust2`'s source and tests, not proved.

use lzma_rust2::{Lzma2Options, Lzma2Reader, Lzma2Writer, LzmaOptions, XzOptions, XzReader, XzWriter};
use std::io::{Read, Write};
use vstd::prelude::*;

verus! {

/// `std::io::Error`, the error that `lzma_rust2`'s readers and writers report.
#[verifier::external_type_specification]
#[verifier::external_body]
pub struct ExIoError(std::io::Error);

/// A preset dictionary as `lzma_rust2` takes it: absent, or a non-empty byte string.
pub open spec fn dict_view(dict: Option<&[u8]>) -> Option<Seq<u8>> {
    match dict {
        Some(d) => Some(d@),
        None => None,
    }
}

/// An owned preset dictionary, as `LzmaOptions::preset_dict` holds it.
pub open spec fn owned_dict_view(dict: Option<Vec<u8>>) -> Option<Seq<u8>> {
    match dict {
        Some(d) => Some(d@),
        None => None,
    }
}

/// What `lzma_rust2::XzReader`, reading a single stream, decodes from
/// `input`, or `None` where it reports an error.
pub uninterp spec fn xz_decompressed(input: Seq<u8>) -> Option<Seq<u8>>;

/// What `lzma_rust2::XzWriter` with `XzOptions::with_preset(level)` writes
/// for `input`, or `None` where it reports an error.
pub uninterp spec fn xz_compressed(level: u32, input: Seq<u8>) -> Option<Seq<u8>>;

/// What `lzma_rust2::Lzma2Reader` decodes from the raw LZMA2 data `input`,
/// with the dictionary size of preset `level` and the preset dictionary
/// `dict`, or `None` where it reports an error.
pub uninterp spec fn lzma2_decompressed(level: u32, dict: Option<Seq<u8>>, input: Seq<u8>) -> Option<Seq<u8>>;

/// What `lzma_rust2::Lzma2Writer` with `Lzma2Options::with_preset(level)`
/// and the preset dictionary `dict` writes for `input`, or `None` where it
/// reports an error.
pub uninterp spec fn lzma2_compressed(level: u32, dict: Option<Seq<u8>>, input: Seq<u8>) -> Option<Seq<u8>>;

/// Decodes a single XZ stream with `lzma_rust2::XzReader::new(input, false)`
/// and `read_to_end`. Claimed: the outcome is a function of `input` alone,
/// named `xz_decompressed`.
#[verifier::external_body]
pub(crate) fn xz_decode(input: &[u8]) -> (res: Result<Vec<u8>, std::io::Error>)
    ensures
        res is Ok <==> xz_decompressed(input@) is Some,
        res matches Ok(v) ==> xz_decompressed(input@) == Some(v@),
{
    let mut out = Vec::new();
    match XzReader::new(input, false).read_to_end(&mut out) {
        Ok(_) => Ok(out),
        Err(e) => Err(e),
    }
}

/// Encodes `input` as one XZ stream (CRC64 check) with
/// `lzma_rust2::XzWriter::new(.., XzOptions::with_preset(level))`,
/// `write_all` and `finish`. Claimed: the outcome is a function of `level`
/// and `input`, named `xz_compressed`, and what it writes is decoded by
/// `XzReader` back to `input` (the round trip that `lzma_rust2`'s own
/// tests check with exactly these calls). Claimed too: it succeeds. With
/// no pre-filter, `XzWriter::new` cannot fail, and the writes and `finish`
/// fail only where the output writer does; the output is a `Vec`, which
/// takes every write, and the LZMA2 chunks stay within the range coder's
/// buffer.
#[verifier::external_body]
pub(crate) fn xz_encode(level: u32, input: &[u8]) -> (res: Result<Vec<u8>, std::io::Error>)
    ensures
        res is Ok,
        res is Ok <==> xz_compressed(level, input@) is Some,
        res matches Ok(v) ==> xz_compressed(level, input@) == Some(v@),
        res matches Ok(v) ==> xz_decompressed(v@) == Some(input@),
{
    let mut writer = XzWriter::new(Vec::new(), XzOptions::with_preset(level))?;
    writer.write_all(input)?;
    writer.finish()
}

/// Decodes raw LZMA2 data with `lzma_rust2::Lzma2Reader::new(input,
/// dict_size, dict)` and `read_to_end`, where `dict_size` is that of
/// `LzmaOptions::with_preset(level)`. Claimed: the outcome is a function of
/// the arguments, named `lzma2_decompressed`.
#[verifier::external_body]
pub(crate) fn lzma2_decode(level: u32, dict: Option<&[u8]>, input: &[u8]) -> (res: Result<Vec<u8>, std::io::Error>)
    ensures
        res is Ok <==> lzma2_decompressed(level, dict_view(dict), input@) is Some,
        res matches Ok(v) ==> lzma2_decompressed(level, dict_view(dict), input@) == Some(v@),
{
    let dict_size = LzmaOptions::with_preset(level).dict_size;
    let mut out = Vec::new();
    match Lzma2Reader::new(input, dict_size, dict).read_to_end(&mut out) {
        Ok(_) => Ok(out),
        Err(e) => Err(e),
    }
}

/// Encodes `input` as raw LZMA2 data with `lzma_rust2::Lzma2Writer` and
/// `Lzma2Options::with_preset(level)` whose `preset_dict` is `dict`, then
/// `write_all` and `finish`. Claimed: the outcome is a function of the
/// arguments, named `lzma2_compressed`, and `Lzma2Reader` with the same
/// preset and dictionary decodes what it writes back to `input` (the round
/// trip that `lzma_rust2`'s tests `lzma2::round_trip_*` and
/// `regression::lzma2_preset_uses_one_dictionary_buffer` check). An empty
/// preset dictionary is left out by `requires`: the writer then skips the
/// dictionary reset that the reader, holding no dictionary, asks for (that
/// test, too, hands the writer `None` in place of an empty one). Claimed
/// too: it succeeds. `Lzma2Writer::new` cannot fail, and the writes and
/// `finish` fail only where the output writer does; the output is a `Vec`,
/// which takes every write, and the chunks stay within the range coder's
/// buffer.
#[verifier::external_body]
pub(crate) fn lzma2_encode(level: u32, dict: Option<Vec<u8>>, input: &[u8]) -> (res: Result<Vec<u8>, std::io::Error>)
    requires
        dict matches Some(d) ==> d@.len() > 0,
    ensures
        res is Ok,
        res is Ok <==> lzma2_compressed(level, owned_dict_view(dict), input@) is Some,
        res matches Ok(v) ==> lzma2_compressed(level, owned_dict_view(dict), input@) == Some(v@),
        res matches Ok(v) ==> lzma2_decompressed(level, owned_dict_view(dict), v@) == Some(input@),
{
    let mut options = Lzma2Options::with_preset(level);
    options.lzma_options.preset_dict = dict;
    let mut writer = Lzma2Writer::new(Vec::new(), options);
    writer.write_all(input)?;
    writer.finish()
}

} // verus!
