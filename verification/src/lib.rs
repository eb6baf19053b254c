//! LZMA/XZ encoding and decoding.
//!
//! Whole-buffer xz compression and decompression (`encode_all`,
//! `decode_all`), raw LZMA2 coders with preset dictionaries (`stream`), the
//! read buffer of the streaming readers (`bufread`), and the byte routines
//! that the C side of the format library is linked against (`wasm_shim`).
//! The compression itself is done by `lzma_rust2`, behind the trusted items
//! of `engine`.

pub mod bufread;
mod engine;
pub mod stream;
pub mod wasm_shim;

use vstd::prelude::*;

pub use engine::{xz_compressed, xz_decompressed};
pub use stream::{Error, PRESET_EXTREME};
use stream::{decoder_outcome, encoder_outcome, outcome_or, preset_base, output_view, preset_is_valid, preset_level};

verus! {

/// What `decode_all` returns for `data`.
pub open spec fn xz_decoded(data: Seq<u8>) -> Result<Seq<u8>, Error> {
    outcome_or(xz_decompressed(data), Error::Data)
}

/// What `encode_all` returns for `data` at preset `level`.
pub open spec fn xz_encoded(level: u32, data: Seq<u8>) -> Result<Seq<u8>, Error> {
    outcome_or(xz_compressed(preset_level(level), data), Error::Program)
}

/// Decompresses `data`, a single xz stream, as an `XzDecoder` reading it
/// would; `Error::Data` where it is not valid xz data.
pub fn decode_all(data: &[u8]) -> (res: Result<Vec<u8>, Error>)
    ensures
        output_view(res) == xz_decoded(data@),
        xz_decompressed(data@) matches Some(d) ==> (res matches Ok(v) && v@ == d),
        xz_decompressed(data@) is None ==> res == Err::<Vec<u8>, Error>(Error::Data),
{
    decoder_outcome(engine::xz_decode(data))
}

/// Compresses `data` into a single xz stream (with a CRC64 check) at preset
/// `level`, as an `XzEncoder` reading it would (`PRESET_EXTREME` is accepted
/// and has no effect). It always succeeds, and
/// what it returns, `decode_all` turns back into `data`.
pub fn encode_all(data: &[u8], level: u32) -> (res: Result<Vec<u8>, Error>)
    requires
        preset_is_valid(level),
    ensures
        output_view(res) == xz_encoded(level, data@),
        res is Ok,
        res matches Ok(c) ==> xz_compressed(preset_level(level), data@) == Some(c@),
        res matches Ok(c) ==> xz_decompressed(c@) == Some(data@),
        res matches Ok(c) ==> xz_decoded(c@) == Ok::<Seq<u8>, Error>(data@),
{
    encoder_outcome(engine::xz_encode(preset_base(level), data))
}

/// Decoding is a single pass of the xz decoder: where it decodes `c` to
/// `d`, `decode_all(c)` gives `d`.
pub proof fn decoded_is_single_pass(c: Seq<u8>, d: Seq<u8>)
    requires
        xz_decompressed(c) == Some(d),
    ensures
        xz_decoded(c) == Ok::<Seq<u8>, Error>(d),
{
}

/// Decoding fails exactly where the xz decoder does, and then with
/// `Error::Data`.
pub proof fn decoded_fails_only_on_invalid_data(c: Seq<u8>)
    ensures
        xz_decoded(c) is Err <==> xz_decompressed(c) is None,
        xz_decompressed(c) is None ==> xz_decoded(c) == Err::<Seq<u8>, Error>(Error::Data),
{
}

/// Encoding at preset `p` gives the engine's compression at the level that
/// `p` asks for, once.
pub proof fn encoded_at_requested_level(p: u32, d: Seq<u8>, c: Seq<u8>)
    requires
        xz_compressed(preset_level(p), d) == Some(c),
    ensures
        xz_encoded(p, d) == Ok::<Seq<u8>, Error>(c),
{
}

} // verus!
