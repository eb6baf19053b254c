//! Raw in-memory compression and decompression: presets, LZMA2 options with
//! a preset dictionary, filter chains, and raw LZMA2 coders.

use crate::engine::{dict_view, lzma2_compressed, lzma2_decode, lzma2_decompressed, lzma2_encode, owned_dict_view};
use vstd::prelude::*;
use vstd::slice::slice_to_vec;

verus! {

/// Flag that asks for the "extreme" variant of a preset. It is accepted, and
/// has no effect: the compression engine has no extreme mode, so a preset
/// with the flag compresses as the same level without it.
pub const PRESET_EXTREME: u32 = 0x8000_0000;

/// The compression level (0 to 9 when valid) that a preset asks for, without
/// the extreme flag.
pub open spec fn preset_level(preset: u32) -> u32 {
    if preset >= PRESET_EXTREME {
        (preset - PRESET_EXTREME) as u32
    } else {
        preset
    }
}

/// The level of a preset is the preset with its top bit, the extreme
/// flag, cleared; a preset without the flag is its own level.
pub proof fn preset_level_clears_the_flag(p: u32)
    ensures
        preset_level(p) as int == p as int % 0x8000_0000,
        p < PRESET_EXTREME ==> preset_level(p) == p,
        preset_is_valid(p) <==> (p as int % 0x8000_0000 <= 9),
{
}

/// A preset is a level from 0 to 9, with or without `PRESET_EXTREME`.
pub open spec fn preset_is_valid(preset: u32) -> bool {
    preset_level(preset) <= 9
}

/// Errors of the coders.
#[derive(Debug, Clone, Copy, PartialEq, Eq, Structural)]
pub enum Error {
    /// The input is not valid compressed data for the coder.
    Data,
    /// The preset or the filter chain is not supported.
    Options,
    /// The coder failed while writing its output.
    Program,
}

/// The preset without the extreme flag.
pub fn preset_base(preset: u32) -> (l: u32)
    ensures
        l == preset_level(preset),
{
    if preset >= PRESET_EXTREME {
        preset - PRESET_EXTREME
    } else {
        preset
    }
}

/// The level of a preset, or `None` for a preset that is not valid.
pub fn level_of_preset(preset: u32) -> (r: Option<u32>)
    ensures
        preset_is_valid(preset) ==> r == Some(preset_level(preset)),
        !preset_is_valid(preset) ==> r is None,
{
    let level = preset_base(preset);
    if level <= 9 {
        Some(level)
    } else {
        None
    }
}

/// What a decoder returns for each outcome of the engine: its output, or
/// `Error::Data`.
pub fn decoder_outcome(outcome: Result<Vec<u8>, std::io::Error>) -> (res: Result<Vec<u8>, Error>)
    ensures
        outcome is Ok <==> res is Ok,
        outcome matches Ok(v) ==> res matches Ok(w) && w@ == v@,
        outcome is Err ==> res == Err::<Vec<u8>, Error>(Error::Data),
{
    match outcome {
        Ok(v) => Ok(v),
        Err(_) => Err(Error::Data),
    }
}

/// What an encoder returns for each outcome of the engine: its output, or
/// `Error::Program`.
pub fn encoder_outcome(outcome: Result<Vec<u8>, std::io::Error>) -> (res: Result<Vec<u8>, Error>)
    ensures
        outcome is Ok <==> res is Ok,
        outcome matches Ok(v) ==> res matches Ok(w) && w@ == v@,
        outcome is Err ==> res == Err::<Vec<u8>, Error>(Error::Program),
{
    match outcome {
        Ok(v) => Ok(v),
        Err(_) => Err(Error::Program),
    }
}

/// A byte string as the result of a coder, or the coder's error.
pub open spec fn output_view(res: Result<Vec<u8>, Error>) -> Result<Seq<u8>, Error> {
    match res {
        Ok(v) => Ok(v@),
        Err(e) => Err(e),
    }
}

/// The engine's outcome as a coder result: `Some` output, or the error `e`.
pub open spec fn outcome_or(o: Option<Seq<u8>>, e: Error) -> Result<Seq<u8>, Error> {
    match o {
        Some(v) => Ok(v),
        None => Err(e),
    }
}

/// Options of the LZMA2 filter: a preset and a preset dictionary. The view
/// is the preset and the dictionary, empty when there is none.
pub struct LzmaOptions {
    preset: u32,
    dict: Vec<u8>,
}

impl View for LzmaOptions {
    type V = (u32, Seq<u8>);

    closed spec fn view(&self) -> (u32, Seq<u8>) {
        (self.preset, self.dict@)
    }
}

impl LzmaOptions {
    #[verifier::type_invariant]
    spec fn valid_preset(self) -> bool {
        preset_is_valid(self.preset)
    }

    /// The options of `preset`, without a preset dictionary; `Error::Options`
    /// for a preset that is not valid.
    pub fn new_preset(preset: u32) -> (r: Result<LzmaOptions, Error>)
        ensures
            r is Ok <==> preset_is_valid(preset),
            r matches Ok(o) ==> o@ == (preset, Seq::<u8>::empty()),
            r matches Err(e) ==> e == Error::Options,
    {
        match level_of_preset(preset) {
            Some(_) => Ok(LzmaOptions { preset, dict: Vec::new() }),
            None => Err(Error::Options),
        }
    }

    /// Sets the preset dictionary: data that both sides know before the
    /// stream starts. An empty dictionary stands for none.
    pub fn preset_dict(&mut self, dict: Vec<u8>)
        ensures
            final(self)@ == (old(self)@.0, dict@),
    {
        proof {
            use_type_invariant(&*self);
        }
        self.dict = dict;
    }

    /// A copy with the same preset and dictionary.
    fn duplicate(&self) -> (r: LzmaOptions)
        ensures
            r@ == self@,
    {
        proof {
            use_type_invariant(self);
        }
        LzmaOptions { preset: self.preset, dict: slice_to_vec(self.dict.as_slice()) }
    }
}

/// A chain of filters. The view is the sequence of the LZMA2 filters'
/// options, first to last.
pub struct Filters {
    lzma2: Vec<LzmaOptions>,
}

impl View for Filters {
    type V = Seq<(u32, Seq<u8>)>;

    closed spec fn view(&self) -> Seq<(u32, Seq<u8>)> {
        self.lzma2@.map_values(|o: LzmaOptions| o@)
    }
}

impl Filters {
    /// An empty chain.
    pub fn new() -> (r: Filters)
        ensures
            r@ == Seq::<(u32, Seq<u8>)>::empty(),
    {
        let r = Filters { lzma2: Vec::new() };
        assert(r@ =~= Seq::<(u32, Seq<u8>)>::empty());
        r
    }

    /// Appends an LZMA2 filter with a copy of `opts`.
    pub fn lzma2(&mut self, opts: &LzmaOptions)
        ensures
            final(self)@ == old(self)@.push(opts@),
    {
        let copy = opts.duplicate();
        self.lzma2.push(copy);
        assert(self@ =~= old(self)@.push(opts@));
    }
}

/// The dictionary as the engine takes it: none when it is empty.
pub open spec fn dict_arg(dict: Seq<u8>) -> Option<Seq<u8>> {
    if dict.len() == 0 {
        None
    } else {
        Some(dict)
    }
}

/// The engine is handed the whole preset dictionary, and none when it is
/// empty.
pub proof fn dict_arg_is_the_whole_dictionary(d: Seq<u8>)
    ensures
        d.len() > 0 ==> dict_arg(d) == Some(d),
        d.len() == 0 ==> dict_arg(d) is None,
{
}

/// What a raw LZMA2 decoder with options `opts` returns for `input`.
pub open spec fn raw_decoded(opts: (u32, Seq<u8>), input: Seq<u8>) -> Result<Seq<u8>, Error> {
    outcome_or(lzma2_decompressed(preset_level(opts.0), dict_arg(opts.1), input), Error::Data)
}

/// What a raw LZMA2 encoder with options `opts` returns for `input`.
pub open spec fn raw_encoded(opts: (u32, Seq<u8>), input: Seq<u8>) -> Result<Seq<u8>, Error> {
    outcome_or(lzma2_compressed(preset_level(opts.0), dict_arg(opts.1), input), Error::Program)
}

/// A raw encoder with a non-empty dictionary gives the engine's encoding
/// with that whole dictionary, at the level its preset asks for.
pub proof fn raw_encoded_uses_whole_dictionary(p: u32, d: Seq<u8>, input: Seq<u8>, c: Seq<u8>)
    requires
        d.len() > 0,
        lzma2_compressed(preset_level(p), Some(d), input) == Some(c),
    ensures
        raw_encoded((p, d), input) == Ok::<Seq<u8>, Error>(c),
{
}

/// A raw decoder with a non-empty dictionary gives the engine's decoding
/// with that whole dictionary, and `Error::Data` where the engine fails.
pub proof fn raw_decoded_uses_whole_dictionary(p: u32, d: Seq<u8>, input: Seq<u8>)
    requires
        d.len() > 0,
    ensures
        lzma2_decompressed(preset_level(p), Some(d), input) matches Some(v) ==> raw_decoded((p, d), input) == Ok::<Seq<u8>, Error>(v),
        lzma2_decompressed(preset_level(p), Some(d), input) is None ==> raw_decoded((p, d), input) == Err::<Seq<u8>, Error>(Error::Data),
{
}

/// A raw LZMA2 coder, encoding or decoding.
pub struct Stream {
    encoder: bool,
    options: LzmaOptions,
}

impl Stream {
    /// Whether the stream encodes.
    pub closed spec fn is_encoder(self) -> bool {
        self.encoder
    }

    /// The options of its LZMA2 filter.
    pub closed spec fn options(self) -> (u32, Seq<u8>) {
        self.options@
    }

    /// A chain is supported when it is a single LZMA2 filter.
    fn single_filter(filters: &Filters, encoder: bool) -> (r: Result<Stream, Error>)
        ensures
            r is Ok <==> filters@.len() == 1,
            r matches Ok(s) ==> s.is_encoder() == encoder && s.options() == filters@[0],
            r matches Err(e) ==> e == Error::Options,
    {
        if filters.lzma2.len() == 1 {
            let options = filters.lzma2[0].duplicate();
            Ok(Stream { encoder, options })
        } else {
            Err(Error::Options)
        }
    }

    /// A raw encoder for the chain `filters`, which must be a single LZMA2
    /// filter; else `Error::Options`.
    pub fn new_raw_encoder(filters: &Filters) -> (r: Result<Stream, Error>)
        ensures
            r is Ok <==> filters@.len() == 1,
            r matches Ok(s) ==> s.is_encoder() && s.options() == filters@[0],
            r matches Err(e) ==> e == Error::Options,
    {
        Self::single_filter(filters, true)
    }

    /// A raw decoder for the chain `filters`, which must be a single LZMA2
    /// filter; else `Error::Options`.
    pub fn new_raw_decoder(filters: &Filters) -> (r: Result<Stream, Error>)
        ensures
            r is Ok <==> filters@.len() == 1,
            r matches Ok(s) ==> !s.is_encoder() && s.options() == filters@[0],
            r matches Err(e) ==> e == Error::Options,
    {
        Self::single_filter(filters, false)
    }

    /// Runs the whole of `input` through the coder. An encoder always
    /// succeeds, and what it returns, a decoder with the same options turns
    /// back into `input`.
    pub fn process_all(&self, input: &[u8]) -> (res: Result<Vec<u8>, Error>)
        ensures
            self.is_encoder() ==> output_view(res) == raw_encoded(self.options(), input@),
            !self.is_encoder() ==> output_view(res) == raw_decoded(self.options(), input@),
            self.is_encoder() ==> res is Ok,
            self.is_encoder() && self.options().1.len() > 0 ==> (res matches Ok(c)
                && lzma2_compressed(preset_level(self.options().0), Some(self.options().1), input@) == Some(c@)),
            self.is_encoder() && self.options().1.len() == 0 ==> (res matches Ok(c)
                && lzma2_compressed(preset_level(self.options().0), None, input@) == Some(c@)),
            !self.is_encoder() && self.options().1.len() > 0 ==> (
                match lzma2_decompressed(preset_level(self.options().0), Some(self.options().1), input@) {
                    Some(v) => (res matches Ok(w) && w@ == v),
                    None => res == Err::<Vec<u8>, Error>(Error::Data),
                }),
            !self.is_encoder() && self.options().1.len() == 0 ==> (
                match lzma2_decompressed(preset_level(self.options().0), None, input@) {
                    Some(v) => (res matches Ok(w) && w@ == v),
                    None => res == Err::<Vec<u8>, Error>(Error::Data),
                }),
            self.is_encoder() ==> (res matches Ok(c) ==> raw_decoded(self.options(), c@) == Ok::<Seq<u8>, Error>(input@)),
    {
        proof {
            use_type_invariant(&self.options);
        }
        let level = preset_base(self.options.preset);
        if self.encoder {
            let dict: Option<Vec<u8>> = if self.options.dict.len() == 0 {
                None
            } else {
                Some(slice_to_vec(self.options.dict.as_slice()))
            };
            assert(owned_dict_view(dict) == dict_arg(self.options@.1));
            encoder_outcome(lzma2_encode(level, dict, input))
        } else {
            let dict: Option<&[u8]> = if self.options.dict.len() == 0 {
                None
            } else {
                Some(self.options.dict.as_slice())
            };
            assert(dict_view(dict) == dict_arg(self.options@.1));
            decoder_outcome(lzma2_decode(level, dict, input))
        }
    }
}

} // verus!
