use liblzma::stream::{self, Error, LzmaOptions, Stream};
use liblzma::{decode_all, encode_all, PRESET_EXTREME};
use quickcheck::quickcheck;
use std::io;

fn raw_lzma2_filters(opts: &stream::LzmaOptions) -> stream::Filters {
    let mut filters = stream::Filters::new();
    filters.lzma2(opts);
    filters
}

#[test]
fn preset_dict_roundtrip() {
    let dict = b"the quick brown fox jumps over the lazy dog. ".repeat(16);
    let data = b"the quick brown fox jumps over the lazy dog and then runs away quickly";

    // Encode with a preset dictionary. Drop `opts` before encoding to show
    // that the dictionary is owned by `Filters`, not the borrowed opts.
    let compressed = {
        let mut opts = stream::LzmaOptions::new_preset(6).unwrap();
        opts.preset_dict(dict.clone());
        let filters = raw_lzma2_filters(&opts);
        drop(opts);
        let enc = stream::Stream::new_raw_encoder(&filters).unwrap();
        enc.process_all(&data[..]).unwrap()
    };

    // Decode with the same preset dictionary -> original data.
    let mut opts = stream::LzmaOptions::new_preset(6).unwrap();
    opts.preset_dict(dict.clone());
    let filters = raw_lzma2_filters(&opts);
    let dec = stream::Stream::new_raw_decoder(&filters).unwrap();
    let decoded = dec.process_all(&compressed[..]).unwrap();
    assert_eq!(decoded, data);
}

#[test]
fn preset_dict_affects_output() {
    let dict = b"the quick brown fox jumps over the lazy dog. ".repeat(16);
    let data = b"the quick brown fox jumps over the lazy dog and then runs away quickly";

    let mut opts = stream::LzmaOptions::new_preset(6).unwrap();
    opts.preset_dict(dict.clone());
    let filters = raw_lzma2_filters(&opts);
    let enc = stream::Stream::new_raw_encoder(&filters).unwrap();
    let compressed = enc.process_all(&data[..]).unwrap();

    // Decoding the same stream WITHOUT the preset dictionary must not yield the
    // original data, proving the dictionary actually influenced encoding.
    let opts_no_dict = stream::LzmaOptions::new_preset(6).unwrap();
    let filters_no_dict = raw_lzma2_filters(&opts_no_dict);
    let dec = stream::Stream::new_raw_decoder(&filters_no_dict).unwrap();
    let result = dec.process_all(&compressed[..]);
    assert!(
        result.is_err() || result.as_ref().unwrap() != data,
        "decoding without the preset dictionary unexpectedly reproduced the data"
    );
}

#[test]
fn all() {
    quickcheck(test as fn(_) -> _);

    fn test(v: Vec<u8>) -> bool {
        let e = encode_all(&v[..], 6).unwrap();
        let d = decode_all(&e[..]).unwrap();
        v == d
    }
}

#[test]
fn hello_world_round_trip() {
    let data = "Hello, World!".as_bytes();
    let compressed = encode_all(data, 9).unwrap();
    assert_ne!(compressed, data);
    assert_eq!(&compressed[..6], b"\xfd7zXZ\x00");
    let decompressed = decode_all(&compressed).unwrap();
    assert_eq!(decompressed, data);
}

#[test]
fn round_trip_at_every_level() {
    let data = b"abcabcabcabcabcabcabcabc xyz xyz xyz".repeat(40);
    for level in 0..=9u32 {
        let c = encode_all(&data, level).unwrap();
        assert!(c.len() < data.len());
        assert_eq!(decode_all(&c).unwrap(), data);
        let c = encode_all(&data, level | PRESET_EXTREME).unwrap();
        assert_eq!(decode_all(&c).unwrap(), data);
    }
}

#[test]
fn empty_round_trip() {
    let c = encode_all(b"", 6).unwrap();
    assert!(!c.is_empty());
    assert_eq!(decode_all(&c).unwrap(), Vec::<u8>::new());
}

#[test]
fn decode_rejects_garbage() {
    assert_eq!(decode_all(b"not xz at all"), Err(Error::Data));
    assert_eq!(decode_all(b""), Err(Error::Data));
    let mut c = encode_all(b"some data to corrupt", 6).unwrap();
    let mid = c.len() / 2;
    c[mid] ^= 0xff;
    assert!(decode_all(&c) != Ok(b"some data to corrupt".to_vec()));
}

#[test]
fn new_preset_checks_the_level() {
    assert!(LzmaOptions::new_preset(0).is_ok());
    assert!(LzmaOptions::new_preset(9).is_ok());
    assert!(LzmaOptions::new_preset(9 | PRESET_EXTREME).is_ok());
    assert!(matches!(LzmaOptions::new_preset(10), Err(Error::Options)));
    assert!(matches!(LzmaOptions::new_preset(PRESET_EXTREME + 10), Err(Error::Options)));
}

#[test]
fn raw_coders_need_exactly_one_lzma2_filter() {
    let opts = LzmaOptions::new_preset(6).unwrap();
    let empty = stream::Filters::new();
    assert!(matches!(Stream::new_raw_encoder(&empty), Err(Error::Options)));
    assert!(matches!(Stream::new_raw_decoder(&empty), Err(Error::Options)));
    let mut two = raw_lzma2_filters(&opts);
    two.lzma2(&opts);
    assert!(matches!(Stream::new_raw_encoder(&two), Err(Error::Options)));
    assert!(matches!(Stream::new_raw_decoder(&two), Err(Error::Options)));
}

#[test]
fn raw_round_trip_without_dictionary() {
    let data = b"raw lzma2 data raw lzma2 data raw lzma2 data".to_vec();
    let opts = LzmaOptions::new_preset(1).unwrap();
    let filters = raw_lzma2_filters(&opts);
    let c = Stream::new_raw_encoder(&filters).unwrap().process_all(&data).unwrap();
    assert_ne!(c, data);
    let d = Stream::new_raw_decoder(&filters).unwrap().process_all(&c).unwrap();
    assert_eq!(d, data);
}

#[test]
fn raw_decoder_rejects_garbage() {
    let opts = LzmaOptions::new_preset(6).unwrap();
    let filters = raw_lzma2_filters(&opts);
    let dec = Stream::new_raw_decoder(&filters).unwrap();
    assert_eq!(dec.process_all(&[0x07, 1, 2, 3]), Err(Error::Data));
}

#[test]
fn outcomes_map_errors() {
    assert_eq!(stream::decoder_outcome(Ok(vec![1, 2])), Ok(vec![1, 2]));
    assert_eq!(
        stream::decoder_outcome(Err(io::Error::new(io::ErrorKind::InvalidData, "bad"))),
        Err(Error::Data)
    );
    assert_eq!(stream::encoder_outcome(Ok(vec![3])), Ok(vec![3]));
    assert_eq!(
        stream::encoder_outcome(Err(io::Error::new(io::ErrorKind::Other, "bad"))),
        Err(Error::Program)
    );
}

#[test]
fn level_of_preset_strips_the_extreme_flag() {
    assert_eq!(stream::level_of_preset(7), Some(7));
    assert_eq!(stream::level_of_preset(7 | PRESET_EXTREME), Some(7));
    assert_eq!(stream::level_of_preset(12), None);
}

fn assert_send_sync<T: Send + Sync>() {}

#[test]
fn impls_send_and_sync() {
    assert_send_sync::<stream::Stream>();
    assert_send_sync::<stream::Filters>();
    assert_send_sync::<stream::LzmaOptions>();
    assert_send_sync::<liblzma::bufread::BufReader<&[u8]>>();
}
