use firmware_extractor::decompress::{decoded_or_invalid, decompress_brotli};
use firmware_extractor::error::ErrorKind;
use std::io::Write;

fn compressed(data: &[u8]) -> Vec<u8> {
    let mut writer = brotli::CompressorWriter::new(Vec::new(), 4096, 5, 22);
    writer.write_all(data).unwrap();
    writer.into_inner()
}

#[test]
fn a_known_stream_is_decoded() {
    let stream = [0x8f, 0x02, 0x80, 0x68, 0x65, 0x6c, 0x6c, 0x6f, 0x0a, 0x03];
    assert_eq!(decompress_brotli(&stream).unwrap(), b"hello\n".to_vec());
}

#[test]
fn what_was_compressed_comes_back() {
    let mut data: Vec<u8> = Vec::new();
    for i in 0..20000u32 {
        data.push((i % 251) as u8);
        data.push((i / 7 % 13) as u8);
    }
    let stream = compressed(&data);
    assert_ne!(stream, data);
    assert_eq!(decompress_brotli(&stream).unwrap(), data);
    assert_eq!(decompress_brotli(&compressed(b"")).unwrap(), Vec::<u8>::new());
}

#[test]
fn a_broken_stream_is_a_decode_failure() {
    for stream in [&b"this is no brotli stream"[..], &[0x8f, 0x02, 0x80, 0x68][..], &[][..]] {
        let error = decompress_brotli(stream).unwrap_err();
        assert_eq!(error.kind, ErrorKind::Decode);
        assert_eq!(error.message, "Invalid Data");
    }
}

#[test]
fn the_same_stream_decodes_to_the_same_bytes() {
    let stream = compressed(b"system.new.dat system.new.dat system.new.dat");
    assert_eq!(decompress_brotli(&stream).unwrap(), decompress_brotli(&stream).unwrap());
}

#[test]
fn no_bytes_from_the_decoder_is_an_invalid_stream() {
    assert_eq!(decoded_or_invalid(Some(vec![1, 2, 3])).unwrap(), vec![1, 2, 3]);
    assert_eq!(decoded_or_invalid(Some(vec![])).unwrap(), Vec::<u8>::new());
    let error = decoded_or_invalid(None).unwrap_err();
    assert_eq!(error.kind, ErrorKind::Decode);
    assert_eq!(error.message, "Invalid Data");
}
