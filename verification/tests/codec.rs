use neutauri_data::codec::bytes_or;
use neutauri_data::{Compress, DataError, File};

#[test]
fn stored_file_is_compressed_and_decompresses_to_the_source_bytes() {
    let raw = b"<html></html>".repeat(100);
    let mut file = File::from_source("page.html", &raw).unwrap();
    assert_eq!(file.compress(), Compress::Brotli);
    assert_ne!(file.data(), &raw[..]);
    assert!(file.data().len() < raw.len());
    assert_eq!(file.decompressed_data(), Ok(raw));
}

#[test]
fn stored_bytes_are_a_brotli_stream() {
    let file = File::from_source("a.txt", b"hello").unwrap();
    let mut restored = Vec::new();
    let mut reader = brotli::Decompressor::new(file.data(), 4096);
    std::io::Read::read_to_end(&mut reader, &mut restored).unwrap();
    assert_eq!(restored, b"hello");
}

#[test]
fn empty_file_is_stored_and_restored() {
    let mut file = File::from_source("empty.bin", b"").unwrap();
    assert!(!file.data().is_empty());
    assert_eq!(file.decompressed_data(), Ok(Vec::new()));
}

#[test]
fn compression_gives_the_same_bytes_each_time() {
    let raw: Vec<u8> = (0..20000u32).map(|i| (i * i % 253) as u8).collect();
    let first = File::from_source("x.bin", &raw).unwrap();
    let second = File::from_source("y.bin", &raw).unwrap();
    assert_eq!(first.data(), second.data());
}

#[test]
fn media_type_is_guessed_from_the_extension() {
    let guess = |name: &str| File::from_source(name, b"x").unwrap().mimetype();
    assert_eq!(guess("index.html"), "text/html");
    assert_eq!(guess("logo.png"), "image/png");
    assert_eq!(guess("app.js"), "text/javascript");
    assert_eq!(guess("style.css"), "text/css");
    assert_eq!(guess("data.json"), "application/json");
    assert_eq!(guess("PHOTO.JPG"), "image/jpeg");
}

#[test]
fn media_type_falls_back_to_octet_stream() {
    let guess = |name: &str| File::from_source(name, b"x").unwrap().mimetype();
    assert_eq!(guess("README"), "application/octet-stream");
    assert_eq!(guess("archive.unknown-extension"), "application/octet-stream");
    assert_eq!(guess(".html"), "application/octet-stream");
    assert_eq!(guess(""), "application/octet-stream");
}

#[test]
fn uncompressed_file_is_passed_through() {
    let mut file =
        File::new("text/plain".to_string(), b"as it is".to_vec(), Compress::Uncompressed);
    assert_eq!(file.mimetype(), "text/plain");
    assert_eq!(file.compress(), Compress::Uncompressed);
    assert_eq!(file.data(), b"as it is");
    assert_eq!(file.decompressed_data(), Ok(b"as it is".to_vec()));
}

#[test]
fn corrupt_stream_fails_to_decompress() {
    let mut file = File::new(
        "text/plain".to_string(),
        b"this is no brotli stream at all".to_vec(),
        Compress::Brotli,
    );
    assert_eq!(file.decompressed_data(), Err(DataError::DecompressionFailed));
    // the file itself is left as it was
    assert_eq!(file.data(), b"this is no brotli stream at all");
}

#[test]
fn truncated_stream_fails_to_decompress() {
    let raw: Vec<u8> = (0..5000u32).map(|i| (i % 251) as u8).collect();
    let whole = File::from_source("x.bin", &raw).unwrap();
    let cut = whole.data()[..whole.data().len() / 2].to_vec();
    let mut file = File::new(whole.mimetype(), cut, Compress::Brotli);
    assert_eq!(file.decompressed_data(), Err(DataError::DecompressionFailed));
}

#[test]
fn decompression_can_be_repeated() {
    let mut file = File::from_source("a.txt", b"again and again").unwrap();
    let stored = file.data().to_vec();
    assert_eq!(file.decompressed_data(), Ok(b"again and again".to_vec()));
    assert_eq!(file.decompressed_data(), Ok(b"again and again".to_vec()));
    assert_eq!(file.data(), &stored[..]);
}

#[test]
fn clone_keeps_every_field() {
    let file = File::from_source("logo.png", b"\x89PNG").unwrap();
    let copy = file.clone();
    assert_eq!(copy.mimetype(), file.mimetype());
    assert_eq!(copy.data(), file.data());
    assert_eq!(copy.compress(), file.compress());
}

#[test]
fn reader_outcome_maps_to_bytes_or_the_given_error() {
    assert_eq!(bytes_or(Ok(vec![1, 2, 3]), DataError::CompressionFailed), Ok(vec![1, 2, 3]));
    let failed = std::io::Error::new(std::io::ErrorKind::InvalidData, "Invalid Data");
    assert_eq!(
        bytes_or(Err(failed), DataError::DecompressionFailed),
        Err(DataError::DecompressionFailed)
    );
    let failed = std::io::Error::new(std::io::ErrorKind::InvalidData, "Invalid Data");
    assert_eq!(
        bytes_or(Err(failed), DataError::CompressionFailed),
        Err(DataError::CompressionFailed)
    );
}
