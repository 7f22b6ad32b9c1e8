//! Stored files: what the compressor made of a file's bytes, the media type
//! guessed from its name, and the way back to the bytes.

use std::io::Read;
use vstd::prelude::*;
use crate::error::{bytes_result, DataError};

verus! {

/// Size of the buffer through which the compressor and the decompressor read.
pub const CODEC_BUFFER_SIZE: usize = 4096;

/// Quality at which files are compressed.
pub const BROTLI_QUALITY: u32 = 9;

/// Binary logarithm of the compressor's window size.
pub const BROTLI_WINDOW: u32 = 21;

/// The error type of std's readers.
#[verifier::external_type_specification]
#[verifier::external_body]
pub struct ExIoError(std::io::Error);

/// The stream that the Brotli encoder of the `brotli` crate makes of `raw`
/// when it reads through a buffer of `buffer` bytes at the given quality and
/// window; `None` where the encoder reports an error.
pub uninterp spec fn brotli_compressed(
    raw: Seq<u8>,
    buffer: usize,
    quality: u32,
    window: u32,
) -> Option<Seq<u8>>;

/// The bytes that the Brotli decoder of the `brotli` crate restores from the
/// stream `data` when it reads through a buffer of `buffer` bytes; `None`
/// where it rejects the stream.
pub uninterp spec fn brotli_decompressed(data: Seq<u8>, buffer: usize) -> Option<Seq<u8>>;

/// The media type that the `new_mime_guess` crate associates with the
/// extension of the file name `name`, or `application/octet-stream` where it
/// knows none.
pub uninterp spec fn guessed_mime(name: Seq<char>) -> Seq<char>;

/// The media type of a file called `name`: a name without a dot has no
/// extension and is taken for arbitrary bytes; for any other the crate's
/// table decides.
pub open spec fn media_type_of(name: Seq<char>) -> Seq<char> {
    if name.contains('.') {
        guessed_mime(name)
    } else {
        "application/octet-stream"@
    }
}

/// The bytes of a reader's outcome, if it has any.
pub open spec fn outcome_bytes(outcome: Result<Vec<u8>, std::io::Error>) -> Option<Seq<u8>> {
    match outcome {
        Ok(bytes) => Some(bytes@),
        Err(_) => None,
    }
}

/// Runs `brotli::CompressorReader` over `raw` to its end. Trusted: the
/// outcome is the one that the encoder has for these bytes and parameters,
/// the same whenever it is asked. The parameters are kept within the range
/// that the crate documents, the buffer to a size that is sure to be
/// allocated.
#[verifier::external_body]
fn brotli_compress(raw: &[u8], buffer: usize, quality: u32, window: u32) -> (outcome: Result<
    Vec<u8>,
    std::io::Error,
>)
    requires
        0 < buffer <= 0x10000,
        quality <= 11,
        10 <= window <= 24,
    ensures
        outcome_bytes(outcome) == brotli_compressed(raw@, buffer, quality, window),
{
    let mut out = Vec::new();
    brotli::CompressorReader::new(raw, buffer, quality, window).read_to_end(&mut out)?;
    Ok(out)
}

/// Runs `brotli::Decompressor` over `data` to its end. Trusted: the outcome
/// is the one that the decoder has for this stream, the same whenever it is
/// asked. The buffer is kept to a size that is sure to be allocated.
#[verifier::external_body]
fn brotli_decompress(data: &[u8], buffer: usize) -> (outcome: Result<Vec<u8>, std::io::Error>)
    requires
        0 < buffer <= 0x10000,
    ensures
        outcome_bytes(outcome) == brotli_decompressed(data@, buffer),
{
    let mut out = Vec::with_capacity(data.len());
    brotli::Decompressor::new(data, buffer).read_to_end(&mut out)?;
    Ok(out)
}

/// Asks `new_mime_guess::from_path` for the media types of `name` and takes
/// the first, or `application/octet-stream`. Trusted: the text is the one
/// that the crate's table has for the name's extension, and the fallback
/// where the name has no dot and so no extension.
#[verifier::external_body]
fn guess_mime(name: &str) -> (mime: String)
    ensures
        name@.contains('.') ==> mime@ == guessed_mime(name@),
        !name@.contains('.') ==> mime@ == "application/octet-stream"@,
{
    new_mime_guess::from_path(name).first_or_octet_stream().to_string()
}

/// How the bytes of a stored file are to be read.
#[non_exhaustive]
#[derive(Clone, Copy, Debug, PartialEq, Eq, Structural)]
pub enum Compress {
    /// The bytes are a Brotli stream.
    Brotli,
    /// The bytes are the file's own.
    Uncompressed,
}

/// A file as the tree stores it.
#[derive(Debug)]
pub struct File {
    mime: String,
    data: Vec<u8>,
    compress: Compress,
}

/// What a stored file holds.
pub struct FileView {
    /// The media type.
    pub mime: Seq<char>,
    /// The bytes as stored.
    pub data: Seq<u8>,
    /// How the stored bytes are to be read.
    pub compress: Compress,
}

impl View for File {
    type V = FileView;

    closed spec fn view(&self) -> FileView {
        FileView { mime: self.mime@, data: self.data@, compress: self.compress }
    }
}

/// What is stored for a file called `name` that holds `raw`: its bytes
/// compressed and its media type guessed from the name.
pub open spec fn stored(name: Seq<char>, raw: Seq<u8>) -> Result<FileView, DataError> {
    match brotli_compressed(raw, CODEC_BUFFER_SIZE, BROTLI_QUALITY, BROTLI_WINDOW) {
        Some(data) => Ok(FileView { mime: media_type_of(name), data, compress: Compress::Brotli }),
        None => Err(DataError::CompressionFailed),
    }
}

/// The bytes that a stored file stands for.
pub open spec fn decoded(file: FileView) -> Result<Seq<u8>, DataError> {
    match file.compress {
        Compress::Brotli => match brotli_decompressed(file.data, CODEC_BUFFER_SIZE) {
            Some(raw) => Ok(raw),
            None => Err(DataError::DecompressionFailed),
        },
        Compress::Uncompressed => Ok(file.data),
    }
}

/// A result that carries a stored file, with the file as what it holds.
pub open spec fn file_result(r: Result<File, DataError>) -> Result<FileView, DataError> {
    match r {
        Ok(file) => Ok(file@),
        Err(e) => Err(e),
    }
}

/// Turns the outcome of a compressor or decompressor run into this library's
/// result: the bytes, or `error`.
pub fn bytes_or(outcome: Result<Vec<u8>, std::io::Error>, error: DataError) -> (r: Result<
    Vec<u8>,
    DataError,
>)
    ensures
        bytes_result(r) == match outcome_bytes(outcome) {
            Some(bytes) => Ok::<Seq<u8>, DataError>(bytes),
            None => Err(error),
        },
{
    match outcome {
        Ok(bytes) => Ok(bytes),
        Err(_) => Err(error),
    }
}

/// The media type of a file called `name`, guessed from the name's
/// extension.
pub fn media_type(name: &str) -> (mime: String)
    ensures
        mime@ == media_type_of(name@),
{
    guess_mime(name)
}

impl File {
    /// A stored file with the given media type, bytes and reading.
    pub fn new(mime: String, data: Vec<u8>, compress: Compress) -> (file: File)
        ensures
            file@ == (FileView { mime: mime@, data: data@, compress }),
    {
        File { mime, data, compress }
    }

    /// Stores a file: compresses `raw` and guesses the media type from
    /// `name`. Fails only where the compressor does.
    pub fn from_source(name: &str, raw: &[u8]) -> (r: Result<File, DataError>)
        ensures
            file_result(r) == stored(name@, raw@),
    {
        let outcome = brotli_compress(raw, CODEC_BUFFER_SIZE, BROTLI_QUALITY, BROTLI_WINDOW);
        match bytes_or(outcome, DataError::CompressionFailed) {
            Ok(data) => Ok(File::new(media_type(name), data, Compress::Brotli)),
            Err(e) => Err(e),
        }
    }

    /// The bytes that the file stands for: the stored bytes decompressed, or
    /// as they are where they were stored as they were. The file is left as
    /// it is.
    pub fn decompressed_data(&mut self) -> (r: Result<Vec<u8>, DataError>)
        ensures
            *final(self) == *old(self),
            bytes_result(r) == decoded(old(self)@),
    {
        match self.compress {
            Compress::Brotli => bytes_or(
                brotli_decompress(self.data.as_slice(), CODEC_BUFFER_SIZE),
                DataError::DecompressionFailed,
            ),
            Compress::Uncompressed => Ok(self.data.clone()),
        }
    }

    /// The media type.
    pub fn mimetype(&self) -> (mime: String)
        ensures
            mime@ == self@.mime,
    {
        self.mime.clone()
    }

    /// The bytes as stored.
    pub fn data(&self) -> (data: &[u8])
        ensures
            data@ == self@.data,
    {
        self.data.as_slice()
    }

    /// How the stored bytes are to be read.
    pub fn compress(&self) -> (compress: Compress)
        ensures
            compress == self@.compress,
    {
        self.compress
    }
}

impl Clone for File {
    fn clone(&self) -> (copy: Self)
        ensures
            copy@ == self@,
    {
        File { mime: self.mime.clone(), data: self.data.clone(), compress: self.compress }
    }
}

} // verus!
