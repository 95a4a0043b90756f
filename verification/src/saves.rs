//! The compression of save files: the save data of a chunk's blocks is stored deflated (with
//! the `flate2` crate, at its default compression level).

use vstd::prelude::*;

use std::io::{Read, Write};

verus! {

/// What deflating the bytes gives, at `flate2`'s default compression level.
pub uninterp spec fn deflated(data: Seq<u8>) -> Seq<u8>;

/// What inflating the bytes gives, if they are deflated data.
pub uninterp spec fn inflated(data: Seq<u8>) -> Option<Seq<u8>>;

/// `flate2::write::DeflateEncoder`, at the default compression level, writing into a `Vec` the
/// bytes given to `write_all` and then finishing the stream: the deflated bytes, from which
/// inflating gives back the data (deflate is lossless). Writing into a `Vec` cannot fail, and the
/// encoder reports errors only for a state that `new` never makes, so neither call fails here.
#[verifier::external_body]
fn deflate(data: &[u8]) -> (r: Vec<u8>)
    ensures
        r@ == deflated(data@),
        inflated(r@) == Some(data@),
{
    let mut encoder = flate2::write::DeflateEncoder::new(Vec::new(), flate2::Compression::default());
    encoder.write_all(data).unwrap();
    encoder.finish().unwrap()
}

/// `flate2::bufread::DeflateDecoder` read to the end: the inflated bytes, or `None` where the
/// bytes are not deflated data.
#[verifier::external_body]
fn inflate(data: &[u8]) -> (r: Option<Vec<u8>>)
    ensures
        match r {
            Some(d) => inflated(data@) == Some(d@),
            None => inflated(data@) is None,
        },
{
    let mut decoder = flate2::bufread::DeflateDecoder::new(data);
    let mut uncompressed = Vec::new();
    match decoder.read_to_end(&mut uncompressed) {
        Ok(_) => Some(uncompressed),
        Err(_) => None,
    }
}

/// Why the save data of a chunk could not be read.
#[derive(Debug, Clone, Copy, PartialEq, Eq, Structural)]
pub enum SaveDataError {
    /// The file does not hold deflated data.
    NotDeflated,
}

/// The contents of the save file of a chunk's blocks, from their (serialized) save data: the
/// deflated data, from which `chunk_save_data_from_file` gives the data back.
pub fn chunk_save_file_contents(uncompressed_data: &[u8]) -> (r: Vec<u8>)
    ensures
        r@ == deflated(uncompressed_data@),
        inflated(r@) == Some(uncompressed_data@),
{
    deflate(uncompressed_data)
}

/// The (serialized) save data of a chunk's blocks, from the contents of its save file, if there
/// is one: `None` where there is no file, else the inflated contents, or an error where the file
/// does not hold deflated data.
pub fn chunk_save_data_from_file(file_contents: Option<Vec<u8>>) -> (r: Option<
    Result<Vec<u8>, SaveDataError>,
>)
    ensures
        match file_contents {
            None => r is None,
            Some(c) => match inflated(c@) {
                Some(d) => r matches Some(Ok(x)) && x@ == d,
                None => r == Some(Err::<Vec<u8>, SaveDataError>(SaveDataError::NotDeflated)),
            },
        },
{
    match file_contents {
        None => None,
        Some(compressed_data) => match inflate(compressed_data.as_slice()) {
            Some(data) => Some(Ok(data)),
            None => Some(Err(SaveDataError::NotDeflated)),
        },
    }
}

} // verus!
