//! Packing of a saved module.
//!
//! A module is stored as a gzip stream of its serialized contents. This
//! module packs and unpacks the bytes; reading and writing the file, and
//! turning contents into bytes, is left to the caller.

use crate::module::{Module, ModuleView};
use vstd::prelude::*;

verus! {

#[verifier::external_type_specification]
#[verifier::external_body]
pub struct ExIoError(std::io::Error);

/// The gzip stream that `flate2` makes of `data` at its default level of
/// compression, or `None` where it reports an error.
pub uninterp spec fn gz_encoded(data: Seq<u8>) -> Option<Seq<u8>>;

/// What `flate2` decodes the first member of the gzip stream `data` to, or
/// `None` where it reports an error.
pub uninterp spec fn gz_decoded(data: Seq<u8>) -> Option<Seq<u8>>;

/// Why bytes could not be packed or unpacked.
#[derive(PartialEq, Eq, Structural, Clone, Copy, Debug)]
pub enum StorageError {
    /// The encoder failed.
    Packing,
    /// The bytes are not a sound gzip stream.
    Corrupt,
}

/// Runs `data` through `flate2::write::GzEncoder` with
/// `Compression::default()`, writing to memory.
///
/// Believed, not proved: what comes out is what is named [`gz_encoded`],
/// an error comes out exactly where that is `None`, and `flate2` decodes a
/// stream that comes out back to `data`.
#[verifier::external_body]
fn gz_encode(data: &Vec<u8>) -> (r: Result<Vec<u8>, std::io::Error>)
    ensures
        match r {
            Ok(v) => gz_encoded(data@) == Some(v@) && gz_decoded(v@) == Some(data@),
            Err(_) => gz_encoded(data@) is None,
        },
{
    let mut encoder = flate2::write::GzEncoder::new(Vec::new(), flate2::Compression::default());
    match std::io::Write::write_all(&mut encoder, data) {
        Ok(()) => encoder.finish(),
        Err(e) => Err(e),
    }
}

/// Reads `data` to the end through `flate2::bufread::GzDecoder`.
///
/// Believed, not proved: what comes out is what is named [`gz_decoded`],
/// and an error comes out exactly where that is `None`.
#[verifier::external_body]
fn gz_decode(data: &Vec<u8>) -> (r: Result<Vec<u8>, std::io::Error>)
    ensures
        match r {
            Ok(v) => gz_decoded(data@) == Some(v@),
            Err(_) => gz_decoded(data@) is None,
        },
{
    let mut out = Vec::new();
    let mut decoder = flate2::bufread::GzDecoder::new(data.as_slice());
    match std::io::Read::read_to_end(&mut decoder, &mut out) {
        Ok(_) => Ok(out),
        Err(e) => Err(e),
    }
}

/// What packing gives for each outcome of the encoder.
pub fn packed(outcome: Result<Vec<u8>, std::io::Error>) -> (r: Result<Vec<u8>, StorageError>)
    ensures
        match outcome {
            Ok(v) => r == Ok::<Vec<u8>, StorageError>(v),
            Err(_) => r == Err::<Vec<u8>, StorageError>(StorageError::Packing),
        },
{
    match outcome {
        Ok(v) => Ok(v),
        Err(_) => Err(StorageError::Packing),
    }
}

/// What unpacking gives for each outcome of the decoder.
pub fn unpacked(outcome: Result<Vec<u8>, std::io::Error>) -> (r: Result<Vec<u8>, StorageError>)
    ensures
        match outcome {
            Ok(v) => r == Ok::<Vec<u8>, StorageError>(v),
            Err(_) => r == Err::<Vec<u8>, StorageError>(StorageError::Corrupt),
        },
{
    match outcome {
        Ok(v) => Ok(v),
        Err(_) => Err(StorageError::Corrupt),
    }
}

/// Packs the serialized contents of a module for saving: the gzip stream
/// of `contents`, which unpacks to `contents`, or `Packing` where the
/// encoder gives none.
pub fn pack(contents: &Vec<u8>) -> (r: Result<Vec<u8>, StorageError>)
    ensures
        match r {
            Ok(v) => gz_encoded(contents@) == Some(v@) && gz_decoded(v@) == Some(contents@),
            Err(e) => e == StorageError::Packing && gz_encoded(contents@) is None,
        },
{
    packed(gz_encode(contents))
}

/// Unpacks the bytes of a saved module: the serialized contents if the
/// bytes are a sound gzip stream, `Corrupt` if they are not.
pub fn unpack(data: &Vec<u8>) -> (r: Result<Vec<u8>, StorageError>)
    ensures
        match r {
            Ok(v) => gz_decoded(data@) == Some(v@),
            Err(e) => e == StorageError::Corrupt && gz_decoded(data@) is None,
        },
{
    unpacked(gz_decode(data))
}

impl Module {
    /// Notes the beat division of the editor in the module, which is
    /// saved with it.
    pub fn prepare_save(&mut self, division: u8)
        ensures
            final(self)@ == (ModuleView { division, ..old(self)@ }),
    {
        self.division = division;
    }

    /// Notes that the module is saved as it stands.
    pub fn mark_saved(&mut self)
        ensures
            final(self)@ == (ModuleView { has_unsaved_changes: false, ..old(self)@ }),
    {
        self.has_unsaved_changes = false;
    }
}

} // verus!
