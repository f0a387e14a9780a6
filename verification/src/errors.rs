//! Error kinds surfaced by the daemon core.

use vstd::prelude::*;

verus! {

/// Failures of the image store while resolving or fetching bytecode.
#[derive(Clone, Debug)]
pub enum ImageError {
    /// The image reference could not be parsed.
    InvalidImageUrl(String),
    /// The registry refused or failed the manifest pull.
    ImageManifestPullFailure(String),
    /// The registry refused or failed the layer pull.
    BytecodeImagePullFailure(String),
    /// No layer with a supported media type, or the named file was absent.
    BytecodeImageExtractFailure,
    /// No base directory for an auth file could be determined.
    AuthFilePathBuildFailure,
    /// An auth file existed but could not be opened.
    OpenAuthFileFailure(String),
    /// An auth file existed but did not parse.
    AuthFileParseFailure(String),
    /// A matching auth entry was present but malformed.
    AuthFileDecodeFailure,
    /// The pull policy forbade fetching and the image was not cached.
    NotCached,
}

/// Failures while parsing attach parameters.
#[derive(Clone, Debug)]
pub enum ParseError {
    InvalidDirection { direction: String },
    InvalidProceedOn { proceed_on: i32 },
}

/// Every error kind a manager operation can surface.
#[derive(Clone, Debug)]
pub enum BpfmanError {
    /// A request was missing data or carried a value outside its domain.
    InvalidArgument(String),
    /// The id names no tracked program.
    NotFound,
    /// The image store failed; carries the underlying cause.
    BpfBytecodeError(ImageError),
    /// Attach parameters did not parse.
    InvalidAttach(ParseError),
    /// The kernel loader rejected the program.
    LoadFailure(String),
    /// The attach step failed.
    AttachFailure(String),
    /// No dispatcher capacity class fits the attach point's program count.
    NoCapacity,
    /// `map_owner_id` named a program that is not loaded or owns no maps.
    MapOwnerNotFound(u32),
    /// The program still shares its map directory with borrowers.
    MapOwnerInUse(u32),
    /// The persistent catalog failed; carries the operation and the cause.
    DatabaseError(String, String),
    /// The bytecode image metadata named a different program.
    BytecodeMetaDataMismatch { image_prog_name: String, provided_prog_name: String },
    /// An internal invariant was violated.
    Error(String),
}

} // verus!
