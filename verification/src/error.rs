//! The failure taxonomy of the ingestion subsystem.

use vstd::prelude::*;

verus! {

/// Everything that can go wrong while building a book.
///
/// Structural failures of the container decoder (`PrimaryTagMissing`,
/// `NoChapterTrack`, `ContainerFormat`, `TagFormat`, and the cover-art path
/// errors) make the single-file orchestrator fall back to the single-track
/// decoder; failures of the single-track decoder and of the folder
/// aggregator (`NotADirectory`, `EmptyFolder`, `MixedFilesInFolder`) are
/// fatal and reach the caller.
#[derive(Clone, Copy, Debug, PartialEq, Eq, Structural)]
pub enum BookError {
    /// The folder build was handed a path that is not a directory.
    NotADirectory,
    /// The cover-art target was derived from a path that is not a regular file.
    NotAFile,
    /// The folder holds no file in the single-chapter format.
    EmptyFolder,
    /// Files in one folder disagree on the (name, author) pair.
    MixedFilesInFolder,
    /// The cover-art target path has no parent directory.
    NoParentDirectory,
    /// The file carries no primary metadata tag.
    PrimaryTagMissing,
    /// No track of the container looks like a chapter track.
    NoChapterTrack,
    /// The container structure could not be decoded.
    ContainerFormat,
    /// The metadata tag could not be decoded.
    TagFormat,
}

impl BookError {
    /// A short human-readable description.
    pub fn message(self) -> (s: &'static str)
        ensures
            s@.len() > 0,
    {
        let s = match self {
            BookError::NotADirectory => "passed a path which is not a directory",
            BookError::NotAFile => "passed a path which is not a file",
            BookError::EmptyFolder => "passed a folder with no single-chapter files",
            BookError::MixedFilesInFolder => "passed a folder with files of mismatched metadata",
            BookError::NoParentDirectory => "the cover-art target path has no parent directory",
            BookError::PrimaryTagMissing => "the file has no primary tag",
            BookError::NoChapterTrack => "no chapter track was found in the container",
            BookError::ContainerFormat => "the container could not be decoded",
            BookError::TagFormat => "the tag could not be decoded",
        };
        proof {
            reveal_strlit("passed a path which is not a directory");
            reveal_strlit("passed a path which is not a file");
            reveal_strlit("passed a folder with no single-chapter files");
            reveal_strlit("passed a folder with files of mismatched metadata");
            reveal_strlit("the cover-art target path has no parent directory");
            reveal_strlit("the file has no primary tag");
            reveal_strlit("no chapter track was found in the container");
            reveal_strlit("the container could not be decoded");
            reveal_strlit("the tag could not be decoded");
        }
        s
    }
}

} // verus!
