//! Errors the library reports.
use vstd::prelude::*;

verus! {

/// Why an operation of the library was refused.
#[derive(Debug, Clone)]
pub enum GlideError {
    /// The id names no known Apple Speech locale model.
    UnknownAppleSpeechModel(String),
    /// The id names no known Parakeet model.
    UnknownParakeetModel(String),
    /// A model directory does not exist.
    ModelDirectoryMissing,
    /// A model directory lacks one of the files the model needs.
    MissingModelFile(String),
    /// `HOME` is not set, so the default model directory is unknown.
    HomeNotSet,
    /// An archive entry's path leaves the extraction directory.
    UnsafeArchivePath,
    /// The download was cancelled.
    DownloadCancelled,
    /// The overlay must be wider than zero.
    OverlayWidthNotPositive,
    /// The overlay must be taller than zero.
    OverlayHeightNotPositive,
    /// The overlay opacity must lie between 0 and 1.
    OverlayOpacityOutOfRange,
    /// A chat completion answer held no choice.
    NoChatChoices,
    /// The transcription came back blank.
    EmptyTranscription,
    /// The Apple helper answered without the text asked for.
    HelperReturnedNoText,
}

} // verus!
