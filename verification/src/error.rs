//! The failures that end the processing of an object or of an invocation.

use vstd::prelude::*;

verus! {

/// Why a container was refused.
#[derive(Clone, Copy, Debug, PartialEq, Eq, Structural)]
pub enum ContainerFormatError {
    /// The header could not be read: a wrong tag, an inconsistent field, or
    /// bytes that end before the sample data begins.
    BadHeader,
    /// The header declares a sample width other than 16 bits.
    UnsupportedBitDepth { bits: u16 },
    /// The header declares a channel count that is not transcoded: more than
    /// two channels, or one.
    UnsupportedLayout { channels: u16 },
}

/// Where the codec failed.
#[derive(Clone, Copy, Debug, PartialEq, Eq, Structural)]
pub enum CodecError {
    /// The sample count is beyond what the codec's interface can address.
    TooManySamples,
    /// The encoder could not be created or configured.
    Construction,
    /// The encoder refused the samples.
    Encoding,
    /// The encoder could not flush its buffered frames.
    Finalization,
}

/// What went wrong with staged or archived data.
#[derive(Clone, Copy, Debug, PartialEq, Eq, Structural)]
pub enum StorageError {
    /// Two outputs would be stored under one name.
    NameCollision,
    /// An output could not be written to, or read back from, staging storage.
    Staging,
    /// The archive could not be written.
    Archive,
}

/// Every failure of the pipeline. Each one ends the invocation.
#[derive(Clone, Copy, Debug, PartialEq, Eq, Structural)]
pub enum PipelineError {
    /// A chunk of the source object could not be fetched or handed over.
    SourceRead,
    ContainerFormat(ContainerFormatError),
    Encode(CodecError),
    Io(StorageError),
    /// The object store refused the delivery.
    Delivery,
}

impl PipelineError {
    /// The name of the pipeline step that failed.
    pub fn stage_name(&self) -> (name: &'static str)
        ensures
            name@ == (match *self {
                PipelineError::SourceRead => "fetch"@,
                PipelineError::ContainerFormat(_) => "decode"@,
                PipelineError::Encode(_) => "encode"@,
                PipelineError::Io(_) => "staging"@,
                PipelineError::Delivery => "delivery"@,
            }),
    {
        match self {
            PipelineError::SourceRead => "fetch",
            PipelineError::ContainerFormat(_) => "decode",
            PipelineError::Encode(_) => "encode",
            PipelineError::Io(_) => "staging",
            PipelineError::Delivery => "delivery",
        }
    }
}

} // verus!
