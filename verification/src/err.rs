use vstd::prelude::*;

verus! {

/// Error taxonomy of the parser.  Every record result is an independent
/// success-or-error value; record-level causes are wrapped in
/// `FailedToDeserializeRecord` with the record id they belong to.
#[derive(Debug, PartialEq, Eq)]
pub enum Error {
    /// An underlying read failed at `offset` while trying to read `t`.
    FailedToRead { offset: u64, t: String },
    /// Reached the end of the buffer while trying to allocate a chunk.
    IncompleteChunk { chunk_number: u16 },
    /// Bad record magic; expected `2a2a0000`.
    InvalidEvtxRecordHeaderMagic { magic: u32 },
    /// Bad chunk magic; expected `ElfChnk0`.
    InvalidEvtxChunkMagic { magic: u64 },
    /// Bad file magic; expected `ElfFile0`.
    InvalidEvtxFileHeaderMagic { magic: u64 },
    /// The chunk data CRC32 did not match the header field.
    InvalidChunkChecksum {},
    /// A record failed to deserialize; the cause is attributed to it.
    FailedToDeserializeRecord { record_id: u64, source: Box<Error> },
    /// An unknown byte was read where a binxml token was expected.
    InvalidToken { value: u8, offset: u64 },
    /// An unknown byte was read where a binxml value variant was expected.
    InvalidValueVariant { value: u8, offset: u64 },
    /// A token kind that this library does not model.
    UnimplementedToken { name: String, offset: u64 },
    /// A UTF-16 string failed to decode.
    FailedToDecodeUTF16String { offset: u64 },
    /// A UTF-8 string failed to decode.
    FailedToDecodeUTF8String { offset: u64 },
    /// A GUID could not be read.
    FailedToReadGUID { offset: u64 },
    /// An NT-SID could not be read.
    FailedToReadNTSID { offset: u64 },
    /// The record model could not be assembled.
    FailedToCreateRecordModel { message: String },
    /// Writing the XML document failed.
    XmlOutputError { source: QuickXmlError },
    /// The JSON document would be structurally invalid.
    JsonStructureError { message: String },
    /// A feature that is not modelled.
    Unimplemented { name: String },
    /// An unexpected error.
    Any { detail: String },
}

pub type Result<T> = core::result::Result<T, Error>;

/// Errors raised while serializing a record model to an output document.
#[derive(Debug, Clone, PartialEq, Eq)]
pub enum SerializationError {
    Unimplemented { message: String },
    StructureBuilderError { message: String },
    XmlOutputError { message: String },
    JsonStructureError { message: String },
}

pub type SerializationResult<T> = core::result::Result<T, SerializationError>;

/// Adapter for the `quick-xml` error type, which keeps only the rendered
/// message so that the library's own error can carry it as a plain value.
#[derive(Debug, Clone, PartialEq, Eq)]
pub struct QuickXmlError {
    pub message: String,
}

impl QuickXmlError {
    pub fn new(message: String) -> (r: Self)
        ensures
            r.message == message,
    {
        QuickXmlError { message }
    }

    pub fn message(&self) -> (r: &String)
        ensures
            r == &self.message,
    {
        &self.message
    }
}

impl Error {
    /// Converts a serialization failure into the parser's own error.
    pub fn from_serialization(e: SerializationError) -> (r: Error)
        ensures
            r == spec_from_serialization(e),
    {
        match e {
            SerializationError::Unimplemented { message } => Error::Unimplemented { name: message },
            SerializationError::StructureBuilderError { message } => Error::FailedToCreateRecordModel { message },
            SerializationError::XmlOutputError { message } => Error::XmlOutputError {
                source: QuickXmlError { message },
            },
            SerializationError::JsonStructureError { message } => Error::JsonStructureError { message },
        }
    }
}

pub open spec fn spec_from_serialization(e: SerializationError) -> Error {
    match e {
        SerializationError::Unimplemented { message } => Error::Unimplemented { name: message },
        SerializationError::StructureBuilderError { message } => Error::FailedToCreateRecordModel { message },
        SerializationError::XmlOutputError { message } => Error::XmlOutputError {
            source: QuickXmlError { message },
        },
        SerializationError::JsonStructureError { message } => Error::JsonStructureError { message },
    }
}

} // verus!
