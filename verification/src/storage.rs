//! What can go wrong in the storage under a replica, and how the failures
//! of the snapshot format and of the storage engine are reported.

use savefile::SavefileError;
use vstd::prelude::*;
use vstd::string::StringExecFns;

verus! {

#[verifier::external_type_specification]
#[verifier::external_body]
pub struct ExIoError(std::io::Error);

#[verifier::external_type_specification]
#[verifier::external_body]
pub struct ExSavefileError(SavefileError);

pub type StorageResult<T> = Result<T, StorageError>;

pub enum StorageError {
    Io(std::io::Error),
    /// The key is not there.
    NotFound,
    Unknown(String),
    /// The storage or a snapshot of it is damaged.
    CorruptionDetected(String),
}

/// A storage error, with its message as text.
pub enum StorageErrorView {
    Io(std::io::Error),
    NotFound,
    Unknown(Seq<char>),
    CorruptionDetected(Seq<char>),
}

impl View for StorageError {
    type V = StorageErrorView;

    open spec fn view(&self) -> StorageErrorView {
        match *self {
            StorageError::Io(io_error) => StorageErrorView::Io(io_error),
            StorageError::NotFound => StorageErrorView::NotFound,
            StorageError::Unknown(message) => StorageErrorView::Unknown(message@),
            StorageError::CorruptionDetected(message) => StorageErrorView::CorruptionDetected(
                message@,
            ),
        }
    }
}

/// Why a snapshot could not be written or read.
pub enum SnapshotFault {
    IncompatibleSchema { message: String },
    Io { io_error: std::io::Error },
    InvalidUtf8 { msg: String },
    MemoryAllocationLayout,
    ArrayvecCapacity { msg: String },
    ShortRead,
    Cryptography,
    SizeOverflow,
    WrongVersion { msg: String },
    General { msg: String },
    PoisonedMutex,
    CompressionSupportNotCompiledIn,
    InvalidChar,
    /// A failure that has no name here.
    Other,
}

/// Why the storage engine gave up.
pub enum EngineFault {
    CollectionNotFound,
    Unsupported(String),
    ReportableBug(String),
    Io(std::io::Error),
    /// The storage file is damaged: where, and how the engine got there,
    /// each as the engine prints it.
    Corruption { at: String, bt: String },
}

/// The storage error that stands for a failure of the snapshot format. A
/// failure that shows damaged or unreadable data is a corruption, with a
/// message that says what was found; a failure of the I/O under it is
/// passed on as it is; everything else is unknown.
pub open spec fn snapshot_error(fault: SnapshotFault) -> StorageErrorView {
    match fault {
        SnapshotFault::IncompatibleSchema { message } => StorageErrorView::CorruptionDetected(
            message@,
        ),
        SnapshotFault::Io { io_error } => StorageErrorView::Io(io_error),
        SnapshotFault::InvalidUtf8 { msg } => StorageErrorView::CorruptionDetected(
            "Invalid UTF-8 char in snapshot file! "@ + msg@,
        ),
        SnapshotFault::MemoryAllocationLayout => StorageErrorView::CorruptionDetected(
            "Snapshot file invalid memory allocation layout!"@,
        ),
        SnapshotFault::ArrayvecCapacity { msg } => StorageErrorView::CorruptionDetected(
            "Snapshot file invalid arrayvec capacity! "@ + msg@,
        ),
        SnapshotFault::ShortRead => StorageErrorView::CorruptionDetected(
            "Snapshot file ended unexpectedly!"@,
        ),
        SnapshotFault::Cryptography => StorageErrorView::CorruptionDetected(
            "Snapshot file checksum mismatch!"@,
        ),
        SnapshotFault::SizeOverflow => StorageErrorView::CorruptionDetected(
            "Size overflow in snapshot file!"@,
        ),
        SnapshotFault::WrongVersion { msg } => StorageErrorView::CorruptionDetected(
            "Invalid snapshot version! "@ + msg@,
        ),
        SnapshotFault::General { msg } => StorageErrorView::Unknown(msg@),
        SnapshotFault::PoisonedMutex => StorageErrorView::Unknown(
            "Poisoned mutex when traversing snapshot to be saved!"@,
        ),
        SnapshotFault::CompressionSupportNotCompiledIn => StorageErrorView::Unknown(
            "Snapshot compression not supported!"@,
        ),
        SnapshotFault::InvalidChar => StorageErrorView::CorruptionDetected(
            "Invalid char in snapshot file!"@,
        ),
        SnapshotFault::Other => StorageErrorView::Unknown("Unknown snapshot error!"@),
    }
}

/// The storage error that stands for a failure of the storage engine.
pub open spec fn engine_error(fault: EngineFault) -> StorageErrorView {
    match fault {
        EngineFault::CollectionNotFound => StorageErrorView::NotFound,
        EngineFault::Unsupported(message) => StorageErrorView::Unknown(message@),
        EngineFault::ReportableBug(message) => StorageErrorView::Unknown(message@),
        EngineFault::Io(io_error) => StorageErrorView::Io(io_error),
        EngineFault::Corruption { at, bt } => StorageErrorView::CorruptionDetected(
            "Storage file is corrupted at "@ + at@ + " "@ + bt@,
        ),
    }
}

/// The failure that `error` stands for.
///
/// Trusted: this tells the variants of `savefile::SavefileError` apart and
/// moves their fields. Nothing is claimed of which variant comes out.
#[verifier::external_body]
fn snapshot_fault(error: SavefileError) -> SnapshotFault {
    match error {
        SavefileError::IncompatibleSchema { message } => SnapshotFault::IncompatibleSchema { message },
        SavefileError::IOError { io_error } => SnapshotFault::Io { io_error },
        SavefileError::InvalidUtf8 { msg } => SnapshotFault::InvalidUtf8 { msg },
        SavefileError::MemoryAllocationLayoutError => SnapshotFault::MemoryAllocationLayout,
        SavefileError::ArrayvecCapacityError { msg } => SnapshotFault::ArrayvecCapacity { msg },
        SavefileError::ShortRead => SnapshotFault::ShortRead, SavefileError::CryptographyError => SnapshotFault::Cryptography,
        SavefileError::SizeOverflow => SnapshotFault::SizeOverflow,
        SavefileError::WrongVersion { msg } => SnapshotFault::WrongVersion { msg },
        SavefileError::GeneralError { msg } => SnapshotFault::General { msg },
        SavefileError::PoisonedMutex => SnapshotFault::PoisonedMutex,
        SavefileError::CompressionSupportNotCompiledIn => SnapshotFault::CompressionSupportNotCompiledIn,
        SavefileError::InvalidChar => SnapshotFault::InvalidChar,
        _ => SnapshotFault::Other,
    }
}

impl StorageError {
    /// Reports a failure of the snapshot format as a storage error.
    pub fn of_snapshot_fault(fault: SnapshotFault) -> (error: StorageError)
        ensures
            error@ == snapshot_error(fault),
    {
        match fault {
            SnapshotFault::IncompatibleSchema { message } => StorageError::CorruptionDetected(
                message,
            ),
            SnapshotFault::Io { io_error } => StorageError::Io(io_error),
            SnapshotFault::InvalidUtf8 { msg } => StorageError::CorruptionDetected(
                String::from_str("Invalid UTF-8 char in snapshot file! ").concat(msg.as_str()),
            ),
            SnapshotFault::MemoryAllocationLayout => StorageError::CorruptionDetected(
                String::from_str("Snapshot file invalid memory allocation layout!"),
            ),
            SnapshotFault::ArrayvecCapacity { msg } => StorageError::CorruptionDetected(
                String::from_str("Snapshot file invalid arrayvec capacity! ").concat(msg.as_str()),
            ),
            SnapshotFault::ShortRead => StorageError::CorruptionDetected(
                String::from_str("Snapshot file ended unexpectedly!"),
            ),
            SnapshotFault::Cryptography => StorageError::CorruptionDetected(
                String::from_str("Snapshot file checksum mismatch!"),
            ),
            SnapshotFault::SizeOverflow => StorageError::CorruptionDetected(
                String::from_str("Size overflow in snapshot file!"),
            ),
            SnapshotFault::WrongVersion { msg } => StorageError::CorruptionDetected(
                String::from_str("Invalid snapshot version! ").concat(msg.as_str()),
            ),
            SnapshotFault::General { msg } => StorageError::Unknown(msg),
            SnapshotFault::PoisonedMutex => StorageError::Unknown(
                String::from_str("Poisoned mutex when traversing snapshot to be saved!"),
            ),
            SnapshotFault::CompressionSupportNotCompiledIn => StorageError::Unknown(
                String::from_str("Snapshot compression not supported!"),
            ),
            SnapshotFault::InvalidChar => StorageError::CorruptionDetected(
                String::from_str("Invalid char in snapshot file!"),
            ),
            SnapshotFault::Other => StorageError::Unknown(
                String::from_str("Unknown snapshot error!"),
            ),
        }
    }

    /// Reports a failure of the storage engine as a storage error.
    pub fn of_engine_fault(fault: EngineFault) -> (error: StorageError)
        ensures
            error@ == engine_error(fault),
    {
        match fault {
            EngineFault::CollectionNotFound => StorageError::NotFound,
            EngineFault::Unsupported(message) => StorageError::Unknown(message),
            EngineFault::ReportableBug(message) => StorageError::Unknown(message),
            EngineFault::Io(io_error) => StorageError::Io(io_error),
            EngineFault::Corruption { at, bt } => StorageError::CorruptionDetected(
                String::from_str("Storage file is corrupted at ").concat(at.as_str()).concat(
                    " ",
                ).concat(bt.as_str()),
            ),
        }
    }

    /// Reports an error of the snapshot format as a storage error: the
    /// error of some failure that [`snapshot_error`] knows.
    pub fn of_snapshot_error(error: SavefileError) -> (reported: StorageError)
        ensures
            exists|fault: SnapshotFault| reported@ == #[trigger] snapshot_error(fault),
    {
        Self::of_snapshot_fault(snapshot_fault(error))
    }
}

} // verus!
