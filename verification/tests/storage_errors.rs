use savefile::SavefileError;
use togo_vr::error::Error;
use togo_vr::storage::{EngineFault, SnapshotFault, StorageError};

fn corruption(error: StorageError) -> String {
    match error {
        StorageError::CorruptionDetected(message) => message,
        _ => panic!("a corruption was expected"),
    }
}

fn unknown(error: StorageError) -> String {
    match error {
        StorageError::Unknown(message) => message,
        _ => panic!("an unknown error was expected"),
    }
}

#[test]
fn snapshot_errors_that_show_damage_are_corruptions() {
    let schema = SavefileError::IncompatibleSchema { message: "field x".to_string() };
    assert_eq!(corruption(StorageError::of_snapshot_error(schema)), "field x");
    let utf8 = SavefileError::InvalidUtf8 { msg: "0xff".to_string() };
    assert_eq!(
        corruption(StorageError::of_snapshot_error(utf8)),
        "Invalid UTF-8 char in snapshot file! 0xff"
    );
    assert_eq!(
        corruption(StorageError::of_snapshot_error(SavefileError::MemoryAllocationLayoutError)),
        "Snapshot file invalid memory allocation layout!"
    );
    let arrayvec = SavefileError::ArrayvecCapacityError { msg: "3 < 4".to_string() };
    assert_eq!(
        corruption(StorageError::of_snapshot_error(arrayvec)),
        "Snapshot file invalid arrayvec capacity! 3 < 4"
    );
    assert_eq!(
        corruption(StorageError::of_snapshot_error(SavefileError::ShortRead)),
        "Snapshot file ended unexpectedly!"
    );
    assert_eq!(
        corruption(StorageError::of_snapshot_error(SavefileError::CryptographyError)),
        "Snapshot file checksum mismatch!"
    );
    assert_eq!(
        corruption(StorageError::of_snapshot_error(SavefileError::SizeOverflow)),
        "Size overflow in snapshot file!"
    );
    let version = SavefileError::WrongVersion { msg: "7".to_string() };
    assert_eq!(corruption(StorageError::of_snapshot_error(version)), "Invalid snapshot version! 7");
    assert_eq!(
        corruption(StorageError::of_snapshot_error(SavefileError::InvalidChar)),
        "Invalid char in snapshot file!"
    );
}

#[test]
fn other_snapshot_errors_are_unknown() {
    let general = SavefileError::GeneralError { msg: "something".to_string() };
    assert_eq!(unknown(StorageError::of_snapshot_error(general)), "something");
    assert_eq!(
        unknown(StorageError::of_snapshot_error(SavefileError::PoisonedMutex)),
        "Poisoned mutex when traversing snapshot to be saved!"
    );
    assert_eq!(
        unknown(StorageError::of_snapshot_error(SavefileError::CompressionSupportNotCompiledIn)),
        "Snapshot compression not supported!"
    );
    assert_eq!(
        unknown(StorageError::of_snapshot_error(SavefileError::TooManyArguments)),
        "Unknown snapshot error!"
    );
    assert_eq!(unknown(StorageError::of_snapshot_fault(SnapshotFault::Other)), "Unknown snapshot error!");
}

#[test]
fn an_io_failure_under_a_snapshot_is_passed_on() {
    let io_error = std::io::Error::new(std::io::ErrorKind::PermissionDenied, "no");
    match StorageError::of_snapshot_error(SavefileError::IOError { io_error }) {
        StorageError::Io(error) => assert_eq!(error.kind(), std::io::ErrorKind::PermissionDenied),
        _ => panic!("an I/O error was expected"),
    }
}

#[test]
fn engine_failures_become_storage_errors() {
    assert!(matches!(
        StorageError::of_engine_fault(EngineFault::CollectionNotFound),
        StorageError::NotFound
    ));
    assert_eq!(
        unknown(StorageError::of_engine_fault(EngineFault::Unsupported("merge".to_string()))),
        "merge"
    );
    assert_eq!(
        unknown(StorageError::of_engine_fault(EngineFault::ReportableBug("oops".to_string()))),
        "oops"
    );
    let io_error = std::io::Error::new(std::io::ErrorKind::NotFound, "gone");
    match StorageError::of_engine_fault(EngineFault::Io(io_error)) {
        StorageError::Io(error) => assert_eq!(error.kind(), std::io::ErrorKind::NotFound),
        _ => panic!("an I/O error was expected"),
    }
    let fault = EngineFault::Corruption { at: "Some(Inline(12))".to_string(), bt: "()".to_string() };
    assert_eq!(
        corruption(StorageError::of_engine_fault(fault)),
        "Storage file is corrupted at Some(Inline(12)) ()"
    );
}

#[test]
fn a_storage_error_is_an_error_of_the_store() {
    match Error::from(StorageError::NotFound) {
        Error::StorageError(StorageError::NotFound) => {}
        _ => panic!("the storage error was expected"),
    }
}
