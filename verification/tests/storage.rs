use osctet::fx::FXSettings;
use osctet::module::Module;
use osctet::storage::{pack, packed, unpack, unpacked, StorageError};

#[test]
fn packed_bytes_unpack_to_the_contents() {
    let contents: Vec<u8> = (0..2000u32).map(|i| (i * 7 % 251) as u8).collect();
    let packed = pack(&contents).unwrap();
    assert_ne!(packed, contents);
    assert_eq!(&packed[..3], &[0x1f, 0x8b, 8]);
    assert_eq!(unpack(&packed), Ok(contents));
    let empty = pack(&Vec::new()).unwrap();
    assert!(!empty.is_empty());
    assert_eq!(unpack(&empty), Ok(Vec::new()));
}

#[test]
fn packing_is_the_same_each_time() {
    let contents = vec![1u8, 2, 3, 4, 4, 4, 4, 4, 4, 4, 4];
    assert_eq!(pack(&contents), pack(&contents));
}

#[test]
fn bytes_that_are_no_gzip_stream_are_corrupt() {
    assert_eq!(unpack(&vec![1, 2, 3, 4, 5]), Err(StorageError::Corrupt));
    assert_eq!(unpack(&Vec::new()), Err(StorageError::Corrupt));
    let mut packed = pack(&vec![9u8; 100]).unwrap();
    let last = packed.len() - 5;
    packed[last] ^= 0xff;
    assert_eq!(unpack(&packed), Err(StorageError::Corrupt));
    let mut cut = pack(&vec![9u8; 100]).unwrap();
    cut.truncate(12);
    assert_eq!(unpack(&cut), Err(StorageError::Corrupt));
}

#[test]
fn saving_notes_the_division() {
    let mut m = Module::new(FXSettings::default());
    m.has_unsaved_changes = true;
    m.prepare_save(6);
    assert_eq!(m.division, 6);
    assert!(m.has_unsaved_changes);
    m.mark_saved();
    assert!(!m.has_unsaved_changes);
}

#[test]
fn a_failed_encoder_is_a_packing_error() {
    let failed = std::io::Error::new(std::io::ErrorKind::Other, "full");
    assert_eq!(packed(Err(failed)), Err(StorageError::Packing));
    assert_eq!(packed(Ok(vec![1, 2])), Ok(vec![1, 2]));
    let failed = std::io::Error::new(std::io::ErrorKind::InvalidData, "bad");
    assert_eq!(unpacked(Err(failed)), Err(StorageError::Corrupt));
    assert_eq!(unpacked(Ok(vec![3])), Ok(vec![3]));
}

