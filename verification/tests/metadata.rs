use luneweb::metadata::{magic, magic_noconsole, Metadata, MetadataError};

#[test]
fn markers_spell_their_names() {
    assert_eq!(&magic(), b"cr3sc3nt");
    assert_eq!(&magic_noconsole(), b"cr5sc5nt");
}

#[test]
fn chunk_layout() {
    let meta = Metadata { bytecode: vec![0xaa, 0xbb, 0xcc] };
    let bytes = meta.to_bytes(magic());
    let mut expected = vec![0xaa, 0xbb, 0xcc];
    expected.extend_from_slice(&[0, 0, 0, 0, 0, 0, 0, 3]);
    expected.extend_from_slice(b"cr3sc3nt");
    assert_eq!(bytes, expected);
}

#[test]
fn size_is_big_endian() {
    let meta = Metadata { bytecode: vec![7; 0x0102] };
    let bytes = meta.to_bytes(magic_noconsole());
    assert_eq!(&bytes[0x0102..0x0102 + 8], &[0, 0, 0, 0, 0, 0, 1, 2]);
    assert_eq!(&bytes[0x0102 + 8..], b"cr5sc5nt");
}

#[test]
fn reads_back_the_whole_chunk() {
    let meta = Metadata { bytecode: vec![1, 2, 3, 4, 5] };
    let chunk = meta.to_bytes(magic());
    let mut binary = vec![0x7f, b'E', b'L', b'F'];
    binary.extend_from_slice(&chunk);
    let read = Metadata::from_bytes(&binary).unwrap();
    assert_eq!(read.bytecode, chunk);
}

#[test]
fn rejects_what_is_not_standalone() {
    assert_eq!(Metadata::from_bytes(b"").unwrap_err(), MetadataError::NotStandalone);
    assert_eq!(Metadata::from_bytes(b"cr3sc3nt").unwrap_err(), MetadataError::NotStandalone);
    let plain = vec![0u8; 64];
    assert_eq!(Metadata::from_bytes(&plain).unwrap_err(), MetadataError::NotStandalone);
}

#[test]
fn rejects_a_size_larger_than_the_binary() {
    let mut bytes = vec![1, 2, 3];
    bytes.extend_from_slice(&[0, 0, 0, 0, 0, 0, 0, 4]);
    bytes.extend_from_slice(b"cr3sc3nt");
    assert_eq!(Metadata::from_bytes(&bytes).unwrap_err(), MetadataError::Truncated);
}

#[test]
fn detects_both_markers() {
    let meta = Metadata { bytecode: vec![1] };
    assert_eq!(Metadata::check_bytes(&meta.to_bytes(magic())), (true, false));
    assert_eq!(Metadata::check_bytes(&meta.to_bytes(magic_noconsole())), (true, true));
    assert_eq!(Metadata::check_bytes(b"plain text"), (false, false));
}

#[test]
fn patched_binary_ends_with_the_chunk() {
    let patched = Metadata::patch_bin(vec![9, 9], vec![5, 6], true);
    let mut expected = vec![9, 9, 5, 6];
    expected.extend_from_slice(&[0, 0, 0, 0, 0, 0, 0, 2]);
    expected.extend_from_slice(b"cr5sc5nt");
    assert_eq!(patched, expected);
}

#[test]
fn compiled_script_is_carried_in_the_binary() {
    let source = b"return 1 + 1";
    let patched = Metadata::create_patched_bin(vec![1, 2, 3], source, false);
    assert_eq!(&patched[..3], &[1, 2, 3]);
    assert_eq!(Metadata::check_bytes(&patched), (true, false));
    let chunk = Metadata::from_bytes(&patched).unwrap().bytecode;
    assert_eq!(chunk.len(), patched.len() - 3);
    let bytecode = &chunk[..chunk.len() - 16];
    assert!(!bytecode.is_empty());
    assert_ne!(bytecode, source);
    let again = Metadata::create_patched_bin(vec![1, 2, 3], source, false);
    assert_eq!(patched, again);
}
