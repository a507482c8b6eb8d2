use ssh_migrator::archive::{
    decompress_archive, extraction_plan, is_safe_path, pack, plan_extraction, PathPart,
};

#[test]
fn pack_then_decompress_roundtrip() {
    let tar: Vec<u8> = (0..10_000u32).map(|i| (i % 13) as u8).collect();
    let packed = pack(&tar, 4).unwrap();
    assert_eq!(packed.file_count, 4);
    assert_ne!(packed.data, tar);
    assert!(packed.data.len() < tar.len());
    assert_eq!(decompress_archive(&packed.data).unwrap(), tar);
}

#[test]
fn empty_archive_roundtrip() {
    let packed = pack(&[], 0).unwrap();
    assert_eq!(decompress_archive(&packed.data).unwrap(), Vec::<u8>::new());
}

#[test]
fn garbage_is_refused() {
    assert!(decompress_archive(b"not zstd at all").is_err());
}

#[test]
fn only_plain_names_are_safe() {
    assert!(is_safe_path(&[PathPart::Normal, PathPart::Normal]));
    assert!(is_safe_path(&[]));
    assert!(!is_safe_path(&[PathPart::Normal, PathPart::ParentDir, PathPart::Normal]));
    assert!(!is_safe_path(&[PathPart::RootDir, PathPart::Normal]));
    assert!(!is_safe_path(&[PathPart::CurDir, PathPart::Normal]));
    assert!(!is_safe_path(&[PathPart::Prefix]));
}

#[test]
fn plan_skips_unsafe_entries_and_counts_the_rest() {
    let paths = vec![
        vec![PathPart::Normal],
        vec![PathPart::ParentDir, PathPart::Normal],
        vec![PathPart::Normal, PathPart::Normal],
        vec![PathPart::RootDir, PathPart::Normal],
    ];
    let (write, count) = extraction_plan(&paths);
    assert_eq!(write, vec![true, false, true, false]);
    assert_eq!(count, 2);
    assert_eq!(extraction_plan(&vec![]), (vec![], 0));
}

/// Appends a regular file whose header names it with exactly `name`.
fn append_raw(builder: &mut tar::Builder<Vec<u8>>, name: &[u8], data: &[u8]) {
    let mut header = tar::Header::new_old();
    header.as_old_mut().name[..name.len()].copy_from_slice(name);
    header.set_size(data.len() as u64);
    header.set_mode(0o600);
    header.set_entry_type(tar::EntryType::Regular);
    header.set_cksum();
    builder.append(&header, data).unwrap();
}

#[test]
fn plan_extraction_reads_the_archive_entries() {
    let mut builder = tar::Builder::new(Vec::new());
    append_raw(&mut builder, b"config", b"Host *");
    append_raw(&mut builder, b"../evil", b"x");
    append_raw(&mut builder, b"keys/id_ed25519", b"secret");
    append_raw(&mut builder, b"/etc/passwd", b"root");
    let archive = builder.into_inner().unwrap();
    assert_eq!(plan_extraction(&archive), Some((vec![true, false, true, false], 2)));
}

#[test]
fn plan_extraction_of_empty_and_unreadable_archives() {
    let empty = tar::Builder::new(Vec::new()).into_inner().unwrap();
    assert_eq!(plan_extraction(&empty), Some((vec![], 0)));
    assert_eq!(plan_extraction(b"not a tar archive at all"), None);
}

#[test]
fn packed_archive_unpacks_to_its_plan() {
    let mut builder = tar::Builder::new(Vec::new());
    append_raw(&mut builder, b"known_hosts", b"example.org ssh-ed25519 AAAA");
    let archive = builder.into_inner().unwrap();
    let packed = pack(&archive, 1).unwrap();
    let restored = decompress_archive(&packed.data).unwrap();
    assert_eq!(restored, archive);
    assert_eq!(plan_extraction(&restored), Some((vec![true], 1)));
}
