use vstd::prelude::*;
use std::path::Component;

verus! {

#[verifier::external_type_specification]
#[verifier::external_body]
pub struct ExIoError(std::io::Error);

/// zstd compression level used for the payload.
pub const COMPRESSION_LEVEL: i32 = 9;

/// The packed form of an SSH directory: a zstd-compressed tar archive and
/// the number of files it holds.
pub struct PackResult {
    pub data: Vec<u8>,
    pub file_count: u64,
}

/// A failure while compressing or decompressing the payload.
#[derive(Debug)]
pub enum ArchiveError {
    Io(std::io::Error),
}

/// The single zstd frame that `zstd::encode_all` makes of `data` at `level`.
pub uninterp spec fn zstd_compressed(data: Seq<u8>, level: i32) -> Seq<u8>;

/// What `zstd::decode_all` gives back for `data`, when it succeeds.
pub uninterp spec fn zstd_decompressed(data: Seq<u8>) -> Option<Seq<u8>>;

/// `zstd::encode_all` over the bytes of `data`. Reading a slice and writing a
/// `Vec` cannot fail, and zstd accepts the levels 1 to 22, so compression at
/// those levels succeeds (a context that cannot be allocated panics inside
/// the crate rather than failing). zstd is lossless: decoding the frame gives
/// back `data`.
#[verifier::external_body]
fn zstd_encode(data: &[u8], level: i32) -> (res: Result<Vec<u8>, std::io::Error>)
    ensures
        1 <= level <= 22 ==> res is Ok,
        res matches Ok(v) ==> v@ == zstd_compressed(data@, level),
        res matches Ok(v) ==> zstd_decompressed(v@) == Some(data@),
{
    zstd::encode_all(data, level)
}

/// `zstd::decode_all` over the bytes of `data`: it succeeds exactly when
/// `data` decodes, with the decoded bytes.
#[verifier::external_body]
fn zstd_decode(data: &[u8]) -> (res: Result<Vec<u8>, std::io::Error>)
    ensures
        res is Ok <==> zstd_decompressed(data@) is Some,
        res matches Ok(v) ==> zstd_decompressed(data@) == Some(v@),
{
    zstd::decode_all(data)
}

/// What `pack` makes of a tar archive of `file_count` files: the archive
/// compressed at `COMPRESSION_LEVEL`, which decodes back to the archive.
pub open spec fn packed_from(p: PackResult, tar_archive: Seq<u8>, file_count: u64) -> bool {
    &&& p.file_count == file_count
    &&& p.data@ == zstd_compressed(tar_archive, COMPRESSION_LEVEL)
    &&& zstd_decompressed(p.data@) == Some(tar_archive)
}

/// What `decompress_archive` answers for a payload: success exactly when the
/// payload decodes, with the decoded bytes.
pub open spec fn decompressed_from(res: Result<Vec<u8>, ArchiveError>, data: Seq<u8>) -> bool {
    &&& (res is Ok <==> zstd_decompressed(data) is Some)
    &&& (res matches Ok(tar) ==> zstd_decompressed(data) == Some(tar@))
}

/// Compresses a tar archive of `file_count` files into the payload sent to the
/// receiver.
pub fn pack(tar_archive: &[u8], file_count: u64) -> (res: Result<PackResult, ArchiveError>)
    ensures
        res is Ok,
        res matches Ok(p) ==> packed_from(p, tar_archive@, file_count),
{
    match zstd_encode(tar_archive, COMPRESSION_LEVEL) {
        Ok(data) => Ok(PackResult { data, file_count }),
        Err(e) => Err(ArchiveError::Io(e)),
    }
}

/// Decompresses a received payload back into its tar archive.
pub fn decompress_archive(data: &[u8]) -> (res: Result<Vec<u8>, ArchiveError>)
    ensures
        decompressed_from(res, data@),
{
    match zstd_decode(data) {
        Ok(tar) => Ok(tar),
        Err(e) => Err(ArchiveError::Io(e)),
    }
}

/// What the receiver restores is what the sender packed: decompressing the
/// payload that `pack` made of a tar archive succeeds, and gives back exactly
/// that archive.
pub proof fn lemma_unpack_restores_pack(
    tar_archive: Seq<u8>,
    file_count: u64,
    packed: PackResult,
    unpacked: Result<Vec<u8>, ArchiveError>,
)
    requires
        packed_from(packed, tar_archive, file_count),
        decompressed_from(unpacked, packed.data@),
    ensures
        unpacked matches Ok(t) && t@ == tar_archive,
{
}

/// The kinds of component a path is made of (std's `Component`).
#[derive(Clone, Copy, Debug, PartialEq, Eq, Structural)]
pub enum PathPart {
    Prefix,
    RootDir,
    CurDir,
    ParentDir,
    Normal,
}

/// A path is safe to extract under the destination when every component is
/// a plain name: no root, drive prefix, `.` or `..`.
pub open spec fn safe_path(parts: Seq<PathPart>) -> bool {
    forall|i: int| 0 <= i < parts.len() ==> parts[i] == PathPart::Normal
}

/// Decides whether an archive entry may be written: only paths made of plain
/// names are.
pub fn is_safe_path(parts: &[PathPart]) -> (safe: bool)
    ensures
        safe == safe_path(parts@),
{
    let mut i: usize = 0;
    while i < parts.len()
        invariant
            i <= parts@.len(),
            forall|j: int| 0 <= j < i ==> parts@[j] == PathPart::Normal,
        decreases parts@.len() - i,
    {
        if parts[i] != PathPart::Normal {
            return false;
        }
        i = i + 1;
    }
    true
}

/// How many of the archive's entries are extracted: those with safe paths.
pub open spec fn count_safe(paths: Seq<Seq<PathPart>>) -> nat
    decreases paths.len(),
{
    if paths.len() == 0 {
        0
    } else {
        count_safe(paths.drop_last()) + if safe_path(paths.last()) {
            1nat
        } else {
            0nat
        }
    }
}

/// How many entries of a plan are marked to be written.
pub open spec fn count_written(marks: Seq<bool>) -> nat {
    marks.filter(|b: bool| b).len()
}

/// The entries of a path list whose paths are safe, in order.
pub open spec fn safe_entries(paths: Seq<Seq<PathPart>>) -> Seq<Seq<PathPart>> {
    paths.filter(|p: Seq<PathPart>| safe_path(p))
}

/// The restore reports one file per safe entry: the count is the number of
/// safe paths, never more than the entries, and all of them when every path
/// is safe (an archive of `n` plain files restores `n`).
pub proof fn lemma_count_safe_counts_each(paths: Seq<Seq<PathPart>>)
    ensures
        count_safe(paths) == safe_entries(paths).len(),
        count_safe(paths) <= paths.len(),
        (forall|i: int| 0 <= i < paths.len() ==> safe_path(#[trigger] paths[i])) ==> count_safe(
            paths,
        ) == paths.len(),
    decreases paths.len(),
{
    if paths.len() > 0 {
        lemma_count_safe_counts_each(paths.drop_last());
        reveal(Seq::filter);
        assert(safe_entries(paths) == if safe_path(paths.last()) {
            safe_entries(paths.drop_last()).push(paths.last())
        } else {
            safe_entries(paths.drop_last())
        });
        if forall|i: int| 0 <= i < paths.len() ==> safe_path(#[trigger] paths[i]) {
            assert forall|i: int| 0 <= i < paths.drop_last().len() implies safe_path(
                #[trigger] paths.drop_last()[i],
            ) by {
                assert(paths.drop_last()[i] == paths[i]);
            }
            assert(safe_path(paths[paths.len() - 1]));
        }
    }
}

/// The component lists of the entries' paths.
pub open spec fn part_lists(paths: Seq<Vec<PathPart>>) -> Seq<Seq<PathPart>> {
    Seq::new(paths.len(), |i: int| paths[i]@)
}

/// The component kinds of the paths of a tar archive's entries, in order, as
/// the `tar` crate reads them; `None` when it cannot read the archive.
pub uninterp spec fn tar_entry_paths(archive: Seq<u8>) -> Option<Seq<Seq<PathPart>>>;

/// Lists a tar archive with `tar::Archive::entries`, giving each entry's path
/// (`tar::Entry::path`) as the kinds of its components; `None` when an entry
/// or its path cannot be read.
#[verifier::external_body]
fn list_tar_paths(archive: &[u8]) -> (res: Option<Vec<Vec<PathPart>>>)
    ensures
        res matches Some(paths) ==> tar_entry_paths(archive@) == Some(part_lists(paths@)),
        res is None ==> tar_entry_paths(archive@) is None,
{
    let mut paths = Vec::new();
    for entry in tar::Archive::new(archive).entries().ok()? {
        let path = entry.ok()?.path().ok()?.into_owned();
        paths.push(path.components().map(|c| match c {
            Component::Prefix(_) => PathPart::Prefix,
            Component::RootDir => PathPart::RootDir,
            Component::CurDir => PathPart::CurDir,
            Component::ParentDir => PathPart::ParentDir,
            Component::Normal(_) => PathPart::Normal,
        }).collect());
    }
    Some(paths)
}

/// Decides, entry by entry, which archive entries are written and which are
/// skipped as unsafe, and how many files the extraction restores.
pub fn extraction_plan(paths: &Vec<Vec<PathPart>>) -> (plan: (Vec<bool>, u64))
    ensures
        plan.0@.len() == paths@.len(),
        forall|i: int| 0 <= i < paths@.len() ==> plan.0@[i] == safe_path(#[trigger] paths@[i]@),
        plan.1 == count_safe(part_lists(paths@)),
        plan.1 == count_written(plan.0@),
{
    let mut write: Vec<bool> = Vec::new();
    let mut count: u64 = 0;
    let mut i: usize = 0;
    while i < paths.len()
        invariant
            i <= paths@.len(),
            write@.len() == i,
            forall|j: int| 0 <= j < i ==> write@[j] == safe_path(#[trigger] paths@[j]@),
            count == count_safe(part_lists(paths@).take(i as int)),
            count == count_written(write@),
            count <= i,
        decreases paths@.len() - i,
    {
        let safe = is_safe_path(paths[i].as_slice());
        let ghost before = write@;
        write.push(safe);
        proof {
            assert(write@.drop_last() =~= before);
            reveal(Seq::filter);
            assert(count_written(write@) == count_written(before) + if safe {
                1nat
            } else {
                0nat
            });
            let dv = part_lists(paths@);
            assert(dv.take(i + 1).drop_last() =~= dv.take(i as int));
            assert(dv.take(i + 1).last() == paths@[i as int]@);
        }
        if safe {
            count = count + 1;
        }
        i = i + 1;
    }
    proof {
        assert(part_lists(paths@).take(paths@.len() as int) =~= part_lists(paths@));
    }
    (write, count)
}

/// Plans the extraction of a decompressed tar archive: lists its entries'
/// paths and decides, entry by entry, which are written (plain names only)
/// and how many files are restored; `None` when the archive cannot be read.
pub fn plan_extraction(archive: &[u8]) -> (res: Option<(Vec<bool>, u64)>)
    ensures
        res is Some <==> tar_entry_paths(archive@) is Some,
        res matches Some(plan) ==> {
            let paths = tar_entry_paths(archive@)->0;
            &&& plan.0@.len() == paths.len()
            &&& forall|i: int| 0 <= i < paths.len() ==> plan.0@[i] == safe_path(#[trigger] paths[i])
            &&& plan.1 == count_safe(paths)
            &&& plan.1 == count_written(plan.0@)
        },
{
    match list_tar_paths(archive) {
        Some(paths) => {
            let plan = extraction_plan(&paths);
            assert forall|i: int| 0 <= i < part_lists(paths@).len() implies plan.0@[i] == safe_path(
                #[trigger] part_lists(paths@)[i],
            ) by {
                assert(part_lists(paths@)[i] == paths@[i]@);
            }
            Some(plan)
        },
        None => None,
    }
}

} // verus!
