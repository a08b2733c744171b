//! Packaging: the products of a job folded into one archive with stored
//! (uncompressed) entries.
use std::io::Cursor;
use std::io::Write;
use vstd::prelude::*;
use zip::result::ZipError;
use zip::write::SimpleFileOptions;
use zip::CompressionMethod;
use zip::ZipWriter;

verus! {

/// `zip::result::ZipError`, the error of the archive writer. Nothing is
/// known of its inside.
#[verifier::external_type_specification]
#[verifier::external_body]
pub struct ExZipError(ZipError);

/// An archive under construction in memory: a `zip::ZipWriter` over a
/// byte buffer.
#[verifier::external_body]
pub struct ArchiveWriter {
    inner: ZipWriter<Cursor<Vec<u8>>>,
}

/// The entries of the archive under construction, in the order in which
/// they were started: the name and the content of each.
pub uninterp spec fn archive_entries(w: ArchiveWriter) -> Seq<(Seq<char>, Seq<u8>)>;

/// Whether the writer is as `ZipWriter::new` and successful calls leave
/// it: open, with no entry aborted. A call that fails may leave it
/// otherwise.
pub uninterp spec fn archive_sound(w: ArchiveWriter) -> bool;

/// The bytes of the finished archive that holds the given entries, each
/// stored without compression under the default options.
pub uninterp spec fn stored_archive(entries: Seq<(Seq<char>, Seq<u8>)>) -> Seq<u8>;

/// Most bytes that the name of an entry may take up in UTF-8: with the 30
/// bytes of the local header before it, the header stays below 64 KiB.
pub const MAX_NAME_BYTES: usize = 65504;

/// Most bytes that the content of an entry may have: one less than the
/// size from which an entry needs the large-file option.
pub const MAX_CONTENT_BYTES: u64 = 4294967294;

/// Whether a name is short enough for an entry.
pub open spec fn name_fits(name: Seq<char>) -> bool {
    vstd::utf8::encode_utf8(name).len() <= MAX_NAME_BYTES
}

/// Whether a content is short enough for an entry.
pub open spec fn content_fits(data: Seq<u8>) -> bool {
    data.len() <= MAX_CONTENT_BYTES
}

/// Whether an entry of the archive has the given name.
pub open spec fn has_entry(entries: Seq<(Seq<char>, Seq<u8>)>, name: Seq<char>) -> bool {
    exists|k: int| 0 <= k < entries.len() && (#[trigger] entries[k]).0 == name
}

/// `ZipWriter::new` over an empty buffer: the archive holds no entry.
#[verifier::external_body]
fn archive_new() -> (w: ArchiveWriter)
    ensures
        archive_entries(w) == Seq::<(Seq<char>, Seq<u8>)>::empty(),
        archive_sound(w),
{
    ArchiveWriter { inner: ZipWriter::new(Cursor::new(Vec::new())) }
}

/// `ZipWriter::start_file` with the compression method `Stored`. Where it
/// succeeds, an empty entry of that name is the last one of the archive.
/// It fails on a name that the archive already holds and on a name of
/// more than `MAX_NAME_BYTES` bytes; on a sound writer it fails on nothing
/// else.
#[verifier::external_body]
fn archive_start_file(w: &mut ArchiveWriter, name: &str) -> (r: Result<(), ZipError>)
    ensures
        r is Ok ==> archive_sound(*final(w)) == archive_sound(*old(w)) && archive_entries(
            *final(w),
        ) == archive_entries(*old(w)).push((name@, Seq::<u8>::empty())),
        has_entry(archive_entries(*old(w)), name@) ==> r is Err,
        !name_fits(name@) ==> r is Err,
        archive_sound(*old(w)) && !has_entry(archive_entries(*old(w)), name@) && name_fits(name@)
            ==> r is Ok,
{
    let options = SimpleFileOptions::default().compression_method(CompressionMethod::Stored);
    w.inner.start_file(name, options)
}

/// `Write::write_all` on the `ZipWriter`, once an entry was started. Where
/// it succeeds, the data stand at the end of the entry that was started
/// last. On a sound writer it succeeds exactly if the content of that
/// entry stays within `MAX_CONTENT_BYTES`.
#[verifier::external_body]
fn archive_write(w: &mut ArchiveWriter, data: &[u8]) -> (r: Result<(), ZipError>)
    requires
        archive_entries(*old(w)).len() > 0,
    ensures
        r is Ok ==> {
            let before = archive_entries(*old(w));
            &&& archive_sound(*final(w)) == archive_sound(*old(w))
            &&& archive_entries(*final(w)) == before.update(
                before.len() - 1,
                (before.last().0, before.last().1 + data@),
            )
        },
        archive_sound(*old(w)) ==> (r is Ok <==> content_fits(
            archive_entries(*old(w)).last().1 + data@,
        )),
{
    w.inner.write_all(data).map_err(ZipError::from)
}

/// `ZipWriter::finish`, and the buffer taken out of the cursor that it
/// returns: the bytes of the archive, which the entries determine. On a
/// sound writer it succeeds.
#[verifier::external_body]
fn archive_finish(w: ArchiveWriter) -> (r: Result<Vec<u8>, ZipError>)
    ensures
        r matches Ok(bytes) ==> bytes@ == stored_archive(archive_entries(w)),
        archive_sound(w) ==> r is Ok,
{
    w.inner.finish().map(|cursor| cursor.into_inner())
}

/// The text of a `ZipError`, through its `Display`.
#[verifier::external_body]
fn zip_error_text(e: &ZipError) -> (text: String) {
    e.to_string()
}

/// The step at which building an archive failed.
#[derive(Clone, Copy, Debug, PartialEq, Eq, Structural)]
pub enum ArchiveStep {
    /// Starting the entry with this index.
    StartFile(usize),
    /// Writing the content of the entry with this index.
    Write(usize),
    /// Finishing the archive.
    Finish,
}

/// Why no archive was built.
#[derive(Debug)]
pub struct ArchiveError {
    pub step: ArchiveStep,
    /// What the archive writer said.
    pub detail: String,
}

impl ArchiveError {
    /// The stable key of the error.
    pub fn key(&self) -> (k: &'static str)
        ensures
            k@ == match self.step {
                ArchiveStep::StartFile(_) => "zip-start-file-error"@,
                ArchiveStep::Write(_) => "zip-write-error"@,
                ArchiveStep::Finish => "zip-finish-error"@,
            },
    {
        match self.step {
            ArchiveStep::StartFile(_) => "zip-start-file-error",
            ArchiveStep::Write(_) => "zip-write-error",
            ArchiveStep::Finish => "zip-finish-error",
        }
    }
}

/// The entries that the given files make, in order.
pub open spec fn entries_of(files: Seq<(String, Vec<u8>)>) -> Seq<(Seq<char>, Seq<u8>)> {
    Seq::new(files.len(), |k: int| (files[k].0@, files[k].1@))
}

/// Whether the names of the entries are pairwise distinct.
pub open spec fn distinct_entries(entries: Seq<(Seq<char>, Seq<u8>)>) -> bool {
    forall|a: int, b: int|
        0 <= a < b < entries.len() ==> (#[trigger] entries[a]).0 != (#[trigger] entries[b]).0
}

/// Whether every name and every content is short enough for an entry.
pub open spec fn entries_fit(entries: Seq<(Seq<char>, Seq<u8>)>) -> bool {
    forall|k: int|
        0 <= k < entries.len() ==> name_fits((#[trigger] entries[k]).0) && content_fits(
            entries[k].1,
        )
}

/// What can be folded into one archive: entries with pairwise distinct
/// names, each name and each content within the limits of an entry.
pub open spec fn archivable(entries: Seq<(Seq<char>, Seq<u8>)>) -> bool {
    distinct_entries(entries) && entries_fit(entries)
}

/// Entries are not archivable if the entry at `i` has a name that is too
/// long or came before, or a content that is too long.
proof fn lemma_not_archivable(entries: Seq<(Seq<char>, Seq<u8>)>, i: int)
    requires
        0 <= i < entries.len(),
        !name_fits(entries[i].0) || !content_fits(entries[i].1) || has_entry(
            entries.take(i),
            entries[i].0,
        ),
    ensures
        !archivable(entries),
{
    if has_entry(entries.take(i), entries[i].0) {
        let k = choose|k: int| 0 <= k < i && (#[trigger] entries.take(i)[k]).0 == entries[i].0;
        assert(entries.take(i)[k] == entries[k]);
        assert(entries[k].0 == entries[i].0);
    }
}

/// Folds the files into one archive with stored entries, in the given
/// order. The archive is a function of the names and contents alone.
///
/// It succeeds exactly on files that are archivable. Otherwise the error
/// names the first file that the archive writer refused: at its start if
/// its name came before or is too long, at its content if that is too
/// long.
pub fn create_zip_archive(files: &Vec<(String, Vec<u8>)>) -> (r: Result<Vec<u8>, ArchiveError>)
    ensures
        r is Ok <==> archivable(entries_of(files@)),
        r matches Ok(bytes) ==> bytes@ == stored_archive(entries_of(files@)),
        r matches Err(e) ==> match e.step {
            ArchiveStep::StartFile(k) => {
                &&& k < files.len()
                &&& archivable(entries_of(files@).take(k as int))
                &&& !name_fits(files@[k as int].0@) || has_entry(
                    entries_of(files@).take(k as int),
                    files@[k as int].0@,
                )
            },
            ArchiveStep::Write(k) => {
                &&& k < files.len()
                &&& archivable(entries_of(files@).take(k as int))
                &&& name_fits(files@[k as int].0@)
                &&& !has_entry(entries_of(files@).take(k as int), files@[k as int].0@)
                &&& !content_fits(files@[k as int].1@)
            },
            ArchiveStep::Finish => false,
        },
{
    let ghost all = entries_of(files@);
    let mut writer = archive_new();
    let mut i: usize = 0;
    assert(all.take(0) =~= Seq::<(Seq<char>, Seq<u8>)>::empty());
    while i < files.len()
        invariant
            i <= files.len(),
            all == entries_of(files@),
            archive_sound(writer),
            archive_entries(writer) == all.take(i as int),
            archivable(all.take(i as int)),
        decreases files.len() - i,
    {
        let ghost done = all.take(i as int);
        let ghost next = all.take(i + 1);
        let ghost name = files@[i as int].0@;
        let ghost data = files@[i as int].1@;
        assert(all[i as int] == (name, data));
        assert(forall|k: int| 0 <= k < i ==> next[k] == done[k]);
        assert(next[i as int] == (name, data));
        match archive_start_file(&mut writer, files[i].0.as_str()) {
            Ok(()) => {},
            Err(e) => {
                proof {
                    lemma_not_archivable(all, i as int);
                }
                return Err(
                    ArchiveError { step: ArchiveStep::StartFile(i), detail: zip_error_text(&e) },
                );
            },
        }
        assert(Seq::<u8>::empty() + data =~= data);
        match archive_write(&mut writer, files[i].1.as_slice()) {
            Ok(()) => {},
            Err(e) => {
                proof {
                    lemma_not_archivable(all, i as int);
                }
                return Err(ArchiveError { step: ArchiveStep::Write(i), detail: zip_error_text(&e) });
            },
        }
        assert(archive_entries(writer) =~= next);
        assert(archivable(next)) by {
            assert forall|a: int, b: int| 0 <= a < b < next.len() implies (#[trigger] next[a]).0 != (
            #[trigger] next[b]).0 by {
                if b == i {
                    if done[a].0 == name {
                        assert(has_entry(done, name));
                    }
                } else {
                    assert(done[a].0 != done[b].0);
                }
            }
            assert forall|k: int| 0 <= k < next.len() implies name_fits((#[trigger] next[k]).0)
                && content_fits(next[k].1) by {
                if k < i {
                    assert(name_fits(done[k].0) && content_fits(done[k].1));
                }
            }
        }
        i += 1;
    }
    assert(all.take(files.len() as int) =~= all);
    match archive_finish(writer) {
        Ok(bytes) => Ok(bytes),
        Err(e) => Err(ArchiveError { step: ArchiveStep::Finish, detail: zip_error_text(&e) }),
    }
}

/// Whether the products of a job go out in one archive: the job asked for
/// it, or the pool always packs.
pub fn should_archive(zip_requested: bool, pool_always_packs: bool) -> (r: bool)
    ensures
        r == (zip_requested || pool_always_packs),
{
    zip_requested || pool_always_packs
}

/// The files that go out with the final message: the products one by one,
/// or the one archive that holds them all under the given name. Packing
/// succeeds exactly on archivable products.
pub fn package(files: Vec<(String, Vec<u8>)>, archive: bool, archive_name: &str) -> (r: Result<
    Vec<(String, Vec<u8>)>,
    ArchiveError,
>)
    ensures
        !archive ==> r == Ok::<Vec<(String, Vec<u8>)>, ArchiveError>(files),
        archive ==> (r is Ok <==> archivable(entries_of(files@))),
        archive ==> (r matches Ok(out) ==> {
            &&& out.len() == 1
            &&& out[0].0@ == archive_name@
            &&& out[0].1@ == stored_archive(entries_of(files@))
        }),
{
    if !archive {
        return Ok(files);
    }
    match create_zip_archive(&files) {
        Ok(bytes) => {
            let mut out: Vec<(String, Vec<u8>)> = Vec::new();
            out.push((String::from_str(archive_name), bytes));
            Ok(out)
        },
        Err(e) => Err(e),
    }
}

} // verus!
