//! Packing the parts of a workbook into one archive.

use crate::format_xlsx::{FormatXLSX, Part};
use std::io::Cursor;
use std::io::Write;
use vstd::prelude::*;
use zip::ZipWriter;

verus! {

/// An archive in the making, kept in memory by a `zip::ZipWriter`.
#[verifier::external_body]
pub struct Archive {
    inner: ZipWriter<Cursor<Vec<u8>>>,
}

/// An entry of an archive: the name under which it is stored, whether it is
/// a directory, whether its bytes are deflated, the level that was asked for
/// it, and its bytes.
pub struct Entry {
    pub name: Seq<char>,
    pub directory: bool,
    pub deflated: bool,
    pub level: i32,
    pub data: Seq<u8>,
}

/// The name under which a directory is stored: the name that was given,
/// with a slash behind it unless it ends in a slash or a backslash.
pub open spec fn directory_name(name: Seq<char>) -> Seq<char> {
    if name.len() > 0 && (name.last() == '/' || name.last() == '\\') {
        name
    } else {
        name.push('/')
    }
}

/// The entries that an archive in the making holds, in their order, while
/// every call on it has succeeded.
pub uninterp spec fn zip_entries(w: Archive) -> Seq<Entry>;

/// Whether a deflated file of the given name and level can be started behind
/// the given entries.
pub uninterp spec fn zip_starts(entries: Seq<Entry>, name: Seq<char>, level: i32) -> bool;

/// Whether a directory of the given name can be added behind the given
/// entries.
pub uninterp spec fn zip_adds(entries: Seq<Entry>, name: Seq<char>, level: i32) -> bool;

/// Whether the given bytes, of which there is at least one, can be written
/// to the last of the given entries.
pub uninterp spec fn zip_writes(entries: Seq<Entry>, data: Seq<u8>) -> bool;

/// The bytes of the archive with the given entries, or `None` where the
/// archive cannot be ended. The bytes are those that this crate's build of
/// `zip` writes: without its `time` feature an entry carries no time of its
/// own.
pub uninterp spec fn zip_archive(entries: Seq<Entry>) -> Option<Seq<u8>>;

/// The level at which the parts of a workbook are deflated.
pub const LEVEL: i32 = 3;

/// Starts an archive in memory with `zip::ZipWriter::new`; it holds no entry.
#[verifier::external_body]
fn zip_new() -> (w: Archive)
    ensures
        zip_entries(w) == Seq::<Entry>::empty(),
{
    Archive { inner: ZipWriter::new(Cursor::new(Vec::new())) }
}

/// Starts a file with `ZipWriter::start_file`, to be deflated at `level`.
/// Whether the call succeeds depends on the entries so far, the name and the
/// level. Where it succeeds the archive has one more entry, an empty
/// deflated file of that name.
#[verifier::external_body]
fn zip_start_file(w: &mut Archive, name: &str, level: i32) -> (ok: bool)
    ensures
        ok == zip_starts(zip_entries(*old(w)), name@, level),
        ok ==> zip_entries(*final(w)) == zip_entries(*old(w)).push(
            Entry { name: name@, directory: false, deflated: true, level, data: Seq::empty() },
        ),
{
    let options = zip::write::FileOptions::default().compression_level(Some(level));
    w.inner.start_file(name, options.compression_method(zip::CompressionMethod::Deflated)).is_ok()
}

/// Adds a directory with `ZipWriter::add_directory`. Whether the call
/// succeeds depends on the entries so far, the name and the level. Where it
/// succeeds the archive has one more entry: a directory that is stored, not
/// deflated, under the name with a slash behind it, unless the name ends in
/// a slash or a backslash already.
#[verifier::external_body]
fn zip_add_directory(w: &mut Archive, name: &str, level: i32) -> (ok: bool)
    ensures
        ok == zip_adds(zip_entries(*old(w)), name@, level),
        ok ==> zip_entries(*final(w)) == zip_entries(*old(w)).push(
            Entry {
                name: directory_name(name@),
                directory: true,
                deflated: false,
                level,
                data: Seq::empty(),
            },
        ),
{
    let options = zip::write::FileOptions::default().compression_level(Some(level));
    w.inner.add_directory(name, options).is_ok()
}

/// Writes bytes to the file that was started last, with `write_all` of
/// `ZipWriter`. With no bytes to write the call succeeds and nothing
/// changes. Otherwise its success depends on the entries so far and the
/// bytes; where it succeeds, the last entry is a file and holds these bytes
/// after those that it held.
#[verifier::external_body]
fn zip_write(w: &mut Archive, data: &[u8]) -> (ok: bool)
    ensures
        ok == (data@.len() == 0 || zip_writes(zip_entries(*old(w)), data@)),
        data@.len() == 0 ==> zip_entries(*final(w)) == zip_entries(*old(w)),
        ok && data@.len() > 0 ==> zip_entries(*old(w)).len() > 0 && zip_entries(*final(w))
            == zip_entries(*old(w)).drop_last().push(
            Entry { data: zip_entries(*old(w)).last().data + data@, ..zip_entries(*old(w)).last() },
        ),
{
    w.inner.write_all(data).is_ok()
}

/// Ends the archive with `ZipWriter::finish` and hands out its bytes.
/// Whether the call succeeds, and the bytes, depend on the entries alone.
#[verifier::external_body]
fn zip_finish(w: &mut Archive) -> (r: Option<Vec<u8>>)
    ensures
        match r {
            Some(bytes) => zip_archive(zip_entries(*old(w))) == Some(bytes@),
            None => zip_archive(zip_entries(*old(w))).is_none(),
        },
{
    match w.inner.finish() {
        Ok(cursor) => Some(cursor.into_inner()),
        Err(_) => None,
    }
}

/// The entry that a file part makes when it is started.
pub open spec fn started(part: Part) -> Entry {
    Entry { name: part.name@, directory: false, deflated: true, level: LEVEL, data: Seq::empty() }
}

/// The entry that a part makes: a directory holds no bytes, whatever the
/// part holds.
pub open spec fn entry_of(part: Part) -> Entry {
    if part.directory {
        Entry {
            name: directory_name(part.name@),
            directory: true,
            deflated: false,
            level: LEVEL,
            data: Seq::empty(),
        }
    } else {
        Entry { data: part.data@, ..started(part) }
    }
}

/// The entries that the parts of a workbook make.
pub open spec fn entries_of(parts: Seq<Part>) -> Seq<Entry> {
    Seq::new(parts.len(), |i: int| entry_of(parts[i]))
}

/// A part can be packed behind the entries `done`: a directory can be
/// added; a file can be started and its bytes, where it has any, written.
pub open spec fn part_packs(done: Seq<Entry>, part: Part) -> bool {
    if part.directory {
        zip_adds(done, part.name@, LEVEL)
    } else {
        zip_starts(done, part.name@, LEVEL) && (part.data@.len() == 0 || zip_writes(
            done.push(started(part)),
            part.data@,
        ))
    }
}

/// The first `n` parts can be packed, one behind the other.
pub open spec fn parts_pack(parts: Seq<Part>, n: int) -> bool
    decreases n,
{
    n <= 0 || (n <= parts.len() && parts_pack(parts, n - 1) && part_packs(
        entries_of(parts).take(n - 1),
        parts[n - 1],
    ))
}

/// The archive of the parts: that of their entries where all parts can be
/// packed and the archive can be ended.
pub open spec fn packed(parts: Seq<Part>) -> Option<Seq<u8>> {
    if parts_pack(parts, parts.len() as int) {
        zip_archive(entries_of(parts))
    } else {
        None
    }
}

proof fn lemma_pack_stops(parts: Seq<Part>, i: int, n: int)
    requires
        0 < i <= n <= parts.len(),
        !parts_pack(parts, i),
    ensures
        !parts_pack(parts, n),
    decreases n - i,
{
    if n > i {
        lemma_pack_stops(parts, i, n - 1);
    }
}

impl FormatXLSX {
    /// Packs the parts into one archive, in their order, each file deflated.
    /// The archive comes back where every part can be packed behind those
    /// before it and the archive can be ended; else `None`.
    pub fn pack(parts: &Vec<Part>) -> (r: Option<Vec<u8>>)
        ensures
            match r {
                Some(bytes) => packed(parts@) == Some(bytes@),
                None => packed(parts@).is_none(),
            },
    {
        let mut w = zip_new();
        let mut i: usize = 0;
        assert(entries_of(parts@).take(0) =~= Seq::<Entry>::empty());
        while i < parts.len()
            invariant
                i <= parts@.len(),
                parts_pack(parts@, i as int),
                zip_entries(w) == entries_of(parts@).take(i as int),
            decreases parts@.len() - i,
        {
            let ghost before = zip_entries(w);
            let ok = if parts[i].directory {
                zip_add_directory(&mut w, parts[i].name, LEVEL)
            } else if zip_start_file(&mut w, parts[i].name, LEVEL) {
                let written = zip_write(&mut w, parts[i].data.as_slice());
                proof {
                    if written {
                        let opened = before.push(started(parts@[i as int]));
                        assert(opened.drop_last() =~= before);
                        assert(Seq::<u8>::empty() + parts@[i as int].data@ =~= parts@[i as int].data@);
                        assert(zip_entries(w) =~= before.push(entry_of(parts@[i as int])));
                    }
                }
                written
            } else {
                false
            };
            assert(ok == part_packs(before, parts@[i as int]));
            if !ok {
                proof {
                    assert(!parts_pack(parts@, i + 1));
                    lemma_pack_stops(parts@, i + 1, parts@.len() as int);
                }
                return None;
            }
            assert(zip_entries(w) =~= entries_of(parts@).take(i + 1)) by {
                assert(entries_of(parts@).take(i + 1) =~= entries_of(parts@).take(i as int).push(
                    entries_of(parts@)[i as int],
                ));
            }
            i += 1;
        }
        assert(entries_of(parts@).take(parts@.len() as int) =~= entries_of(parts@));
        zip_finish(&mut w)
    }
}

} // verus!
