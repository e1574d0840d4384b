//! What goes into an exported archive: the pack's cached files under their
//! archive paths, for MRPACK staging and for YMPK archives.
use vstd::prelude::*;
use crate::mrpack::{entry_path_spec, slugify, slugify_spec};
use crate::types::TrackedMod;

verus! {

/// A file to put into an archive: the real file and its path inside.
pub struct ArchiveFile {
    pub source: String,
    pub entry: String,
}

/// An archive file by content: (real path, archive path).
pub open spec fn archive_file_view(f: ArchiveFile) -> (Seq<char>, Seq<char>) {
    (f.source@, f.entry@)
}

/// The archive files of a list, by content.
pub open spec fn archive_views(fs: Seq<ArchiveFile>) -> Seq<(Seq<char>, Seq<char>)> {
    fs.map_values(|f: ArchiveFile| archive_file_view(f))
}

/// The MRPACK copies of the items whose file is cached (`cached[i]` is
/// item `i`'s cached file), in order: each goes to its index path under the
/// type's directory.
pub open spec fn staged_copies(items: Seq<TrackedMod>, cached: Seq<Option<String>>, prefix: Seq<char>, ext: Seq<char>) -> Seq<
    (Seq<char>, Seq<char>),
>
    decreases items.len(),
{
    if items.len() == 0 || cached.len() != items.len() {
        Seq::empty()
    } else {
        let prev = staged_copies(items.drop_last(), cached.drop_last(), prefix, ext);
        match cached.last() {
            Some(j) => prev.push((j@, entry_path_spec(items.last(), prefix, ext))),
            None => prev,
        }
    }
}

/// The YMPK files of the items, in order: each item's store entry as
/// `<dir>/<id>/entry.ron` when it exists (`entries[i]`), then its cached
/// file as `<dir>/<slug><ext>` when it is cached (`cached[i]`).
pub open spec fn ympk_files(
    items: Seq<TrackedMod>,
    entries: Seq<Option<String>>,
    cached: Seq<Option<String>>,
    dir: Seq<char>,
    ext: Seq<char>,
) -> Seq<(Seq<char>, Seq<char>)>
    decreases items.len(),
{
    if items.len() == 0 || entries.len() != items.len() || cached.len() != items.len() {
        Seq::empty()
    } else {
        let prev = ympk_files(items.drop_last(), entries.drop_last(), cached.drop_last(), dir, ext);
        let m = items.last();
        let with_entry = match entries.last() {
            Some(e) => prev.push((e@, dir + "/"@ + m.id@ + "/entry.ron"@)),
            None => prev,
        };
        match cached.last() {
            Some(j) => with_entry.push((j@, dir + "/"@ + slugify_spec(m.name@) + ext)),
            None => with_entry,
        }
    }
}

fn concat3(a: &str, b: &str, c: &str) -> (s: String)
    ensures
        s@ == a@ + b@ + c@,
{
    let mut s = String::from_str(a);
    s.append(b);
    s.append(c);
    s
}

/// The cached files of the items to stage for an MRPACK, each under its
/// index path (`<dir>/<file name>`, or `<dir>/<slug><ext>` when no file
/// name is recorded); items whose file is not cached are skipped.
pub fn project_file_copies(items: &[TrackedMod], cached: &[Option<String>], dir_prefix: &str, ext: &str) -> (out: Vec<
    ArchiveFile,
>)
    requires
        cached@.len() == items@.len(),
    ensures
        archive_views(out@) == staged_copies(items@, cached@, dir_prefix@, ext@),
{
    let mut out: Vec<ArchiveFile> = Vec::new();
    let mut i: usize = 0;
    while i < items.len()
        invariant
            i <= items@.len(),
            cached@.len() == items@.len(),
            archive_views(out@) == staged_copies(items@.take(i as int), cached@.take(i as int), dir_prefix@, ext@),
        decreases items@.len() - i,
    {
        assert(items@.take(i as int + 1).drop_last() == items@.take(i as int));
        assert(cached@.take(i as int + 1).drop_last() == cached@.take(i as int));
        assert(items@.take(i as int + 1).last() == items@[i as int]);
        assert(cached@.take(i as int + 1).last() == cached@[i as int]);
        let ghost before = out@;
        match &cached[i] {
            Some(jar) => {
                let m = &items[i];
                let entry = match &m.filename {
                    Some(f) => concat3(dir_prefix, "/", f.as_str()),
                    None => {
                        let slug = slugify(m.name.as_str());
                        let mut e = concat3(dir_prefix, "/", slug.as_str());
                        e.append(ext);
                        e
                    },
                };
                out.push(ArchiveFile { source: jar.clone(), entry });
                assert(archive_views(out@) =~= archive_views(before).push(archive_file_view(out@.last())));
            },
            None => {},
        }
        i += 1;
    }
    assert(items@.take(items@.len() as int) == items@);
    assert(cached@.take(cached@.len() as int) == cached@);
    out
}

/// The files of one project type in a YMPK archive: for each item, its
/// store entry as `<dir>/<id>/entry.ron` when the entry file exists, then
/// its cached file as `<dir>/<slug><ext>` when cached.
pub fn export_project_type_to_ympk(
    items: &[TrackedMod],
    entries: &[Option<String>],
    cached: &[Option<String>],
    dir_name: &str,
    ext: &str,
) -> (out: Vec<ArchiveFile>)
    requires
        entries@.len() == items@.len(),
        cached@.len() == items@.len(),
    ensures
        archive_views(out@) == ympk_files(items@, entries@, cached@, dir_name@, ext@),
{
    let mut out: Vec<ArchiveFile> = Vec::new();
    let mut i: usize = 0;
    while i < items.len()
        invariant
            i <= items@.len(),
            entries@.len() == items@.len(),
            cached@.len() == items@.len(),
            archive_views(out@) == ympk_files(
                items@.take(i as int),
                entries@.take(i as int),
                cached@.take(i as int),
                dir_name@,
                ext@,
            ),
        decreases items@.len() - i,
    {
        assert(items@.take(i as int + 1).drop_last() == items@.take(i as int));
        assert(entries@.take(i as int + 1).drop_last() == entries@.take(i as int));
        assert(cached@.take(i as int + 1).drop_last() == cached@.take(i as int));
        assert(items@.take(i as int + 1).last() == items@[i as int]);
        assert(entries@.take(i as int + 1).last() == entries@[i as int]);
        assert(cached@.take(i as int + 1).last() == cached@[i as int]);
        let m = &items[i];
        let ghost before = out@;
        match &entries[i] {
            Some(e) => {
                let mut entry = concat3(dir_name, "/", m.id.as_str());
                entry.append("/entry.ron");
                out.push(ArchiveFile { source: e.clone(), entry });
                assert(archive_views(out@) =~= archive_views(before).push(archive_file_view(out@.last())));
            },
            None => {},
        }
        let ghost mid = out@;
        match &cached[i] {
            Some(jar) => {
                let slug = slugify(m.name.as_str());
                let mut entry = concat3(dir_name, "/", slug.as_str());
                entry.append(ext);
                out.push(ArchiveFile { source: jar.clone(), entry });
                assert(archive_views(out@) =~= archive_views(mid).push(archive_file_view(out@.last())));
            },
            None => {},
        }
        i += 1;
    }
    assert(items@.take(items@.len() as int) == items@);
    assert(entries@.take(entries@.len() as int) == entries@);
    assert(cached@.take(cached@.len() as int) == cached@);
    out
}

} // verus!
