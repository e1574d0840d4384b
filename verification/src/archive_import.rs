//! Helpers of the single-file MRPACK/YMPK importer. Shared parts are
//! re-exported from [`crate::import`].
use vstd::prelude::*;
use crate::import::{file_name_of, host_of, source_for_host, source_for_host_spec, strip_archive_ext};
use crate::text::{chars_of, replace_char, split_chars, string_of, lemma_split_on_nonempty, ends_with, sub_chars, views};
use crate::types::{ModSource, SourceView};

pub use crate::import::{
    detect_format, extract_host, extract_project_id_from_cdn_url, extract_version_from_path,
};

verus! {

/// The file stem of a mod file path, used as its slug
/// (`mods/lithium-2.0.jar` → `lithium-2.0`).
pub fn extract_slug_from_path(path: &str) -> (r: String)
    ensures
        r@ == strip_archive_ext(file_name_of(path@)),
{
    let p = chars_of(path);
    let norm = replace_char(&p, '\\', '/');
    let segs = split_chars(&norm, '/');
    proof {
        lemma_split_on_nonempty(norm@, '/');
    }
    let n = segs.len();
    assert(views(segs@).last() == segs@[n - 1]@);
    let f = &segs[n - 1];
    let jar = ['.', 'j', 'a', 'r'];
    let zip = ['.', 'z', 'i', 'p'];
    assert(jar@ =~= seq!['.', 'j', 'a', 'r']);
    assert(zip@ =~= seq!['.', 'z', 'i', 'p']);
    if ends_with(f, &jar) || ends_with(f, &zip) {
        string_of(&sub_chars(f, 0, f.len() - 4))
    } else {
        string_of(f)
    }
}

/// The source of an imported file: decided by its first download URL, or an
/// empty URL source when there is none.
pub open spec fn determine_source_spec(downloads: Seq<Seq<char>>, slug: Seq<char>) -> SourceView {
    if downloads.len() == 0 {
        SourceView::Url(Seq::empty())
    } else {
        source_for_host_spec(host_of(downloads[0]), downloads[0], slug)
    }
}

/// The source of an imported file from its download URLs.
pub fn determine_source(downloads: &[String], slug: &str) -> (s: ModSource)
    ensures
        s@ == determine_source_spec(downloads@.map_values(|d: String| d@), slug@),
{
    if downloads.len() == 0 {
        return ModSource::Url { url: String::new() };
    }
    let url = &downloads[0];
    let host = extract_host(url.as_str());
    match host {
        None => source_for_host(None, url.as_str(), slug),
        Some(h) => source_for_host(Some(h.as_str()), url.as_str(), slug),
    }
}

} // verus!
