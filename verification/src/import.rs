//! Import helpers: safe archive extraction decisions, file-name heuristics
//! and mod-source detection from download URLs.
use vstd::prelude::*;
use crate::paths::{
    clean_path, cleaned_path, components, components_prefix, components_start_with,
    join_path, path_components,
};
use crate::types::{ModSource, SourceView};
use crate::text::{
    chars_eq, chars_of, ends_with, first_index_from, has_suffix, is_ascii_digit,
    join_chars_range, join_with, lemma_first_index_bounds, lemma_first_index_exact,
    lemma_split_on_nonempty, replace_char, replace_char_spec, split_chars, split_on,
    starts_with_digit, string_of, sub_chars, views,
};

verus! {

/// What to do with one archive entry.
#[derive(Debug)]
pub enum ExtractDecision {
    /// Extract the entry to this path.
    Extract(String),
    /// Not a candidate (outside the prefix, a directory marker, the prefix itself).
    Skip,
    /// Inside the prefix but escaping it (`..`, or resolving outside the root).
    Unsafe,
}

/// The mathematical content of an [`ExtractDecision`].
pub enum ExtractOutcome {
    Extract(Seq<char>),
    Skip,
    Unsafe,
}

impl View for ExtractDecision {
    type V = ExtractOutcome;

    open spec fn view(&self) -> ExtractOutcome {
        match self {
            ExtractDecision::Extract(p) => ExtractOutcome::Extract(p@),
            ExtractDecision::Skip => ExtractOutcome::Skip,
            ExtractDecision::Unsafe => ExtractOutcome::Unsafe,
        }
    }
}

/// The decision for archive entry `zip_name` extracted from `archive_prefix`
/// into `dest_root`.
pub open spec fn classify_spec(
    zip_name: Seq<char>,
    archive_prefix: Seq<char>,
    dest_root: Seq<char>,
) -> ExtractOutcome {
    if zip_name.len() > 0 && (zip_name.last() == '/' || zip_name.last() == '\\') {
        ExtractOutcome::Skip
    } else {
        let entry = path_components(replace_char_spec(zip_name, '\\', '/'));
        let prefix = path_components(archive_prefix);
        if !components_start_with(entry, prefix) {
            ExtractOutcome::Skip
        } else {
            let rel = entry.skip(prefix.len() as int);
            if rel.len() == 0 {
                ExtractOutcome::Skip
            } else if rel.contains(seq!['.', '.']) || rel.contains(seq!['/']) {
                ExtractOutcome::Unsafe
            } else {
                let dest_clean = cleaned_path(dest_root);
                let out = cleaned_path(join_path(dest_clean, join_with(rel, seq!['/'])));
                if components_start_with(path_components(out), path_components(dest_clean)) {
                    ExtractOutcome::Extract(out)
                } else {
                    ExtractOutcome::Unsafe
                }
            }
        }
    }
}

/// Whether a character vector list contains the given sequence.
fn contains_component(v: &Vec<Vec<char>>, lo: usize, x: &[char]) -> (r: bool)
    requires
        lo <= v.len(),
    ensures
        r == views(v@).skip(lo as int).contains(x@),
{
    let mut i: usize = lo;
    while i < v.len()
        invariant
            lo <= i <= v.len(),
            forall|j: int| lo <= j < i ==> views(v@)[j] != x@,
        decreases v.len() - i,
    {
        if chars_eq(&v[i], x) {
            assert(views(v@).skip(lo as int)[i - lo] == x@);
            return true;
        }
        i += 1;
    }
    assert forall|k: int| 0 <= k < views(v@).skip(lo as int).len() implies views(v@).skip(
        lo as int,
    )[k] != x@ by {
        assert(views(v@).skip(lo as int)[k] == views(v@)[k + lo]);
    }
    false
}

/// Classifies an archive entry for safe extraction under `dest_root`.
///
/// Backslashes in `zip_name` are read as separators. The entry must lie
/// under `archive_prefix` component-wise (so `overrides_evil/` does not match
/// `overrides`). Entries whose remainder holds `..` are unsafe, as are those
/// whose cleaned destination leaves the cleaned `dest_root`.
pub fn classify_archive_entry(zip_name: &str, archive_prefix: &str, dest_root: &str) -> (r:
    ExtractDecision)
    ensures
        r@ == classify_spec(zip_name@, archive_prefix@, dest_root@),
{
    let name = chars_of(zip_name);
    if name.len() > 0 && (name[name.len() - 1] == '/' || name[name.len() - 1] == '\\') {
        return ExtractDecision::Skip;
    }
    let normalized = replace_char(&name, '\\', '/');
    let entry = components(&normalized);
    let prefix_chars = chars_of(archive_prefix);
    let prefix = components(&prefix_chars);
    if !components_prefix(&entry, &prefix) {
        return ExtractDecision::Skip;
    }
    let lo = prefix.len();
    if lo == entry.len() {
        return ExtractDecision::Skip;
    }
    let dotdot = ['.', '.'];
    let root = ['/'];
    assert(dotdot@ =~= seq!['.', '.']);
    assert(root@ =~= seq!['/']);
    if contains_component(&entry, lo, &dotdot) || contains_component(&entry, lo, &root) {
        return ExtractDecision::Unsafe;
    }
    let dest = chars_of(dest_root);
    let dest_clean = clean_path(&dest);
    let slash = ['/'];
    assert(slash@ =~= seq!['/']);
    let rel = join_chars_range(&entry, lo, entry.len(), &slash);
    assert(views(entry@).subrange(lo as int, entry.len() as int) =~= views(entry@).skip(
        lo as int,
    ));
    let mut joined = dest_clean.clone();
    if !(dest_clean.len() == 0 || dest_clean[dest_clean.len() - 1] == '/') {
        joined.push('/');
    }
    let ghost before = joined@;
    let mut k: usize = 0;
    while k < rel.len()
        invariant
            k <= rel.len(),
            joined@ == before + rel@.take(k as int),
        decreases rel.len() - k,
    {
        joined.push(rel[k]);
        assert(rel@.take(k as int + 1) == rel@.take(k as int).push(rel@[k as int]));
        assert(before + rel@.take(k as int + 1) =~= (before + rel@.take(k as int)).push(
            rel@[k as int],
        ));
        k += 1;
    }
    assert(rel@.take(rel.len() as int) == rel@);
    assert(joined@ =~= join_path(dest_clean@, rel@));
    let out = clean_path(&joined);
    let out_comps = components(&out);
    let dest_comps = components(&dest_clean);
    if !components_prefix(&out_comps, &dest_comps) {
        return ExtractDecision::Unsafe;
    }
    ExtractDecision::Extract(string_of(&out))
}

} // verus!

verus! {

/// The last `/`-separated segment of a path whose backslashes count as `/`.
pub open spec fn file_name_of(path: Seq<char>) -> Seq<char> {
    split_on(replace_char_spec(path, '\\', '/'), '/').last()
}

/// A file name with a trailing `.jar` (else `.zip`) removed.
pub open spec fn strip_archive_ext(f: Seq<char>) -> Seq<char> {
    if has_suffix(f, seq!['.', 'j', 'a', 'r']) {
        f.take(f.len() - 4)
    } else if has_suffix(f, seq!['.', 'z', 'i', 'p']) {
        f.take(f.len() - 4)
    } else {
        f
    }
}

/// The `-`-separated pieces of the stem of a path's file name.
pub open spec fn stem_parts(path: Seq<char>) -> Seq<Seq<char>> {
    split_on(strip_archive_ext(file_name_of(path)), '-')
}

/// The first piece index (from 1) whose piece starts with a digit.
pub open spec fn first_digit_piece(parts: Seq<Seq<char>>) -> int {
    first_index_from(parts.len() as int, 1, |j: int| starts_with_digit(parts[j]))
}

/// The first piece index (from 1) at which the rejoined remainder starts with a digit.
pub open spec fn first_digit_tail(parts: Seq<Seq<char>>) -> int {
    first_index_from(
        parts.len() as int,
        1,
        |j: int| starts_with_digit(join_with(parts.skip(j), seq!['-'])),
    )
}

/// The slug guessed from a mod file path: the file stem up to the first
/// `-`-piece (after the first) that starts with a digit.
pub open spec fn slug_from_path(path: Seq<char>) -> Seq<char> {
    let parts = stem_parts(path);
    let i = first_digit_piece(parts);
    if i < parts.len() {
        join_with(parts.take(i), seq!['-'])
    } else {
        strip_archive_ext(file_name_of(path))
    }
}

/// The version guessed from a mod file path: the rest of the stem from the
/// first `-`-piece (after the first) that starts with a digit, else `0.0.0`.
pub open spec fn version_from_path(path: Seq<char>) -> Seq<char> {
    let parts = stem_parts(path);
    let i = first_digit_tail(parts);
    if i < parts.len() {
        join_with(parts.skip(i), seq!['-'])
    } else {
        seq!['0', '.', '0', '.', '0']
    }
}

/// The slug and the version read from one file name fit together: either
/// no version was found (`0.0.0`) and the slug is the whole stem, or the
/// stem is the slug, `-`, and the version.
pub proof fn lemma_slug_version_fit(path: Seq<char>)
    ensures
        ({
            let stem = strip_archive_ext(file_name_of(path));
            ||| version_from_path(path) == seq!['0', '.', '0', '.', '0'] && slug_from_path(path) == stem
            ||| stem == slug_from_path(path) + seq!['-'] + version_from_path(path)
        }),
{
    let stem = strip_archive_ext(file_name_of(path));
    let parts = stem_parts(path);
    let n = parts.len() as int;
    let sep = seq!['-'];
    crate::text::lemma_split_on_nonempty(stem, '-');
    let pp = |j: int| starts_with_digit(parts[j]);
    let qq = |j: int| starts_with_digit(join_with(parts.skip(j), sep));
    crate::text::lemma_first_index_bounds(n, 1, pp);
    let k = first_index_from(n, 1, pp);
    assert forall|j: int| 1 <= j < n implies #[trigger] qq(j) == pp(j) by {
        let rest = parts.skip(j);
        if rest.len() >= 2 {
            crate::text::lemma_join_split_at(rest, sep, 1);
            assert(rest.take(1) =~= seq![parts[j]]);
            let jt = join_with(rest, sep);
            if parts[j].len() > 0 {
                assert(jt[0] == parts[j][0]);
            } else {
                assert(jt[0] == '-');
            }
        } else {
            assert(rest =~= seq![parts[j]]);
        }
    }
    assert(first_digit_piece(parts) == k);
    crate::text::lemma_first_index_exact(n, 1, k, qq);
    assert(first_digit_tail(parts) == k);
    if k < n {
        crate::text::lemma_split_join(stem, '-');
        crate::text::lemma_join_split_at(parts, sep, k);
    }
}

/// The stem of the file name of `path` (see [`strip_archive_ext`]).
fn file_stem_chars(path: &str) -> (r: Vec<char>)
    ensures
        r@ == strip_archive_ext(file_name_of(path@)),
{
    let p = chars_of(path);
    let norm = replace_char(&p, '\\', '/');
    let segs = split_chars(&norm, '/');
    proof {
        lemma_split_on_nonempty(norm@, '/');
    }
    let n = segs.len();
    assert(views(segs@).last() == segs@[n - 1]@);
    let f = &segs[n - 1];
    let jar = ['.', 'j', 'a', 'r'];
    let zip = ['.', 'z', 'i', 'p'];
    assert(jar@ =~= seq!['.', 'j', 'a', 'r']);
    assert(zip@ =~= seq!['.', 'z', 'i', 'p']);
    if ends_with(f, &jar) || ends_with(f, &zip) {
        sub_chars(f, 0, f.len() - 4)
    } else {
        sub_chars(f, 0, f.len())
    }
}

/// The slug part of a mod file path, e.g. `mods/lithium-2.0.jar` → `lithium`.
pub fn extract_slug_from_path(path: &str) -> (r: String)
    ensures
        r@ == slug_from_path(path@),
{
    let stem = file_stem_chars(path);
    let parts = split_chars(&stem, '-');
    let ghost pv = views(parts@);
    let ghost pred = |j: int| starts_with_digit(pv[j]);
    proof {
        lemma_split_on_nonempty(stem@, '-');
        assert(pv == stem_parts(path@));
        assert(first_digit_piece(pv) == first_index_from(pv.len() as int, 1, pred));
    }
    let dash = ['-'];
    assert(dash@ =~= seq!['-']);
    let mut i: usize = 1;
    while i < parts.len()
        invariant
            1 <= i,
            pv == views(parts@),
            pv == stem_parts(path@),
            pred == (|j: int| starts_with_digit(pv[j])),
            dash@ == seq!['-'],
            forall|j: int| 1 <= j < i ==> !#[trigger] pred(j),
        decreases parts.len() - i,
    {
        assert(pv[i as int] == parts@[i as int]@);
        if parts[i].len() > 0 && is_ascii_digit(parts[i][0]) {
            proof {
                lemma_first_index_exact(pv.len() as int, 1, i as int, pred);
            }
            let joined = join_chars_range(&parts, 0, i, &dash);
            assert(pv.subrange(0, i as int) =~= pv.take(i as int));
            assert(first_digit_piece(pv) == i as int);
            assert(stem_parts(path@) == pv);
            assert(joined@ == join_with(pv.take(i as int), seq!['-']));
            return string_of(&joined);
        }
        i += 1;
    }
    proof {
        lemma_first_index_exact(pv.len() as int, 1, pv.len() as int, pred);
    }
    string_of(&stem)
}

/// The version part of a mod file path, e.g. `mods/sodium-0.5.8.jar` → `0.5.8`;
/// `0.0.0` when no piece after the first starts with a digit.
pub fn extract_version_from_path(path: &str) -> (r: String)
    ensures
        r@ == version_from_path(path@),
{
    let stem = file_stem_chars(path);
    let parts = split_chars(&stem, '-');
    let ghost pv = views(parts@);
    let ghost pred = |j: int| starts_with_digit(join_with(pv.skip(j), seq!['-']));
    proof {
        lemma_split_on_nonempty(stem@, '-');
        assert(pv == stem_parts(path@));
        assert(first_digit_tail(pv) == first_index_from(pv.len() as int, 1, pred));
    }
    let dash = ['-'];
    assert(dash@ =~= seq!['-']);
    let mut i: usize = 1;
    while i < parts.len()
        invariant
            1 <= i,
            pv == views(parts@),
            pv == stem_parts(path@),
            pred == (|j: int| starts_with_digit(join_with(pv.skip(j), seq!['-']))),
            dash@ == seq!['-'],
            forall|j: int| 1 <= j < i ==> !#[trigger] pred(j),
        decreases parts.len() - i,
    {
        let candidate = join_chars_range(&parts, i, parts.len(), &dash);
        assert(pv.subrange(i as int, pv.len() as int) =~= pv.skip(i as int));
        if candidate.len() > 0 && is_ascii_digit(candidate[0]) {
            proof {
                lemma_first_index_exact(pv.len() as int, 1, i as int, pred);
            }
            assert(first_digit_tail(pv) == i as int);
            assert(stem_parts(path@) == pv);
            return string_of(&candidate);
        }
        i += 1;
    }
    proof {
        lemma_first_index_exact(pv.len() as int, 1, pv.len() as int, pred);
        reveal_strlit("0.0.0");
    }
    String::from_str("0.0.0")
}

} // verus!

verus! {

/// `://` starts at index `k` of `s`.
pub open spec fn scheme_sep_at(s: Seq<char>, k: int) -> bool {
    0 <= k && k + 3 <= s.len() && s[k] == ':' && s[k + 1] == '/' && s[k + 2] == '/'
}

/// The first index from `from` where `://` starts, or `s.len()` if none.
pub open spec fn find_scheme_sep(s: Seq<char>, from: int) -> int {
    first_index_from(s.len() as int, from, |k: int| scheme_sep_at(s, k))
}

/// The second piece of `url` split on `://` (`url.split("://").nth(1)`).
pub open spec fn after_scheme(url: Seq<char>) -> Option<Seq<char>> {
    let k1 = find_scheme_sep(url, 0);
    if k1 >= url.len() {
        None
    } else {
        let k2 = find_scheme_sep(url, k1 + 3);
        Some(url.subrange(k1 + 3, k2))
    }
}

/// The project id in a Modrinth CDN URL (`…://host/data/<id>/…`).
pub open spec fn project_id_of(url: Seq<char>) -> Option<Seq<char>> {
    match after_scheme(url) {
        None => None,
        Some(rest) => {
            let segs = split_on(rest, '/').skip(1);
            if segs.len() >= 2 && segs[0] == seq!['d', 'a', 't', 'a'] {
                Some(segs[1])
            } else {
                None
            }
        },
    }
}

/// The host part of a URL before lowercasing: up to the first `/`, without a port.
pub open spec fn raw_host_of(url: Seq<char>) -> Option<Seq<char>> {
    match after_scheme(url) {
        None => None,
        Some(rest) => Some(split_on(split_on(rest, '/')[0], ':')[0]),
    }
}

/// The lowercased host of a URL.
pub open spec fn host_of(url: Seq<char>) -> Option<Seq<char>> {
    match raw_host_of(url) {
        None => None,
        Some(h) => Some(crate::text::lowercased(h)),
    }
}

/// First index at or after `from` where `://` starts.
fn find_scheme_sep_exec(s: &[char], from: usize) -> (k: usize)
    requires
        from <= s.len(),
    ensures
        k == find_scheme_sep(s@, from as int),
{
    let ghost p = |k: int| scheme_sep_at(s@, k);
    let mut k: usize = from;
    while k < s.len()
        invariant
            from <= k <= s.len(),
            p == (|k: int| scheme_sep_at(s@, k)),
            forall|j: int| from <= j < k ==> !#[trigger] p(j),
        decreases s.len() - k,
    {
        if s.len() - k >= 3 && s[k] == ':' && s[k + 1] == '/' && s[k + 2] == '/' {
            proof {
                lemma_first_index_exact(s@.len() as int, from as int, k as int, p);
            }
            return k;
        }
        k += 1;
    }
    proof {
        lemma_first_index_exact(s@.len() as int, from as int, s@.len() as int, p);
    }
    k
}

/// The text between the first and second `://` of `url` (or its end).
fn after_scheme_exec(url: &[char]) -> (r: Option<Vec<char>>)
    ensures
        match r {
            None => after_scheme(url@) is None,
            Some(v) => after_scheme(url@) == Some(v@),
        },
{
    let k1 = find_scheme_sep_exec(url, 0);
    if k1 >= url.len() {
        return None;
    }
    proof {
        lemma_first_index_bounds(url@.len() as int, 0, |k: int| scheme_sep_at(url@, k));
    }
    assert(scheme_sep_at(url@, k1 as int));
    let k2 = find_scheme_sep_exec(url, k1 + 3);
    proof {
        lemma_first_index_bounds(url@.len() as int, k1 + 3, |k: int| scheme_sep_at(url@, k));
    }
    Some(sub_chars(url, k1 + 3, k2))
}

/// The Modrinth project id in a CDN download URL, e.g.
/// `https://cdn.modrinth.com/data/fRiHVvU7/versions/…` → `fRiHVvU7`.
pub fn extract_project_id_from_cdn_url(url: &str) -> (r: Option<String>)
    ensures
        match r {
            None => project_id_of(url@) is None,
            Some(id) => project_id_of(url@) == Some(id@),
        },
{
    let u = chars_of(url);
    let rest = match after_scheme_exec(&u) {
        None => return None,
        Some(rest) => rest,
    };
    let segs = split_chars(&rest, '/');
    let ghost sv = split_on(rest@, '/').skip(1);
    let data = ['d', 'a', 't', 'a'];
    assert(data@ =~= seq!['d', 'a', 't', 'a']);
    assert(views(segs@) == split_on(rest@, '/'));
    proof {
        lemma_split_on_nonempty(rest@, '/');
    }
    if segs.len() >= 3 && chars_eq(&segs[1], &data) {
        assert(sv[0] == views(segs@)[1]);
        assert(sv[1] == views(segs@)[2]);
        return Some(string_of(&segs[2]));
    }
    proof {
        if sv.len() >= 2 {
            assert(sv[0] == views(segs@)[1]);
        }
    }
    None
}

/// The lowercased host of a URL (`https://CDN.Example.com:443/x` → `cdn.example.com`).
pub fn extract_host(url: &str) -> (r: Option<String>)
    ensures
        match r {
            None => host_of(url@) is None,
            Some(h) => host_of(url@) == Some(h@),
        },
{
    let u = chars_of(url);
    let rest = match after_scheme_exec(&u) {
        None => return None,
        Some(rest) => rest,
    };
    let by_slash = split_chars(&rest, '/');
    proof {
        lemma_split_on_nonempty(rest@, '/');
    }
    assert(views(by_slash@)[0] == by_slash@[0]@);
    let by_colon = split_chars(&by_slash[0], ':');
    proof {
        lemma_split_on_nonempty(by_slash@[0]@, ':');
    }
    assert(views(by_colon@)[0] == by_colon@[0]@);
    let host = string_of(&by_colon[0]);
    Some(crate::text::to_lowercase(host.as_str()))
}

} // verus!

verus! {

/// The source recorded for an imported file given its first download URL's
/// (lowercased) host.
pub open spec fn source_for_host_spec(
    host: Option<Seq<char>>,
    url: Seq<char>,
    slug: Seq<char>,
) -> SourceView {
    match host {
        None => SourceView::Url(url),
        Some(h) => if has_suffix(h, seq!['m', 'o', 'd', 'r', 'i', 'n', 't', 'h', '.', 'c', 'o', 'm']) {
            match project_id_of(url) {
                Some(id) => SourceView::Modrinth(id),
                None => SourceView::Modrinth(slug),
            }
        } else if has_suffix(
            h,
            seq!['c', 'u', 'r', 's', 'e', 'f', 'o', 'r', 'g', 'e', '.', 'c', 'o', 'm'],
        ) {
            SourceView::CurseForge(slug)
        } else {
            SourceView::Url(url)
        },
    }
}

/// The source of an imported file: decided by its first download URL, or
/// Modrinth under the path slug when there is none.
pub open spec fn determine_source_spec(downloads: Seq<Seq<char>>, slug: Seq<char>) -> SourceView {
    if downloads.len() == 0 {
        SourceView::Modrinth(slug)
    } else {
        source_for_host_spec(host_of(downloads[0]), downloads[0], slug)
    }
}

/// Decides the source from an already extracted, lowercased host.
pub fn source_for_host(host: Option<&str>, url: &str, slug: &str) -> (s: ModSource)
    ensures
        s@ == source_for_host_spec(
            match host {
                None => None,
                Some(h) => Some(h@),
            },
            url@,
            slug@,
        ),
{
    match host {
        None => ModSource::url(url),
        Some(h) => {
            let hc = chars_of(h);
            let modrinth = ['m', 'o', 'd', 'r', 'i', 'n', 't', 'h', '.', 'c', 'o', 'm'];
            let curseforge = ['c', 'u', 'r', 's', 'e', 'f', 'o', 'r', 'g', 'e', '.', 'c', 'o', 'm'];
            let github = ['g', 'i', 't', 'h', 'u', 'b', '.', 'c', 'o', 'm'];
            assert(modrinth@ =~= seq!['m', 'o', 'd', 'r', 'i', 'n', 't', 'h', '.', 'c', 'o', 'm']);
            assert(curseforge@ =~= seq![
                'c',
                'u',
                'r',
                's',
                'e',
                'f',
                'o',
                'r',
                'g',
                'e',
                '.',
                'c',
                'o',
                'm',
            ]);
            if ends_with(&hc, &modrinth) {
                match extract_project_id_from_cdn_url(url) {
                    Some(id) => ModSource::modrinth(id.as_str()),
                    None => ModSource::modrinth(slug),
                }
            } else if ends_with(&hc, &curseforge) {
                ModSource::curseforge(slug)
            } else if ends_with(&hc, &github) {
                ModSource::url(url)
            } else {
                ModSource::url(url)
            }
        },
    }
}

/// The source of an imported MRPACK file from its download URLs.
pub fn determine_source(downloads: &[String], slug: &str) -> (s: ModSource)
    ensures
        s@ == determine_source_spec(downloads@.map_values(|d: String| d@), slug@),
{
    if downloads.len() == 0 {
        return ModSource::modrinth(slug);
    }
    let url = &downloads[0];
    let host = extract_host(url.as_str());
    match host {
        None => source_for_host(None, url.as_str(), slug),
        Some(h) => source_for_host(Some(h.as_str()), url.as_str(), slug),
    }
}

/// Archive formats the importer understands.
#[derive(Clone, Copy, Debug, PartialEq, Eq, Structural)]
pub enum ImportFormat {
    Mrpack,
    Ympk,
}

/// What a file's extension says about its format.
#[derive(Debug)]
pub enum FormatGuess {
    Known(ImportFormat),
    /// A `.zip`: the archive's entries decide.
    InspectZip,
    /// Unsupported extension (lowercased; empty when there is none).
    Unsupported(String),
}

/// The file name of a path (`Path::file_name`): its last component unless that
/// is the root, `.` or `..`.
pub open spec fn file_name_spec(path: Seq<char>) -> Option<Seq<char>> {
    let c = path_components(path);
    if c.len() == 0 || c.last() == seq!['/'] || c.last() == seq!['.'] || c.last() == seq!['.', '.'] {
        None
    } else {
        Some(c.last())
    }
}

/// The index of the last `.` in `f` (or `f.len()` when there is none).
pub open spec fn last_dot(f: Seq<char>) -> int
    decreases f.len(),
{
    if f.len() == 0 {
        0
    } else if f.last() == '.' {
        f.len() - 1
    } else {
        let i = last_dot(f.drop_last());
        if i < f.len() - 1 {
            i
        } else {
            f.len() as int
        }
    }
}

/// The extension of a path (`Path::extension`): the text after the last `.`
/// of the file name, when that dot is not its first character.
pub open spec fn extension_spec(path: Seq<char>) -> Option<Seq<char>> {
    match file_name_spec(path) {
        None => None,
        Some(f) => {
            let i = last_dot(f);
            if i >= f.len() || i == 0 {
                None
            } else {
                Some(f.skip(i + 1))
            }
        },
    }
}

/// The format named by a lowercased extension.
pub open spec fn format_for_extension_spec(ext: Seq<char>) -> Option<ImportFormat> {
    if ext == seq!['m', 'r', 'p', 'a', 'c', 'k'] {
        Some(ImportFormat::Mrpack)
    } else if ext == seq!['y', 'm', 'p', 'k'] {
        Some(ImportFormat::Ympk)
    } else {
        None
    }
}

proof fn lemma_last_dot(f: Seq<char>)
    ensures
        0 <= last_dot(f) <= f.len(),
        last_dot(f) < f.len() ==> f[last_dot(f)] == '.',
        forall|j: int| last_dot(f) < j < f.len() ==> f[j] != '.',
        last_dot(f) == f.len() ==> forall|j: int| 0 <= j < f.len() ==> f[j] != '.',
    decreases f.len(),
{
    if f.len() > 0 && f.last() != '.' {
        let g = f.drop_last();
        lemma_last_dot(g);
        assert forall|j: int| 0 <= j < g.len() implies g[j] == f[j] by {}
        assert forall|j: int| last_dot(f) < j < f.len() implies f[j] != '.' by {
            if j < g.len() {
                assert(g[j] == f[j]);
            }
        }
        assert forall|j: int| last_dot(f) == f.len() && 0 <= j < f.len() implies f[j] != '.' by {
            if j < g.len() {
                assert(g[j] == f[j]);
            }
        }
    }
}

fn last_dot_exec(f: &[char]) -> (i: usize)
    ensures
        i == last_dot(f@),
{
    let mut i: usize = f.len();
    while i > 0
        invariant
            i <= f.len(),
            forall|j: int| i <= j < f.len() ==> f@[j] != '.',
        decreases i,
    {
        if f[i - 1] == '.' {
            proof {
                lemma_last_dot_unique(f@, i - 1);
            }
            return i - 1;
        }
        i -= 1;
    }
    proof {
        lemma_last_dot(f@);
        if last_dot(f@) < f@.len() {
            assert(f@[last_dot(f@)] == '.');
        }
    }
    f.len()
}

proof fn lemma_last_dot_unique(f: Seq<char>, k: int)
    requires
        0 <= k < f.len(),
        f[k] == '.',
        forall|j: int| k < j < f.len() ==> f[j] != '.',
    ensures
        last_dot(f) == k,
{
    lemma_last_dot(f);
    if last_dot(f) < k {
        assert(f[k] != '.');
    } else if last_dot(f) > k && last_dot(f) < f.len() {
        assert(f[last_dot(f)] == '.');
    }
}

/// The extension of a path, if any (see [`extension_spec`]).
pub fn path_extension(path: &str) -> (r: Option<String>)
    ensures
        match r {
            None => extension_spec(path@) is None,
            Some(e) => extension_spec(path@) == Some(e@),
        },
{
    let p = chars_of(path);
    let comps = components(&p);
    if comps.len() == 0 {
        return None;
    }
    let n = comps.len();
    assert(views(comps@).last() == comps@[n - 1]@);
    let last = &comps[n - 1];
    let root = ['/'];
    let dot = ['.'];
    let dotdot = ['.', '.'];
    assert(root@ =~= seq!['/']);
    assert(dot@ =~= seq!['.']);
    assert(dotdot@ =~= seq!['.', '.']);
    if chars_eq(last, &root) || chars_eq(last, &dot) || chars_eq(last, &dotdot) {
        return None;
    }
    let i = last_dot_exec(last);
    if i >= last.len() || i == 0 {
        return None;
    }
    Some(string_of(&sub_chars(last, i + 1, last.len())))
}

/// The format for a lowercased extension: `mrpack` and `ympk` are known,
/// `zip` needs a look inside, anything else is unsupported.
pub fn format_for_extension(ext_lower: &str) -> (g: FormatGuess)
    ensures
        match g {
            FormatGuess::Known(f) => format_for_extension_spec(ext_lower@) == Some(f),
            FormatGuess::InspectZip => format_for_extension_spec(ext_lower@) is None
                && ext_lower@ == seq!['z', 'i', 'p'],
            FormatGuess::Unsupported(e) => format_for_extension_spec(ext_lower@) is None
                && ext_lower@ != seq!['z', 'i', 'p'] && e@ == ext_lower@,
        },
{
    let e = chars_of(ext_lower);
    let mrpack = ['m', 'r', 'p', 'a', 'c', 'k'];
    let ympk = ['y', 'm', 'p', 'k'];
    let zip = ['z', 'i', 'p'];
    assert(mrpack@ =~= seq!['m', 'r', 'p', 'a', 'c', 'k']);
    assert(ympk@ =~= seq!['y', 'm', 'p', 'k']);
    assert(zip@ =~= seq!['z', 'i', 'p']);
    if chars_eq(&e, &mrpack) {
        FormatGuess::Known(ImportFormat::Mrpack)
    } else if chars_eq(&e, &ympk) {
        FormatGuess::Known(ImportFormat::Ympk)
    } else if chars_eq(&e, &zip) {
        FormatGuess::InspectZip
    } else {
        FormatGuess::Unsupported(String::from_str(ext_lower))
    }
}

/// Guesses the format of an archive path from its lowercased extension.
pub fn detect_format(path: &str) -> (g: FormatGuess)
    ensures
        ({
            let ext = match extension_spec(path@) {
                None => Seq::<char>::empty(),
                Some(e) => crate::text::lowercased(e),
            };
            match g {
                FormatGuess::Known(f) => format_for_extension_spec(ext) == Some(f),
                FormatGuess::InspectZip => format_for_extension_spec(ext) is None && ext == seq![
                    'z',
                    'i',
                    'p',
                ],
                FormatGuess::Unsupported(e) => format_for_extension_spec(ext) is None && ext
                    != seq!['z', 'i', 'p'] && e@ == ext,
            }
        }),
{
    let ext = match path_extension(path) {
        None => String::new(),
        Some(e) => crate::text::to_lowercase(e.as_str()),
    };
    format_for_extension(ext.as_str())
}

/// The format of a `.zip` archive from the entries it holds: an MRPACK index
/// wins over a YMPK manifest; neither means the format is unknown.
pub fn detect_zip_format(has_mrpack_index: bool, has_modpack_toml: bool) -> (r: Option<ImportFormat>)
    ensures
        r == (if has_mrpack_index {
            Some(ImportFormat::Mrpack)
        } else if has_modpack_toml {
            Some(ImportFormat::Ympk)
        } else {
            None
        }),
{
    if has_mrpack_index {
        Some(ImportFormat::Mrpack)
    } else if has_modpack_toml {
        Some(ImportFormat::Ympk)
    } else {
        None
    }
}

} // verus!

verus! {

/// The file name of a path, if any (see [`file_name_spec`]).
pub fn path_file_name(p: &[char]) -> (r: Option<Vec<char>>)
    ensures
        match r {
            None => file_name_spec(p@) is None,
            Some(f) => file_name_spec(p@) == Some(f@),
        },
{
    let comps = components(p);
    if comps.len() == 0 {
        return None;
    }
    let n = comps.len();
    assert(views(comps@).last() == comps@[n - 1]@);
    let last = &comps[n - 1];
    let root = ['/'];
    let dot = ['.'];
    let dotdot = ['.', '.'];
    assert(root@ =~= seq!['/']);
    assert(dot@ =~= seq!['.']);
    assert(dotdot@ =~= seq!['.', '.']);
    if chars_eq(last, &root) || chars_eq(last, &dot) || chars_eq(last, &dotdot) {
        return None;
    }
    Some(sub_chars(last, 0, last.len()))
}


/// An archive entry is only ever extracted to a path inside the cleaned
/// destination root.
pub proof fn lemma_extract_stays_inside(zip_name: Seq<char>, archive_prefix: Seq<char>, dest_root: Seq<char>)
    ensures
        classify_spec(zip_name, archive_prefix, dest_root) matches ExtractOutcome::Extract(p)
            ==> components_start_with(path_components(p), path_components(cleaned_path(dest_root))),
{
}

/// An entry under the prefix whose remaining path names a parent directory
/// (`..`) is unsafe, wherever it would resolve to.
pub proof fn lemma_parent_reference_unsafe(zip_name: Seq<char>, archive_prefix: Seq<char>, dest_root: Seq<char>)
    requires
        !(zip_name.len() > 0 && (zip_name.last() == '/' || zip_name.last() == '\\')),
        components_start_with(
            path_components(replace_char_spec(zip_name, '\\', '/')),
            path_components(archive_prefix),
        ),
        path_components(replace_char_spec(zip_name, '\\', '/')).skip(
            path_components(archive_prefix).len() as int,
        ).contains(seq!['.', '.']),
    ensures
        classify_spec(zip_name, archive_prefix, dest_root) is Unsafe,
{
}

} // verus!
