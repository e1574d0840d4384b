//! Fuzzy narrowing of name lists, and the two orders the lists are shown
//! in: by match score, best first, or alphabetically by lowercased name.
//! Both orders are stable: equal keys keep the order of the indices.
use vstd::prelude::*;
use nucleo_matcher::pattern::{CaseMatching, Normalization, Pattern};
use nucleo_matcher::{Config, Matcher, Utf32Str};
use crate::output::views_of_strings;
use crate::text::chars_of;

verus! {

/// The score nucleo-matcher gives `name` for the pattern parsed from
/// `query`, or none when the name does not match.
pub uninterp spec fn fuzzy_score_of(query: Seq<char>, name: Seq<char>) -> Option<u32>;

/// nucleo-matcher's fuzzy match: `Pattern::parse(query, CaseMatching::Ignore,
/// Normalization::Smart)` scored with `Pattern::score` against `name` using a
/// matcher with the default configuration. The result depends on the two
/// texts alone; nothing more is claimed of it. The matcher asserts that the
/// haystack has at most `u32::MAX` characters, so longer names are left out.
#[verifier::external_body]
pub(crate) fn fuzzy_score(query: &str, name: &str) -> (r: Option<u32>)
    requires
        name@.len() <= u32::MAX,
    ensures
        r == fuzzy_score_of(query@, name@),
{
    let mut matcher = Matcher::new(Config::DEFAULT);
    let pattern = Pattern::parse(query, CaseMatching::Ignore, Normalization::Smart);
    let mut buf = Vec::new();
    pattern.score(Utf32Str::new(name, &mut buf), &mut matcher)
}

/// In a list ranked by score: a higher score first, and on equal scores the
/// smaller index first.
pub open spec fn score_before(a: (usize, u32), b: (usize, u32)) -> bool {
    a.1 > b.1 || (a.1 == b.1 && a.0 < b.0)
}

/// Each element comes strictly before every later one.
pub open spec fn ranked_by_score(s: Seq<(usize, u32)>) -> bool {
    forall|i: int, j: int| 0 <= i < j < s.len() ==> score_before(#[trigger] s[i], #[trigger] s[j])
}

/// The indices of a list, strictly increasing.
pub open spec fn increasing_indices<T>(s: Seq<(usize, T)>) -> bool {
    forall|i: int, j: int| 0 <= i < j < s.len() ==> (#[trigger] s[i]).0 < (#[trigger] s[j]).0
}

/// Inserts into a ranked list: the new element goes after every element
/// with a score at least its own.
fn insert_by_score(r: &mut Vec<(usize, u32)>, e: (usize, u32))
    requires
        ranked_by_score(old(r)@),
        forall|i: int| 0 <= i < old(r)@.len() ==> (#[trigger] old(r)@[i]).0 < e.0,
    ensures
        ranked_by_score(final(r)@),
        final(r)@.len() == old(r)@.len() + 1,
        forall|x: (usize, u32)| #[trigger] final(r)@.contains(x) <==> (old(r)@.contains(x) || x == e),
{
    let mut p: usize = 0;
    while p < r.len() && r[p].1 >= e.1
        invariant
            p <= r.len(),
            r@ == old(r)@,
            forall|i: int| 0 <= i < p ==> (#[trigger] r@[i]).1 >= e.1,
        decreases r.len() - p,
    {
        p += 1;
    }
    let ghost before = r@;
    proof {
        assert forall|i: int| p <= i < before.len() implies (#[trigger] before[i]).1 < e.1 by {
            if i > p {
                assert(score_before(before[p as int], before[i]));
            }
        }
    }
    r.insert(p, e);
    proof {
        let after = r@;
        assert(after =~= before.insert(p as int, e));
        assert forall|i: int, j: int| 0 <= i < j < after.len() implies score_before(
            #[trigger] after[i],
            #[trigger] after[j],
        ) by {
            if j < p {
                assert(after[i] == before[i] && after[j] == before[j]);
            } else if j == p {
                assert(after[i] == before[i]);
            } else if i == p {
                assert(after[j] == before[j - 1]);
            } else if i < p {
                assert(after[i] == before[i] && after[j] == before[j - 1]);
            } else {
                assert(after[i] == before[i - 1] && after[j] == before[j - 1]);
            }
        }
        assert forall|x: (usize, u32)| #[trigger] after.contains(x) <==> (before.contains(x) || x == e) by {
            if after.contains(x) {
                let k = choose|k: int| 0 <= k < after.len() && after[k] == x;
                if k < p {
                    assert(before[k] == x);
                } else if k > p {
                    assert(before[k - 1] == x);
                }
            }
            if before.contains(x) {
                let k = choose|k: int| 0 <= k < before.len() && before[k] == x;
                if k < p {
                    assert(after[k] == x);
                } else {
                    assert(after[k + 1] == x);
                }
            }
            if x == e {
                assert(after[p as int] == e);
            }
        }
    }
}

/// Orders scored indices best first; equal scores keep their order.
pub fn rank_by_score(v: &Vec<(usize, u32)>) -> (r: Vec<(usize, u32)>)
    requires
        increasing_indices(v@),
    ensures
        ranked_by_score(r@),
        r@.len() == v@.len(),
        forall|x: (usize, u32)| #[trigger] r@.contains(x) <==> v@.contains(x),
{
    let mut r: Vec<(usize, u32)> = Vec::new();
    let mut k: usize = 0;
    while k < v.len()
        invariant
            k <= v.len(),
            increasing_indices(v@),
            ranked_by_score(r@),
            r@.len() == k,
            forall|x: (usize, u32)| #[trigger] r@.contains(x) <==> v@.subrange(0, k as int).contains(x),
        decreases v.len() - k,
    {
        let e = v[k];
        proof {
            assert forall|i: int| 0 <= i < r@.len() implies (#[trigger] r@[i]).0 < e.0 by {
                assert(r@.contains(r@[i]));
                let j = choose|j: int| 0 <= j < k && v@.subrange(0, k as int)[j] == r@[i];
                assert(v@[j] == r@[i]);
            }
        }
        insert_by_score(&mut r, e);
        proof {
            assert forall|x: (usize, u32)| #[trigger] r@.contains(x) <==> v@.subrange(0, k + 1).contains(x) by {
                let s0 = v@.subrange(0, k as int);
                let s1 = v@.subrange(0, k + 1);
                if s0.contains(x) {
                    let j = choose|j: int| 0 <= j < s0.len() && s0[j] == x;
                    assert(s1[j] == x);
                }
                if s1.contains(x) {
                    let j = choose|j: int| 0 <= j < s1.len() && s1[j] == x;
                    if j < k {
                        assert(s0[j] == x);
                    }
                }
                if x == e {
                    assert(s1[k as int] == e);
                }
            }
        }
        k += 1;
    }
    assert(v@.subrange(0, v@.len() as int) =~= v@);
    r
}

/// Lexicographic order on texts, character by character, a proper prefix
/// first: the order of `str` comparison.
pub open spec fn lex_lt(a: Seq<char>, b: Seq<char>) -> bool
    decreases a.len(),
{
    if a.len() == 0 {
        b.len() > 0
    } else if b.len() == 0 {
        false
    } else if a[0] != b[0] {
        (a[0] as int) < (b[0] as int)
    } else {
        lex_lt(a.drop_first(), b.drop_first())
    }
}

/// The lexicographic order is irreflexive, transitive and total.
pub proof fn lemma_lex_order(a: Seq<char>, b: Seq<char>, c: Seq<char>)
    ensures
        !lex_lt(a, a),
        lex_lt(a, b) && lex_lt(b, c) ==> lex_lt(a, c),
        a != b ==> lex_lt(a, b) || lex_lt(b, a),
        lex_lt(a, b) ==> !lex_lt(b, a),
    decreases a.len(),
{
    if a.len() > 0 && b.len() > 0 && c.len() > 0 {
        lemma_lex_order(a.drop_first(), b.drop_first(), c.drop_first());
    }
    if a.len() > 0 && b.len() > 0 {
        lemma_lex_order(a.drop_first(), b.drop_first(), b.drop_first());
        if a != b && a[0] == b[0] {
            assert(a.drop_first() != b.drop_first()) by {
                if a.drop_first() == b.drop_first() {
                    assert forall|i: int| 0 <= i < a.len() implies a[i] == b[i] by {
                        if i > 0 {
                            assert(a[i] == a.drop_first()[i - 1]);
                            assert(b[i] == b.drop_first()[i - 1]);
                        }
                    }
                    assert(a =~= b);
                }
            }
        }
    }
    if a.len() > 0 {
        lemma_lex_order(a.drop_first(), a.drop_first(), a.drop_first());
    }
    if a.len() == 0 && b.len() == 0 {
        assert(a =~= b);
    }
}

/// Compares two texts in the order of [`lex_lt`].
pub fn lex_less(a: &[char], b: &[char]) -> (r: bool)
    ensures
        r == lex_lt(a@, b@),
{
    let mut i: usize = 0;
    assert(a@.skip(0) =~= a@);
    assert(b@.skip(0) =~= b@);
    while i < a.len() && i < b.len() && a[i] == b[i]
        invariant
            i <= a.len(),
            i <= b.len(),
            lex_lt(a@, b@) == lex_lt(a@.skip(i as int), b@.skip(i as int)),
        decreases a.len() - i,
    {
        let ghost sa = a@.skip(i as int);
        let ghost sb = b@.skip(i as int);
        proof {
            assert(sa.drop_first() =~= a@.skip(i + 1));
            assert(sb.drop_first() =~= b@.skip(i + 1));
        }
        i += 1;
    }
    let ghost sa = a@.skip(i as int);
    let ghost sb = b@.skip(i as int);
    if i == a.len() {
        assert(sa.len() == 0);
        i < b.len()
    } else if i == b.len() {
        false
    } else {
        assert(sa[0] == a@[i as int] && sb[0] == b@[i as int]);
        a[i] < b[i]
    }
}

/// In a list ordered by name: the smaller name first, and on equal names
/// the smaller index first.
pub open spec fn name_before(a: (usize, Seq<char>), b: (usize, Seq<char>)) -> bool {
    lex_lt(a.1, b.1) || (a.1 == b.1 && a.0 < b.0)
}

/// Each element comes strictly before every later one.
pub open spec fn ranked_by_name(s: Seq<(usize, Seq<char>)>) -> bool {
    forall|i: int, j: int| 0 <= i < j < s.len() ==> name_before(#[trigger] s[i], #[trigger] s[j])
}

/// The index and name of each entry.
pub open spec fn keyed(s: Seq<(usize, Vec<char>)>) -> Seq<(usize, Seq<char>)> {
    s.map_values(|e: (usize, Vec<char>)| (e.0, e.1@))
}

fn insert_by_name(r: &mut Vec<(usize, Vec<char>)>, e: (usize, Vec<char>))
    requires
        ranked_by_name(keyed(old(r)@)),
        forall|i: int| 0 <= i < old(r)@.len() ==> (#[trigger] old(r)@[i]).0 < e.0,
    ensures
        ranked_by_name(keyed(final(r)@)),
        final(r)@.len() == old(r)@.len() + 1,
        forall|x: (usize, Seq<char>)| #[trigger] keyed(final(r)@).contains(x) <==> (keyed(old(r)@).contains(x) || x == (
            e.0,
            e.1@,
        )),
{
    let ghost ek = (e.0, e.1@);
    let mut p: usize = 0;
    while p < r.len() && !lex_less(e.1.as_slice(), r[p].1.as_slice())
        invariant
            p <= r.len(),
            r@ == old(r)@,
            forall|i: int| 0 <= i < p ==> !lex_lt(e.1@, (#[trigger] keyed(r@)[i]).1),
        decreases r.len() - p,
    {
        assert(keyed(r@)[p as int] == (r@[p as int].0, r@[p as int].1@));
        p += 1;
    }
    let ghost before = keyed(r@);
    proof {
        assert forall|i: int| p <= i < before.len() implies lex_lt(e.1@, (#[trigger] before[i]).1) by {
            assert(lex_lt(e.1@, before[p as int].1));
            if i > p {
                assert(name_before(before[p as int], before[i]));
                lemma_lex_order(e.1@, before[p as int].1, before[i].1);
            }
        }
        assert forall|i: int| 0 <= i < p implies name_before(#[trigger] before[i], ek) by {
            assert(before[i].0 == r@[i].0);
            lemma_lex_order(before[i].1, e.1@, e.1@);
        }
    }
    r.insert(p, e);
    proof {
        let after = keyed(r@);
        assert(after =~= before.insert(p as int, ek));
        assert forall|i: int, j: int| 0 <= i < j < after.len() implies name_before(
            #[trigger] after[i],
            #[trigger] after[j],
        ) by {
            if j < p {
                assert(after[i] == before[i] && after[j] == before[j]);
            } else if j == p {
                assert(after[i] == before[i]);
            } else if i == p {
                assert(after[j] == before[j - 1]);
            } else if i < p {
                assert(after[i] == before[i] && after[j] == before[j - 1]);
            } else {
                assert(after[i] == before[i - 1] && after[j] == before[j - 1]);
            }
        }
        assert forall|x: (usize, Seq<char>)| #[trigger] after.contains(x) <==> (before.contains(x) || x == ek) by {
            if after.contains(x) {
                let k = choose|k: int| 0 <= k < after.len() && after[k] == x;
                if k < p {
                    assert(before[k] == x);
                } else if k > p {
                    assert(before[k - 1] == x);
                }
            }
            if before.contains(x) {
                let k = choose|k: int| 0 <= k < before.len() && before[k] == x;
                if k < p {
                    assert(after[k] == x);
                } else {
                    assert(after[k + 1] == x);
                }
            }
            if x == ek {
                assert(after[p as int] == ek);
            }
        }
    }
}

/// Orders named indices by name; equal names keep their order.
pub fn rank_by_name(v: &Vec<(usize, Vec<char>)>) -> (r: Vec<(usize, Vec<char>)>)
    requires
        increasing_indices(v@),
    ensures
        ranked_by_name(keyed(r@)),
        r@.len() == v@.len(),
        forall|x: (usize, Seq<char>)| #[trigger] keyed(r@).contains(x) <==> keyed(v@).contains(x),
{
    let ghost all = keyed(v@);
    let mut r: Vec<(usize, Vec<char>)> = Vec::new();
    let mut k: usize = 0;
    while k < v.len()
        invariant
            k <= v.len(),
            all == keyed(v@),
            increasing_indices(v@),
            ranked_by_name(keyed(r@)),
            r@.len() == k,
            forall|x: (usize, Seq<char>)| #[trigger] keyed(r@).contains(x) <==> all.subrange(0, k as int).contains(x),
        decreases v.len() - k,
    {
        let e = (v[k].0, crate::text::copy_chars(v[k].1.as_slice()));
        let ghost ek = (e.0, e.1@);
        proof {
            assert(all[k as int] == ek);
            assert forall|i: int| 0 <= i < r@.len() implies (#[trigger] r@[i]).0 < e.0 by {
                let x = keyed(r@)[i];
                assert(keyed(r@).contains(x));
                let j = choose|j: int| 0 <= j < k && all.subrange(0, k as int)[j] == x;
                assert(all[j] == x);
                assert(v@[j].0 == x.0);
            }
        }
        insert_by_name(&mut r, e);
        proof {
            assert forall|x: (usize, Seq<char>)| #[trigger] keyed(r@).contains(x) <==> all.subrange(0, k + 1).contains(x) by {
                let s0 = all.subrange(0, k as int);
                let s1 = all.subrange(0, k + 1);
                if s0.contains(x) {
                    let j = choose|j: int| 0 <= j < s0.len() && s0[j] == x;
                    assert(s1[j] == x);
                }
                if s1.contains(x) {
                    let j = choose|j: int| 0 <= j < s1.len() && s1[j] == x;
                    if j < k {
                        assert(s0[j] == x);
                    }
                }
                if x == ek {
                    assert(s1[k as int] == ek);
                }
            }
        }
        k += 1;
    }
    assert(all.subrange(0, v@.len() as int) =~= all);
    r
}


/// Texts in non-decreasing order.
pub open spec fn sorted_texts(s: Seq<Seq<char>>) -> bool {
    forall|i: int, j: int| 0 <= i < j < s.len() ==> !lex_lt(#[trigger] s[j], #[trigger] s[i])
}

/// Texts in increasing order, so each occurs once.
pub open spec fn strictly_sorted_texts(s: Seq<Seq<char>>) -> bool {
    forall|i: int, j: int| 0 <= i < j < s.len() ==> lex_lt(#[trigger] s[i], #[trigger] s[j])
}

fn text_less(a: &String, b: &String) -> (r: bool)
    ensures
        r == lex_lt(a@, b@),
{
    lex_less(chars_of(a.as_str()).as_slice(), chars_of(b.as_str()).as_slice())
}

/// Sorts texts into non-decreasing order, keeping each as often as it occurs.
pub fn sort_texts(v: &Vec<String>) -> (r: Vec<String>)
    ensures
        sorted_texts(views_of_strings(r@)),
        views_of_strings(r@).to_multiset() == views_of_strings(v@).to_multiset(),
{
    let mut r: Vec<String> = Vec::new();
    let mut k: usize = 0;
    assert(views_of_strings(r@) =~= views_of_strings(v@).subrange(0, 0));
    while k < v.len()
        invariant
            k <= v.len(),
            sorted_texts(views_of_strings(r@)),
            views_of_strings(r@).to_multiset() == views_of_strings(v@).subrange(0, k as int).to_multiset(),
        decreases v.len() - k,
    {
        let e = v[k].clone();
        let ghost rv = views_of_strings(r@);
        let mut p: usize = 0;
        while p < r.len() && !text_less(&e, &r[p])
            invariant
                p <= r.len(),
                rv == views_of_strings(r@),
                forall|i: int| 0 <= i < p ==> !lex_lt(e@, #[trigger] rv[i]),
            decreases r.len() - p,
        {
            p += 1;
        }
        proof {
            assert forall|j: int| p <= j < rv.len() implies lex_lt(e@, #[trigger] rv[j]) by {
                if j > p {
                    assert(!lex_lt(rv[j], rv[p as int]));
                    lemma_lex_order(rv[p as int], rv[j], rv[j]);
                    lemma_lex_order(e@, rv[p as int], rv[j]);
                }
            }
        }
        r.insert(p, e);
        proof {
            let after = views_of_strings(r@);
            assert(after =~= rv.insert(p as int, e@));
            assert forall|i: int, j: int| 0 <= i < j < after.len() implies !lex_lt(
                #[trigger] after[j],
                #[trigger] after[i],
            ) by {
                if j < p {
                    assert(after[i] == rv[i] && after[j] == rv[j]);
                } else if j == p {
                    assert(after[i] == rv[i]);
                } else if i == p {
                    assert(after[j] == rv[j - 1]);
                    lemma_lex_order(e@, rv[j - 1], e@);
                } else if i < p {
                    assert(after[i] == rv[i] && after[j] == rv[j - 1]);
                } else {
                    assert(after[i] == rv[i - 1] && after[j] == rv[j - 1]);
                }
            }
            vstd::seq_lib::to_multiset_insert(rv, p as int, e@);
            let s1 = views_of_strings(v@).subrange(0, k + 1);
            assert(s1 =~= views_of_strings(v@).subrange(0, k as int).push(e@));
            vstd::seq_lib::to_multiset_build(views_of_strings(v@).subrange(0, k as int), e@);
        }
        k += 1;
    }
    assert(views_of_strings(v@).subrange(0, v@.len() as int) =~= views_of_strings(v@));
    r
}

/// Adds a text to an increasing list unless it is there already.
pub fn insert_sorted_unique(list: &mut Vec<String>, c: String)
    requires
        strictly_sorted_texts(views_of_strings(old(list)@)),
    ensures
        strictly_sorted_texts(views_of_strings(final(list)@)),
        views_of_strings(final(list)@).to_set() == views_of_strings(old(list)@).to_set().insert(c@),
{
    let ghost lv = views_of_strings(list@);
    let mut p: usize = 0;
    while p < list.len() && text_less(&list[p], &c)
        invariant
            p <= list.len(),
            lv == views_of_strings(list@),
            forall|i: int| 0 <= i < p ==> lex_lt(#[trigger] lv[i], c@),
        decreases list.len() - p,
    {
        p += 1;
    }
    if p < list.len() && crate::text::string_eq(&list[p], &c) {
        proof {
            assert(lv[p as int] == c@);
            assert(lv.to_set().insert(c@) =~= lv.to_set()) by {
                assert(lv.contains(c@));
            }
        }
        return;
    }
    proof {
        assert forall|j: int| p <= j < lv.len() implies lex_lt(c@, #[trigger] lv[j]) by {
            lemma_lex_order(c@, lv[p as int], lv[j]);
            lemma_lex_order(lv[p as int], c@, c@);
            if j > p {
                assert(lex_lt(lv[p as int], lv[j]));
                lemma_lex_order(c@, lv[p as int], lv[j]);
            }
        }
    }
    list.insert(p, c);
    proof {
        let after = views_of_strings(list@);
        assert(after =~= lv.insert(p as int, c@));
        assert forall|i: int, j: int| 0 <= i < j < after.len() implies lex_lt(
            #[trigger] after[i],
            #[trigger] after[j],
        ) by {
            if j < p {
                assert(after[i] == lv[i] && after[j] == lv[j]);
            } else if j == p {
                assert(after[i] == lv[i]);
            } else if i == p {
                assert(after[j] == lv[j - 1]);
            } else if i < p {
                assert(after[i] == lv[i] && after[j] == lv[j - 1]);
            } else {
                assert(after[i] == lv[i - 1] && after[j] == lv[j - 1]);
            }
        }
        assert forall|x: Seq<char>| after.to_set().contains(x) <==> lv.to_set().insert(c@).contains(x) by {
            if after.contains(x) {
                let k = choose|k: int| 0 <= k < after.len() && after[k] == x;
                if k < p {
                    assert(lv[k] == x);
                } else if k > p {
                    assert(lv[k - 1] == x);
                }
            }
            if lv.contains(x) {
                let k = choose|k: int| 0 <= k < lv.len() && lv[k] == x;
                if k < p {
                    assert(after[k] == x);
                } else {
                    assert(after[k + 1] == x);
                }
            }
            if x == c@ {
                assert(after[p as int] == c@);
            }
        }
        assert(after.to_set() =~= lv.to_set().insert(c@));
    }
}

} // verus!
