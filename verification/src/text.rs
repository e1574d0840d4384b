//! Character-level text helpers with their specifications.
use vstd::prelude::*;

verus! {

/// Appends one character to a string (std's `String::push`).
#[verifier::external_body]
pub(crate) fn push_char(s: &mut String, c: char)
    ensures
        final(s)@ == old(s)@.push(c),
{
    s.push(c)
}

/// The characters of a string, in order.
pub fn chars_of(s: &str) -> (v: Vec<char>)
    ensures
        v@ == s@,
{
    let mut v: Vec<char> = Vec::new();
    for c in it: s.chars()
        invariant
            v@ == it.seq().take(it.index() as int),
            it.seq() == s@,
    {
        v.push(c);
    }
    v
}

/// A string made of the given characters.
pub fn string_of(v: &[char]) -> (s: String)
    ensures
        s@ == v@,
{
    let mut s = String::new();
    let mut i: usize = 0;
    while i < v.len()
        invariant
            i <= v.len(),
            s@ == v@.take(i as int),
        decreases v.len() - i,
    {
        push_char(&mut s, v[i]);
        assert(v@.take(i as int + 1) == v@.take(i as int).push(v@[i as int]));
        i += 1;
    }
    assert(v@.take(v.len() as int) == v@);
    s
}

} // verus!

verus! {

/// The character sequences held by a list of character vectors.
pub open spec fn views(v: Seq<Vec<char>>) -> Seq<Seq<char>> {
    v.map_values(|x: Vec<char>| x@)
}

/// `p` is a prefix of `s`.
pub open spec fn has_prefix(s: Seq<char>, p: Seq<char>) -> bool {
    p.len() <= s.len() && s.take(p.len() as int) == p
}

/// `p` is a suffix of `s`.
pub open spec fn has_suffix(s: Seq<char>, p: Seq<char>) -> bool {
    p.len() <= s.len() && s.skip(s.len() - p.len()) == p
}

/// Every occurrence of `from` replaced by `to`.
pub open spec fn replace_char_spec(s: Seq<char>, from: char, to: char) -> Seq<char> {
    s.map_values(|c: char| if c == from { to } else { c })
}

/// The pieces of `s` between occurrences of `sep` (always at least one piece).
pub open spec fn split_on(s: Seq<char>, sep: char) -> Seq<Seq<char>>
    decreases s.len(),
{
    if s.len() == 0 {
        seq![Seq::<char>::empty()]
    } else {
        let prev = split_on(s.drop_last(), sep);
        if s.last() == sep {
            prev.push(Seq::<char>::empty())
        } else {
            prev.update(prev.len() - 1, prev.last().push(s.last()))
        }
    }
}

/// The pieces joined with `sep` between consecutive pieces.
pub open spec fn join_with(parts: Seq<Seq<char>>, sep: Seq<char>) -> Seq<char>
    decreases parts.len(),
{
    if parts.len() == 0 {
        Seq::<char>::empty()
    } else if parts.len() == 1 {
        parts[0]
    } else {
        join_with(parts.drop_last(), sep) + sep + parts.last()
    }
}

/// The smallest index `j` with `i <= j < n` that satisfies `p`, or `n` if there is none.
pub open spec fn first_index_from(n: int, i: int, p: spec_fn(int) -> bool) -> int
    decreases n - i,
{
    if i >= n {
        n
    } else if p(i) {
        i
    } else {
        first_index_from(n, i + 1, p)
    }
}

pub open spec fn is_digit(c: char) -> bool {
    '0' <= c && c <= '9'
}

/// The sequence is non-empty and starts with an ASCII digit.
pub open spec fn starts_with_digit(s: Seq<char>) -> bool {
    s.len() > 0 && is_digit(s[0])
}

/// Unicode `White_Space` characters (what `char::is_whitespace` accepts).
pub open spec fn is_space(c: char) -> bool {
    ||| ('\u{9}' <= c && c <= '\u{d}')
    ||| c == ' '
    ||| c == '\u{85}'
    ||| c == '\u{a0}'
    ||| c == '\u{1680}'
    ||| ('\u{2000}' <= c && c <= '\u{200a}')
    ||| c == '\u{2028}'
    ||| c == '\u{2029}'
    ||| c == '\u{202f}'
    ||| c == '\u{205f}'
    ||| c == '\u{3000}'
}

pub proof fn lemma_split_on_nonempty(s: Seq<char>, sep: char)
    ensures
        split_on(s, sep).len() >= 1,
    decreases s.len(),
{
    if s.len() > 0 {
        lemma_split_on_nonempty(s.drop_last(), sep);
    }
}

/// Joining the pieces of a split with the separator gives back the text.
pub proof fn lemma_split_join(s: Seq<char>, sep: char)
    ensures
        join_with(split_on(s, sep), seq![sep]) == s,
    decreases s.len(),
{
    if s.len() > 0 {
        let prev = split_on(s.drop_last(), sep);
        lemma_split_join(s.drop_last(), sep);
        lemma_split_on_nonempty(s.drop_last(), sep);
        let new = split_on(s, sep);
        if s.last() == sep {
            assert(new.drop_last() =~= prev);
            assert(s =~= s.drop_last() + seq![sep] + Seq::<char>::empty());
        } else {
            let c = s.last();
            if prev.len() == 1 {
                assert(s =~= prev[0].push(c));
            } else {
                assert(new.drop_last() =~= prev.drop_last());
                assert(join_with(prev, seq![sep]) == join_with(prev.drop_last(), seq![sep]) + seq![sep] + prev.last());
                assert(s =~= join_with(prev, seq![sep]).push(c));
                assert(s =~= join_with(prev.drop_last(), seq![sep]) + seq![sep] + prev.last().push(c));
                assert(join_with(new, seq![sep]) == join_with(new.drop_last(), seq![sep]) + seq![sep] + new.last());
            }
        }
    }
}

/// Joining pieces is joining the first `i` of them, the separator, and the
/// rest.
pub proof fn lemma_join_split_at(ps: Seq<Seq<char>>, sep: Seq<char>, i: int)
    requires
        1 <= i < ps.len(),
    ensures
        join_with(ps, sep) == join_with(ps.take(i), sep) + sep + join_with(ps.skip(i), sep),
    decreases ps.len(),
{
    let d = ps.drop_last();
    if i == ps.len() - 1 {
        assert(ps.take(i) =~= d);
        assert(ps.skip(i) =~= seq![ps.last()]);
    } else {
        lemma_join_split_at(d, sep, i);
        assert(d.take(i) =~= ps.take(i));
        assert(ps.skip(i).drop_last() =~= d.skip(i));
        assert(ps.skip(i).last() == ps.last());
        assert(join_with(ps.skip(i), sep) == join_with(ps.skip(i).drop_last(), sep) + sep + ps.skip(i).last());
    }
}

pub proof fn lemma_first_index_bounds(n: int, i: int, p: spec_fn(int) -> bool)
    requires
        i <= n,
    ensures
        i <= first_index_from(n, i, p) <= n,
        first_index_from(n, i, p) < n ==> p(first_index_from(n, i, p)),
        forall|j: int| i <= j < first_index_from(n, i, p) ==> !#[trigger] p(j),
    decreases n - i,
{
    if i < n && !p(i) {
        lemma_first_index_bounds(n, i + 1, p);
    }
}

/// ASCII digit test.
pub fn is_ascii_digit(c: char) -> (b: bool)
    ensures
        b == is_digit(c),
{
    '0' <= c && c <= '9'
}

/// `char::is_whitespace`.
pub fn is_whitespace(c: char) -> (b: bool)
    ensures
        b == is_space(c),
{
    ('\u{9}' <= c && c <= '\u{d}') || c == ' ' || c == '\u{85}' || c == '\u{a0}' || c
        == '\u{1680}' || ('\u{2000}' <= c && c <= '\u{200a}') || c == '\u{2028}' || c
        == '\u{2029}' || c == '\u{202f}' || c == '\u{205f}' || c == '\u{3000}'
}

/// Whether `s` starts with `p`.
pub fn starts_with(s: &[char], p: &[char]) -> (b: bool)
    ensures
        b == has_prefix(s@, p@),
{
    if p.len() > s.len() {
        return false;
    }
    let mut i: usize = 0;
    while i < p.len()
        invariant
            p.len() <= s.len(),
            i <= p.len(),
            forall|j: int| 0 <= j < i ==> s@[j] == p@[j],
        decreases p.len() - i,
    {
        if s[i] != p[i] {
            assert(s@.take(p.len() as int)[i as int] != p@[i as int]);
            return false;
        }
        i += 1;
    }
    assert(s@.take(p.len() as int) =~= p@);
    true
}

/// Whether `s` ends with `p`.
pub fn ends_with(s: &[char], p: &[char]) -> (b: bool)
    ensures
        b == has_suffix(s@, p@),
{
    if p.len() > s.len() {
        return false;
    }
    let off = s.len() - p.len();
    let mut i: usize = 0;
    while i < p.len()
        invariant
            p.len() <= s.len(),
            off == s.len() - p.len(),
            i <= p.len(),
            forall|j: int| 0 <= j < i ==> s@[off + j] == p@[j],
        decreases p.len() - i,
    {
        if s[off + i] != p[i] {
            assert(s@.skip(off as int)[i as int] != p@[i as int]);
            return false;
        }
        i += 1;
    }
    assert(s@.skip(off as int) =~= p@);
    true
}

/// Copy of a slice of characters.
pub fn copy_chars(s: &[char]) -> (v: Vec<char>)
    ensures
        v@ == s@,
{
    let mut v: Vec<char> = Vec::new();
    let mut i: usize = 0;
    while i < s.len()
        invariant
            i <= s.len(),
            v@ == s@.take(i as int),
        decreases s.len() - i,
    {
        v.push(s[i]);
        assert(s@.take(i as int + 1) == s@.take(i as int).push(s@[i as int]));
        i += 1;
    }
    assert(s@.take(s.len() as int) == s@);
    v
}

/// The characters `s[from..to]`.
pub fn sub_chars(s: &[char], from: usize, to: usize) -> (v: Vec<char>)
    requires
        from <= to <= s.len(),
    ensures
        v@ == s@.subrange(from as int, to as int),
{
    let mut v: Vec<char> = Vec::new();
    let mut i: usize = from;
    while i < to
        invariant
            from <= i <= to <= s.len(),
            v@ == s@.subrange(from as int, i as int),
        decreases to - i,
    {
        v.push(s[i]);
        assert(s@.subrange(from as int, i as int + 1) == s@.subrange(from as int, i as int).push(
            s@[i as int],
        ));
        i += 1;
    }
    v
}

/// Every `from` replaced by `to`.
pub fn replace_char(s: &[char], from: char, to: char) -> (v: Vec<char>)
    ensures
        v@ == replace_char_spec(s@, from, to),
{
    let mut v: Vec<char> = Vec::new();
    let mut i: usize = 0;
    while i < s.len()
        invariant
            i <= s.len(),
            v@ == replace_char_spec(s@.take(i as int), from, to),
        decreases s.len() - i,
    {
        let c = s[i];
        if c == from {
            v.push(to);
        } else {
            v.push(c);
        }
        assert(replace_char_spec(s@.take(i as int + 1), from, to) =~= replace_char_spec(
            s@.take(i as int),
            from,
            to,
        ).push(if c == from { to } else { c }));
        i += 1;
    }
    assert(s@.take(s.len() as int) == s@);
    v
}

/// `s` split at every `sep` (like `str::split` with a char pattern).
pub fn split_chars(s: &[char], sep: char) -> (parts: Vec<Vec<char>>)
    ensures
        views(parts@) == split_on(s@, sep),
{
    let mut parts: Vec<Vec<char>> = Vec::new();
    let mut cur: Vec<char> = Vec::new();
    let mut i: usize = 0;
    while i < s.len()
        invariant
            i <= s.len(),
            views(parts@).push(cur@) == split_on(s@.take(i as int), sep),
        decreases s.len() - i,
    {
        let ghost prev = views(parts@).push(cur@);
        assert(s@.take(i as int + 1).drop_last() == s@.take(i as int));
        let c = s[i];
        if c == sep {
            let ghost old_parts = parts@;
            let ghost old_cur = cur@;
            let ghost old_v = cur;
            parts.push(cur);
            assert(parts@ == old_parts.push(old_v));
            assert(views(parts@) =~= views(old_parts).push(old_cur));
            cur = Vec::new();
            assert(views(parts@).push(cur@) =~= prev.push(Seq::<char>::empty()));
        } else {
            cur.push(c);
            assert(views(parts@).push(cur@) =~= prev.update(
                prev.len() - 1,
                prev.last().push(c),
            ));
        }
        i += 1;
    }
    assert(s@.take(s.len() as int) == s@);
    let ghost old_parts = parts@;
    let ghost old_cur = cur@;
    parts.push(cur);
    assert(views(parts@) =~= views(old_parts).push(old_cur));
    parts
}

/// The pieces joined with `sep`.
pub fn join_chars(parts: &[Vec<char>], sep: &[char]) -> (v: Vec<char>)
    ensures
        v@ == join_with(views(parts@), sep@),
{
    let mut v: Vec<char> = Vec::new();
    let mut i: usize = 0;
    while i < parts.len()
        invariant
            i <= parts.len(),
            v@ == join_with(views(parts@).take(i as int), sep@),
        decreases parts.len() - i,
    {
        let ghost before = v@;
        assert(views(parts@).take(i as int + 1).drop_last() == views(parts@).take(
            i as int,
        ));
        if i > 0 {
            let mut k: usize = 0;
            while k < sep.len()
                invariant
                    k <= sep.len(),
                    v@ == before + sep@.take(k as int),
                decreases sep.len() - k,
            {
                v.push(sep[k]);
                assert(sep@.take(k as int + 1) == sep@.take(k as int).push(sep@[k as int]));
                assert(before + sep@.take(k as int + 1) =~= (before + sep@.take(k as int)).push(
                    sep@[k as int],
                ));
                k += 1;
            }
            assert(sep@.take(sep.len() as int) == sep@);
        }
        let ghost mid = v@;
        let part = &parts[i];
        let mut k: usize = 0;
        while k < part.len()
            invariant
                k <= part.len(),
                v@ == mid + part@.take(k as int),
            decreases part.len() - k,
        {
            v.push(part[k]);
            assert(part@.take(k as int + 1) == part@.take(k as int).push(part@[k as int]));
            assert(mid + part@.take(k as int + 1) =~= (mid + part@.take(k as int)).push(
                part@[k as int],
            ));
            k += 1;
        }
        assert(part@.take(part.len() as int) == part@);
        assert(views(parts@)[i as int] == part@);
        if i == 0 {
            assert(v@ =~= part@);
        }
        i += 1;
    }
    assert(views(parts@).take(parts.len() as int) == views(parts@));
    v
}

} // verus!

verus! {

/// Character-wise equality.
pub fn chars_eq(a: &[char], b: &[char]) -> (r: bool)
    ensures
        r == (a@ == b@),
{
    if a.len() != b.len() {
        return false;
    }
    let r = starts_with(a, b);
    assert(a@.take(b@.len() as int) =~= a@);
    r
}

} // verus!

verus! {

/// String equality by content.
pub fn string_eq(a: &String, b: &String) -> (r: bool)
    ensures
        r == (a@ == b@),
{
    str_eq(a.as_str(), b.as_str())
}

/// Equality of two string slices by content.
pub fn str_eq(a: &str, b: &str) -> (r: bool)
    ensures
        r == (a@ == b@),
{
    let x = chars_of(a);
    let y = chars_of(b);
    chars_eq(&x, &y)
}

} // verus!

verus! {

pub proof fn lemma_first_index_exact(n: int, lo: int, k: int, p: spec_fn(int) -> bool)
    requires
        lo <= k <= n,
        forall|j: int| lo <= j < k ==> !#[trigger] p(j),
        k < n ==> p(k),
    ensures
        first_index_from(n, lo, p) == k,
    decreases k - lo,
{
    if lo < k {
        lemma_first_index_exact(n, lo + 1, k, p);
    }
}

/// `parts[lo..hi]` joined with `sep`.
pub fn join_chars_range(parts: &Vec<Vec<char>>, lo: usize, hi: usize, sep: &[char]) -> (v: Vec<
    char,
>)
    requires
        lo <= hi <= parts.len(),
    ensures
        v@ == join_with(views(parts@).subrange(lo as int, hi as int), sep@),
{
    let mut v: Vec<char> = Vec::new();
    let mut i: usize = lo;
    while i < hi
        invariant
            lo <= i <= hi <= parts.len(),
            v@ == join_with(views(parts@).subrange(lo as int, i as int), sep@),
        decreases hi - i,
    {
        let ghost before = v@;
        assert(views(parts@).subrange(lo as int, i as int + 1).drop_last() == views(
            parts@,
        ).subrange(lo as int, i as int));
        if i > lo {
            let mut k: usize = 0;
            while k < sep.len()
                invariant
                    k <= sep.len(),
                    v@ == before + sep@.take(k as int),
                decreases sep.len() - k,
            {
                v.push(sep[k]);
                assert(sep@.take(k as int + 1) == sep@.take(k as int).push(sep@[k as int]));
                assert(before + sep@.take(k as int + 1) =~= (before + sep@.take(k as int)).push(
                    sep@[k as int],
                ));
                k += 1;
            }
            assert(sep@.take(sep.len() as int) == sep@);
        }
        let ghost mid = v@;
        let part = &parts[i];
        let mut k: usize = 0;
        while k < part.len()
            invariant
                k <= part.len(),
                v@ == mid + part@.take(k as int),
            decreases part.len() - k,
        {
            v.push(part[k]);
            assert(part@.take(k as int + 1) == part@.take(k as int).push(part@[k as int]));
            assert(mid + part@.take(k as int + 1) =~= (mid + part@.take(k as int)).push(
                part@[k as int],
            ));
            k += 1;
        }
        assert(part@.take(part.len() as int) == part@);
        assert(views(parts@)[i as int] == part@);
        assert(views(parts@).subrange(lo as int, i as int + 1).last() == part@);
        if i == lo {
            assert(v@ =~= part@);
            assert(views(parts@).subrange(lo as int, i as int + 1).len() == 1);
            assert(views(parts@).subrange(lo as int, i as int + 1)[0] == part@);
        }
        i += 1;
    }
    v
}

} // verus!

verus! {

/// A character of the ASCII range.
pub open spec fn is_ascii_char(c: char) -> bool {
    (c as u32) < 128
}

/// Every character is ASCII.
pub open spec fn is_ascii_text(s: Seq<char>) -> bool {
    forall|i: int| 0 <= i < s.len() ==> is_ascii_char(#[trigger] s[i])
}

/// An ASCII letter `A`–`Z` turned into `a`–`z`; any other character kept.
pub open spec fn ascii_lower_char(c: char) -> char {
    if 'A' <= c && c <= 'Z' {
        ((c as u32) + 32) as char
    } else {
        c
    }
}

/// The text with its ASCII capitals turned into small letters.
pub open spec fn ascii_lowered(s: Seq<char>) -> Seq<char> {
    s.map_values(|c: char| ascii_lower_char(c))
}

/// The string produced by `str::to_lowercase` for text that is not all
/// ASCII.
pub uninterp spec fn unicode_lowercased(s: Seq<char>) -> Seq<char>;

/// The string produced by `str::to_lowercase`: on ASCII text the capitals
/// `A`–`Z` become `a`–`z` and nothing else changes; on other text it is the
/// Unicode lowercase mapping.
pub open spec fn lowercased(s: Seq<char>) -> Seq<char> {
    if is_ascii_text(s) {
        ascii_lowered(s)
    } else {
        unicode_lowercased(s)
    }
}

/// ASCII text without capitals is its own lowercase form.
pub proof fn lemma_lowercase_keeps_small_ascii(s: Seq<char>)
    requires
        is_ascii_text(s),
        forall|i: int| 0 <= i < s.len() ==> !('A' <= #[trigger] s[i] && s[i] <= 'Z'),
    ensures
        lowercased(s) == s,
{
    assert(ascii_lowered(s) =~= s);
}

/// `str::to_lowercase` (Unicode lowercase mapping, independent of locale).
/// On ASCII text it maps `A`–`Z` to `a`–`z` and keeps every other
/// character, as std documents; on other text the result is only named: it
/// depends on the text alone.
#[verifier::external_body]
pub(crate) fn to_lowercase(s: &str) -> (r: String)
    ensures
        is_ascii_text(s@) ==> r@ == ascii_lowered(s@),
        !is_ascii_text(s@) ==> r@ == unicode_lowercased(s@),
{
    s.to_lowercase()
}

} // verus!

verus! {

/// The value of a digit character.
pub open spec fn digit_value(c: char) -> int {
    (c as int) - ('0' as int)
}

/// All characters are ASCII digits.
pub open spec fn all_digits(s: Seq<char>) -> bool {
    forall|i: int| 0 <= i < s.len() ==> is_digit(#[trigger] s[i])
}

/// The decimal value of a digit string.
pub open spec fn digits_value(s: Seq<char>) -> nat
    decreases s.len(),
{
    if s.len() == 0 {
        0
    } else {
        (10 * digits_value(s.drop_last()) + digit_value(s.last())) as nat
    }
}

/// `s` without a single leading `+`.
pub open spec fn unsigned_digits(s: Seq<char>) -> Seq<char> {
    if s.len() > 0 && s[0] == '+' {
        s.skip(1)
    } else {
        s
    }
}

/// What `u32::from_str` returns for `s`.
pub open spec fn parse_u32_spec(s: Seq<char>) -> Option<u32> {
    let d = unsigned_digits(s);
    if d.len() > 0 && all_digits(d) && digits_value(d) <= u32::MAX {
        Some(digits_value(d) as u32)
    } else {
        None
    }
}

/// What `u64::from_str` returns for `s`.
pub open spec fn parse_u64_spec(s: Seq<char>) -> Option<u64> {
    let d = unsigned_digits(s);
    if d.len() > 0 && all_digits(d) && digits_value(d) <= u64::MAX {
        Some(digits_value(d) as u64)
    } else {
        None
    }
}

/// What `i32::from_str` returns for `s`.
pub open spec fn parse_i32_spec(s: Seq<char>) -> Option<i32> {
    if s.len() > 0 && s[0] == '-' {
        let d = s.skip(1);
        if d.len() > 0 && all_digits(d) && digits_value(d) <= 0x8000_0000 {
            Some((0 - digits_value(d)) as i32)
        } else {
            None
        }
    } else {
        let d = unsigned_digits(s);
        if d.len() > 0 && all_digits(d) && digits_value(d) <= i32::MAX {
            Some(digits_value(d) as i32)
        } else {
            None
        }
    }
}

pub proof fn lemma_digits_value_mono(s: Seq<char>, i: int, j: int)
    requires
        0 <= i <= j <= s.len(),
        all_digits(s),
    ensures
        digits_value(s.take(i)) <= digits_value(s.take(j)),
    decreases j - i,
{
    if i < j {
        lemma_digits_value_mono(s, i, j - 1);
        assert(s.take(j).drop_last() == s.take(j - 1));
        assert(is_digit(s[j - 1]));
    }
}

/// The decimal value of `s[from..]` when it is a non-empty digit string not
/// above `limit`.
fn digits_up_to(s: &[char], from: usize, limit: u64) -> (r: Option<u64>)
    requires
        from <= s.len(),
        limit >= 9,
    ensures
        ({
            let d = s@.skip(from as int);
            match r {
                Some(v) => d.len() > 0 && all_digits(d) && digits_value(d) <= limit && v
                    == digits_value(d),
                None => !(d.len() > 0 && all_digits(d) && digits_value(d) <= limit),
            }
        }),
{
    let ghost d = s@.skip(from as int);
    if from == s.len() {
        return None;
    }
    let mut i: usize = from;
    while i < s.len()
        invariant
            from <= i <= s.len(),
            d == s@.skip(from as int),
            forall|k: int| 0 <= k < i - from ==> is_digit(#[trigger] d[k]),
        decreases s.len() - i,
    {
        if !('0' <= s[i] && s[i] <= '9') {
            assert(!is_digit(d[i - from]));
            return None;
        }
        i += 1;
    }
    assert(all_digits(d));
    let mut acc: u64 = 0;
    let mut i: usize = from;
    while i < s.len()
        invariant
            from <= i <= s.len(),
            d == s@.skip(from as int),
            all_digits(d),
            acc == digits_value(d.take(i - from)),
            acc <= limit,
            limit >= 9,
        decreases s.len() - i,
    {
        assert(d.take(i - from + 1).drop_last() == d.take(i - from));
        assert(d[i - from] == s@[i as int]);
        assert(is_digit(d[i - from]));
        let dv = (s[i] as u64) - ('0' as u64);
        assert(dv <= 9);
        let q = (limit - dv) / 10;
        assert(acc > q ==> 10 * acc + dv > limit) by (nonlinear_arith)
            requires
                q == (limit - dv) / 10,
                dv <= limit,
        ;
        assert(acc <= q ==> 10 * acc + dv <= limit) by (nonlinear_arith)
            requires
                q == (limit - dv) / 10,
                dv <= limit,
        ;
        if acc > q {
            proof {
                assert(digits_value(d.take(i - from + 1)) == 10 * acc + dv);
                lemma_digits_value_mono(d, i - from + 1, d.len() as int);
                assert(d.take(d.len() as int) == d);
            }
            return None;
        }
        acc = acc * 10 + dv;
        i += 1;
    }
    assert(d.take(d.len() as int) == d);
    Some(acc)
}

/// `u32::from_str` on characters.
pub fn parse_u32(s: &[char]) -> (r: Option<u32>)
    ensures
        r == parse_u32_spec(s@),
{
    let from: usize = if s.len() > 0 && s[0] == '+' { 1 } else { 0 };
    assert(unsigned_digits(s@) == s@.skip(from as int));
    match digits_up_to(s, from, 0xffff_ffff) {
        Some(v) => Some(v as u32),
        None => None,
    }
}

/// `u64::from_str` on characters.
pub fn parse_u64(s: &[char]) -> (r: Option<u64>)
    ensures
        r == parse_u64_spec(s@),
{
    let from: usize = if s.len() > 0 && s[0] == '+' { 1 } else { 0 };
    assert(unsigned_digits(s@) == s@.skip(from as int));
    digits_up_to(s, from, 0xffff_ffff_ffff_ffff)
}

/// `i32::from_str` on characters.
pub fn parse_i32(s: &[char]) -> (r: Option<i32>)
    ensures
        r == parse_i32_spec(s@),
{
    if s.len() > 0 && s[0] == '-' {
        match digits_up_to(s, 1, 0x8000_0000) {
            Some(v) => {
                let r = (0 - (v as i64)) as i32;
                Some(r)
            },
            None => None,
        }
    } else {
        let from: usize = if s.len() > 0 && s[0] == '+' { 1 } else { 0 };
        assert(unsigned_digits(s@) == s@.skip(from as int));
        match digits_up_to(s, from, 0x7fff_ffff) {
            Some(v) => Some(v as i32),
            None => None,
        }
    }
}

} // verus!

verus! {

/// Index of the first non-whitespace character (or the length).
pub open spec fn lead_spaces(s: Seq<char>) -> int {
    first_index_from(s.len() as int, 0, |j: int| !is_space(s[j]))
}

/// One past the last non-whitespace character (or 0).
pub open spec fn trail_end(s: Seq<char>) -> int
    decreases s.len(),
{
    if s.len() == 0 {
        0
    } else if is_space(s.last()) {
        trail_end(s.drop_last())
    } else {
        s.len() as int
    }
}

/// `s` without leading and trailing whitespace (`str::trim`).
pub open spec fn trim_spec(s: Seq<char>) -> Seq<char> {
    let a = lead_spaces(s);
    let b = trail_end(s);
    if a >= b {
        Seq::empty()
    } else {
        s.subrange(a, b)
    }
}

/// The whitespace-separated words of `s` (`str::split_whitespace`).
pub open spec fn words(s: Seq<char>) -> Seq<Seq<char>>
    decreases s.len(),
{
    if s.len() == 0 {
        Seq::empty()
    } else {
        let prev = words(s.drop_last());
        let c = s.last();
        if is_space(c) {
            prev
        } else if s.len() >= 2 && !is_space(s[s.len() - 2]) {
            prev.update(prev.len() - 1, prev.last().push(c))
        } else {
            prev.push(seq![c])
        }
    }
}

/// `l` without one trailing carriage return.
pub open spec fn strip_cr(l: Seq<char>) -> Seq<char> {
    if l.len() > 0 && l.last() == '\r' {
        l.drop_last()
    } else {
        l
    }
}

/// The lines of `s` (`str::lines`): split at `\n`, a `\r` before each `\n`
/// dropped, no empty line after a final `\n`.
pub open spec fn lines_spec(s: Seq<char>) -> Seq<Seq<char>> {
    let ps = split_on(s, '\n');
    let body = ps.drop_last().map_values(|l: Seq<char>| strip_cr(l));
    if ps.last().len() == 0 {
        body
    } else {
        body.push(ps.last())
    }
}

pub proof fn lemma_trail_end(s: Seq<char>)
    ensures
        0 <= trail_end(s) <= s.len(),
        trail_end(s) > 0 ==> !is_space(s[trail_end(s) - 1]),
        forall|j: int| trail_end(s) <= j < s.len() ==> is_space(#[trigger] s[j]),
    decreases s.len(),
{
    if s.len() > 0 && is_space(s.last()) {
        let g = s.drop_last();
        lemma_trail_end(g);
        assert forall|j: int| trail_end(s) <= j < s.len() implies is_space(#[trigger] s[j]) by {
            if j < g.len() {
                assert(g[j] == s[j]);
            }
        }
        if trail_end(s) > 0 {
            assert(g[trail_end(s) - 1] == s[trail_end(s) - 1]);
        }
    }
}

proof fn lemma_trail_end_exact(s: Seq<char>, k: int)
    requires
        0 <= k <= s.len(),
        k > 0 ==> !is_space(s[k - 1]),
        forall|j: int| k <= j < s.len() ==> is_space(#[trigger] s[j]),
    ensures
        trail_end(s) == k,
    decreases s.len(),
{
    if s.len() > k {
        let g = s.drop_last();
        assert(is_space(s[s.len() - 1]));
        assert forall|j: int| k <= j < g.len() implies is_space(#[trigger] g[j]) by {
            assert(g[j] == s[j]);
        }
        if k > 0 {
            assert(g[k - 1] == s[k - 1]);
        }
        lemma_trail_end_exact(g, k);
    }
}

/// `str::trim` on characters.
pub fn trim_chars(s: &[char]) -> (r: Vec<char>)
    ensures
        r@ == trim_spec(s@),
{
    let ghost p = |j: int| !is_space(s@[j]);
    let mut a: usize = 0;
    while a < s.len() && is_whitespace(s[a])
        invariant
            a <= s.len(),
            p == (|j: int| !is_space(s@[j])),
            forall|j: int| 0 <= j < a ==> !#[trigger] p(j),
        decreases s.len() - a,
    {
        a += 1;
    }
    proof {
        lemma_first_index_exact(s@.len() as int, 0, a as int, p);
    }
    let mut b: usize = s.len();
    while b > a && is_whitespace(s[b - 1])
        invariant
            a <= b <= s.len(),
            forall|j: int| b <= j < s.len() ==> is_space(#[trigger] s@[j]),
        decreases b,
    {
        b -= 1;
    }
    proof {
        if b > a {
            lemma_trail_end_exact(s@, b as int);
        } else {
            lemma_trail_end(s@);
            if a < s.len() {
                assert(!is_space(s@[a as int]));
            }
        }
    }
    if b <= a {
        return Vec::new();
    }
    sub_chars(s, a, b)
}

/// `str::split_whitespace` on characters.
pub fn split_whitespace_chars(s: &[char]) -> (out: Vec<Vec<char>>)
    ensures
        views(out@) == words(s@),
{
    let mut out: Vec<Vec<char>> = Vec::new();
    let mut cur: Vec<char> = Vec::new();
    let mut in_word = false;
    let mut i: usize = 0;
    while i < s.len()
        invariant
            i <= s.len(),
            in_word ==> i > 0 && !is_space(s@[i - 1]) && words(s@.take(i as int)) == views(
                out@,
            ).push(cur@),
            !in_word ==> (i == 0 || is_space(s@[i - 1])) && words(s@.take(i as int)) == views(
                out@,
            ) && cur@.len() == 0,
        decreases s.len() - i,
    {
        let c = s[i];
        let ghost t = s@.take(i as int + 1);
        assert(t.drop_last() == s@.take(i as int));
        assert(t.last() == c);
        if is_whitespace(c) {
            if in_word {
                let ghost before = out@;
                let ghost cv = cur@;
                out.push(cur);
                assert(views(out@) =~= views(before).push(cv));
                cur = Vec::new();
                in_word = false;
            }
        } else {
            let ghost before = cur@;
            cur.push(c);
            if in_word {
                assert(t[t.len() - 2] == s@[i - 1]);
                let ghost w = words(s@.take(i as int));
                assert(w == views(out@).push(before));
                assert(views(out@).push(cur@) =~= w.update(w.len() - 1, w.last().push(c)));
            } else {
                if i > 0 {
                    assert(t[t.len() - 2] == s@[i - 1]);
                }
                assert(cur@ =~= seq![c]);
            }
            in_word = true;
        }
        i += 1;
    }
    assert(s@.take(s.len() as int) == s@);
    if in_word {
        let ghost before = out@;
        let ghost cv = cur@;
        out.push(cur);
        assert(views(out@) =~= views(before).push(cv));
    }
    out
}

/// `str::lines` on characters.
pub fn lines_chars(s: &[char]) -> (out: Vec<Vec<char>>)
    ensures
        views(out@) == lines_spec(s@),
{
    let ps = split_chars(s, '\n');
    proof {
        lemma_split_on_nonempty(s@, '\n');
    }
    let ghost pv = views(ps@);
    let n = ps.len();
    let mut out: Vec<Vec<char>> = Vec::new();
    let mut i: usize = 0;
    while i + 1 < n
        invariant
            n == ps.len(),
            n >= 1,
            pv == views(ps@),
            i <= n - 1,
            views(out@) == pv.drop_last().take(i as int).map_values(|l: Seq<char>| strip_cr(l)),
        decreases n - i,
    {
        let l = &ps[i];
        assert(pv[i as int] == l@);
        let piece = if l.len() > 0 && l[l.len() - 1] == '\r' {
            sub_chars(l, 0, l.len() - 1)
        } else {
            copy_chars(l)
        };
        assert(piece@ == strip_cr(l@));
        let ghost before = out@;
        out.push(piece);
        assert(pv.drop_last().take(i as int + 1) == pv.drop_last().take(i as int).push(pv[i as int]));
        assert(views(out@) =~= views(before).push(piece@));
        assert(views(out@) =~= pv.drop_last().take(i as int + 1).map_values(|l: Seq<char>| strip_cr(l)));
        i += 1;
    }
    assert(pv.drop_last().take(n - 1) == pv.drop_last());
    let last = &ps[n - 1];
    assert(pv.last() == last@);
    if last.len() > 0 {
        let ghost before = out@;
        out.push(copy_chars(last));
        assert(views(out@) =~= views(before).push(last@));
    }
    out
}

} // verus!

verus! {

/// The digit character for a value below 10.
pub open spec fn digit_char(d: nat) -> char {
    ((d + ('0' as nat)) as u32) as char
}

/// The decimal representation of `n` (as `u64::to_string` writes it).
pub open spec fn decimal(n: nat) -> Seq<char>
    decreases n,
{
    if n < 10 {
        seq![digit_char(n)]
    } else {
        decimal(n / 10).push(digit_char(n % 10))
    }
}

/// The decimal representation of a `u64`.
pub fn u64_to_decimal(n: u64) -> (s: String)
    ensures
        s@ == decimal(n as nat),
{
    let mut rev: Vec<char> = Vec::new();
    let mut m: u64 = n;
    loop
        invariant_except_break
            decimal(n as nat) == decimal(m as nat) + rev@.reverse(),
        ensures
            decimal(n as nat) == rev@.reverse(),
        decreases m,
    {
        let d = (m % 10) as u32;
        let c = char_from_digit(d);
        if m < 10 {
            assert(decimal(m as nat) == seq![c]);
            let ghost old_rev = rev@;
            rev.push(c);
            assert(rev@.reverse() =~= seq![c] + old_rev.reverse());
            break;
        }
        assert(decimal(m as nat) == decimal((m / 10) as nat).push(c));
        let ghost old_rev = rev@;
        rev.push(c);
        assert(rev@.reverse() =~= seq![c] + old_rev.reverse());
        assert(decimal((m / 10) as nat).push(c) + old_rev.reverse() =~= decimal((m / 10) as nat)
            + rev@.reverse());
        m = m / 10;
    }
    assert(decimal(n as nat) =~= rev@.reverse());
    let mut out: Vec<char> = Vec::new();
    let mut i: usize = rev.len();
    while i > 0
        invariant
            i <= rev.len(),
            out@ == rev@.reverse().take(rev.len() - i),
        decreases i,
    {
        out.push(rev[i - 1]);
        assert(rev@.reverse().take(rev.len() - i + 1) =~= rev@.reverse().take(rev.len() - i).push(
            rev@[i - 1],
        ));
        i -= 1;
    }
    assert(rev@.reverse().take(rev.len() as int) == rev@.reverse());
    string_of(&out)
}

/// The character for a digit value.
pub fn char_from_digit(d: u32) -> (c: char)
    requires
        d < 10,
    ensures
        c == digit_char(d as nat),
{
    match d {
        0 => '0',
        1 => '1',
        2 => '2',
        3 => '3',
        4 => '4',
        5 => '5',
        6 => '6',
        7 => '7',
        8 => '8',
        _ => '9',
    }
}

} // verus!

verus! {

/// `s` with every non-overlapping occurrence of `pat` (scanning left to
/// right) replaced by `rep` (`str::replace`); an empty `pat` matches before
/// every character and at the end.
pub open spec fn replace_all(s: Seq<char>, pat: Seq<char>, rep: Seq<char>) -> Seq<char>
    decreases s.len(),
{
    if pat.len() == 0 {
        if s.len() == 0 {
            rep
        } else {
            rep + seq![s[0]] + replace_all(s.skip(1), pat, rep)
        }
    } else if s.len() < pat.len() {
        s
    } else if s.take(pat.len() as int) == pat {
        rep + replace_all(s.skip(pat.len() as int), pat, rep)
    } else {
        seq![s[0]] + replace_all(s.skip(1), pat, rep)
    }
}

fn push_chars(dst: &mut Vec<char>, src: &[char])
    ensures
        final(dst)@ == old(dst)@ + src@,
{
    let ghost start = dst@;
    let mut i: usize = 0;
    while i < src.len()
        invariant
            i <= src.len(),
            dst@ == start + src@.take(i as int),
        decreases src.len() - i,
    {
        dst.push(src[i]);
        assert(start + src@.take(i as int + 1) =~= (start + src@.take(i as int)).push(src@[i as int]));
        i += 1;
    }
    assert(src@.take(src.len() as int) == src@);
}

pub fn matches_at(s: &[char], i: usize, pat: &[char]) -> (b: bool)
    requires
        i <= s.len(),
    ensures
        b == (s.len() - i >= pat.len() && s@.skip(i as int).take(pat.len() as int) == pat@),
{
    if s.len() - i < pat.len() {
        return false;
    }
    let mut k: usize = 0;
    while k < pat.len()
        invariant
            s.len() - i >= pat.len(),
            k <= pat.len(),
            forall|j: int| 0 <= j < k ==> s@[i + j] == pat@[j],
        decreases pat.len() - k,
    {
        if s[i + k] != pat[k] {
            assert(s@.skip(i as int).take(pat.len() as int)[k as int] != pat@[k as int]);
            return false;
        }
        k += 1;
    }
    assert(s@.skip(i as int).take(pat.len() as int) =~= pat@);
    true
}

/// `str::replace` on characters.
pub fn replace_all_chars(s: &[char], pat: &[char], rep: &[char]) -> (r: Vec<char>)
    ensures
        r@ == replace_all(s@, pat@, rep@),
{
    let mut out: Vec<char> = Vec::new();
    let mut i: usize = 0;
    assert(s@.skip(0) == s@);
    while i < s.len()
        invariant
            i <= s.len(),
            out@ + replace_all(s@.skip(i as int), pat@, rep@) == replace_all(s@, pat@, rep@),
        decreases s.len() - i,
    {
        let ghost rest = s@.skip(i as int);
        if pat.len() == 0 {
            push_chars(&mut out, rep);
            out.push(s[i]);
            assert(rest.skip(1) == s@.skip(i as int + 1));
            assert(rest[0] == s@[i as int]);
            assert(out@ + replace_all(s@.skip(i as int + 1), pat@, rep@) =~= (out@.drop_last().subrange(0, out@.len() - 1 - rep@.len() as int)) + replace_all(rest, pat@, rep@)) by {
                assert(out@.drop_last().subrange(0, out@.len() - 1 - rep@.len() as int) + rep@ + seq![s@[i as int]] =~= out@);
            }
            i += 1;
        } else if matches_at(s, i, pat) {
            let ghost before = out@;
            push_chars(&mut out, rep);
            assert(rest.take(pat@.len() as int) == pat@);
            assert(rest.skip(pat@.len() as int) == s@.skip(i as int + pat@.len()));
            assert(out@ + replace_all(s@.skip(i as int + pat@.len()), pat@, rep@) =~= before
                + replace_all(rest, pat@, rep@));
            i += pat.len();
        } else {
            let ghost before = out@;
            out.push(s[i]);
            assert(rest.skip(1) == s@.skip(i as int + 1));
            assert(rest[0] == s@[i as int]);
            assert(out@ + replace_all(s@.skip(i as int + 1), pat@, rep@) =~= before + replace_all(
                rest,
                pat@,
                rep@,
            ));
            i += 1;
        }
    }
    assert(s@.skip(s.len() as int) =~= Seq::<char>::empty());
    if pat.len() == 0 {
        push_chars(&mut out, rep);
    }
    assert(out@ =~= replace_all(s@, pat@, rep@));
    out
}


/// `p` occurs in `s` (`str::contains` with a string pattern).
pub open spec fn has_infix(s: Seq<char>, p: Seq<char>) -> bool {
    exists|i: int| 0 <= i && i + p.len() <= s.len() && #[trigger] s.subrange(i, i + p.len()) == p
}

/// Whether `p` occurs in `s`.
pub fn contains_chars(s: &[char], p: &[char]) -> (b: bool)
    ensures
        b == has_infix(s@, p@),
{
    if p.len() > s.len() {
        return false;
    }
    if p.len() == 0 {
        assert(s@.subrange(0int, 0int + p@.len()) =~= p@);
        return true;
    }
    let mut i: usize = 0;
    while i <= s.len() - p.len()
        invariant
            1 <= p.len() <= s.len(),
            i <= s.len() - p.len() + 1,
            forall|j: int| 0 <= j < i ==> #[trigger] s@.subrange(j, j + p@.len()) != p@,
        decreases s.len() - i,
    {
        if matches_at(s, i, p) {
            assert(s@.skip(i as int).take(p.len() as int) =~= s@.subrange(i as int, i + p.len()));
            return true;
        }
        assert(s@.skip(i as int).take(p.len() as int) =~= s@.subrange(i as int, i + p.len()));
        i += 1;
    }
    false
}

} // verus!
