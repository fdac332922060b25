//! The node search of the canvas: which parts match the typed text, ignoring case.
use crate::canvas::ModuleCanvas;
use crate::graph::ModulePart;
use crate::property::{property_text, property_texts, PartDetails};
use crate::style::{get_part_style, part_style};
use vstd::prelude::*;

verus! {

/// The lowercase form of a text, as `str::to_lowercase` computes it.
pub uninterp spec fn lowercase(s: Seq<char>) -> Seq<char>;

/// Calls `str::to_lowercase`, whose result is a function of the text alone
/// (the lowercase mapping of the Unicode standard); the contract names that
/// result and says nothing else of it.
#[verifier::external_body]
pub(crate) fn to_lowercase(s: &str) -> (r: String)
    ensures
        r@ == lowercase(s@),
{
    s.to_lowercase()
}

/// `needle` occurs in `hay` as a run of consecutive characters.
pub open spec fn is_infix(needle: Seq<char>, hay: Seq<char>) -> bool {
    exists|i: int| 0 <= i && i + needle.len() <= hay.len() && #[trigger] hay.subrange(i, i + needle.len()) == needle
}

/// The characters of a text.
pub(crate) fn chars_of(s: &str) -> (r: Vec<char>)
    ensures
        r@ == s@,
{
    let n = s.unicode_len();
    let mut r: Vec<char> = Vec::new();
    let mut i: usize = 0;
    while i < n
        invariant
            n == s@.len(),
            i <= n,
            r@ == s@.take(i as int),
        decreases n - i,
    {
        let c = s.get_char(i);
        r.push(c);
        i = i + 1;
        assert(r@ =~= s@.take(i as int));
    }
    assert(s@.take(n as int) =~= s@);
    r
}

/// Whether `needle` occurs at position `at` of `hay`.
fn occurs_at(hay: &Vec<char>, needle: &Vec<char>, at: usize) -> (r: bool)
    requires
        at + needle@.len() <= hay@.len(),
    ensures
        r == (hay@.subrange(at as int, at + needle@.len()) == needle@),
{
    let hl = hay.len();
    let mut j: usize = 0;
    while j < needle.len()
        invariant
            hl == hay@.len(),
            at + needle@.len() <= hay@.len(),
            j <= needle@.len(),
            forall|k: int| 0 <= k < j ==> hay@[at + k] == needle@[k],
        decreases needle@.len() - j,
    {
        if hay[at + j] != needle[j] {
            assert(hay@.subrange(at as int, at + needle@.len())[j as int] != needle@[j as int]);
            return false;
        }
        j = j + 1;
    }
    assert(hay@.subrange(at as int, at + needle@.len()) =~= needle@);
    true
}

/// Whether `needle` occurs in `hay`.
pub fn contains_text(hay: &str, needle: &str) -> (r: bool)
    ensures
        r == is_infix(needle@, hay@),
{
    let h = chars_of(hay);
    let n = chars_of(needle);
    if n.len() > h.len() {
        return false;
    }
    let last = h.len() - n.len();
    let mut i: usize = 0;
    while i < last
        invariant
            h@ == hay@,
            n@ == needle@,
            last + n@.len() == h@.len(),
            i <= last,
            forall|k: int| 0 <= k < i ==> #[trigger] hay@.subrange(k, k + needle@.len()) != needle@,
        decreases last - i,
    {
        if occurs_at(&h, &n, i) {
            return true;
        }
        i = i + 1;
    }
    occurs_at(&h, &n, last)
}

/// A part with property text `text` and type name `kind_label` is found by
/// the lowercased search text `f`: `f` is empty, or occurs in the lowercased
/// property text or type name.
pub open spec fn search_matches(f: Seq<char>, text: Seq<char>, kind_label: Seq<char>) -> bool {
    f.len() == 0 || is_infix(f, lowercase(text)) || is_infix(f, lowercase(kind_label))
}

/// The indices, in order, of the first `n` parts that the lowercased search
/// text `f` finds; `texts[i]` is the property text of part `i`.
pub open spec fn search_hits<P>(
    f: Seq<char>,
    parts: Seq<ModulePart<P>>,
    texts: Seq<String>,
    n: int,
) -> Seq<usize>
    decreases n,
{
    if n <= 0 {
        Seq::empty()
    } else {
        let rest = search_hits(f, parts, texts, n - 1);
        if search_matches(f, texts[n - 1]@, part_style(parts[n - 1].kind).name@) {
            rest.push((n - 1) as usize)
        } else {
            rest
        }
    }
}

/// At most the first `k` elements of `s`.
pub open spec fn at_most<A>(s: Seq<A>, k: int) -> Seq<A> {
    if s.len() <= k {
        s
    } else {
        s.take(k)
    }
}

/// A part whose lowercased property text is `text` and lowercased type name
/// is `label` is found by the lowercased search text `f`.
pub open spec fn lowered_matches(f: Seq<char>, text: Seq<char>, label: Seq<char>) -> bool {
    f.len() == 0 || is_infix(f, text) || is_infix(f, label)
}

/// The indices, in order, of the first `n` parts that the lowercased search
/// text `f` finds; `texts[i]` and `labels[i]` are the lowercased property
/// text and type name of part `i`.
pub open spec fn lowered_hits(f: Seq<char>, texts: Seq<String>, labels: Seq<String>, n: int) -> Seq<
    usize,
>
    decreases n,
{
    if n <= 0 {
        Seq::empty()
    } else {
        let rest = lowered_hits(f, texts, labels, n - 1);
        if lowered_matches(f, texts[n - 1]@, labels[n - 1]@) {
            rest.push((n - 1) as usize)
        } else {
            rest
        }
    }
}

/// The parts that the lowercased search text `filter_lower` finds, the
/// first six in part order; `texts_lower[i]` and `labels_lower[i]` are the
/// lowercased property text and type name of part `i`.
pub fn find_lowered_matches(
    filter_lower: &str,
    texts_lower: &Vec<String>,
    labels_lower: &Vec<String>,
) -> (r: Vec<usize>)
    requires
        texts_lower@.len() == labels_lower@.len(),
    ensures
        r@ == at_most(
            lowered_hits(filter_lower@, texts_lower@, labels_lower@, texts_lower@.len() as int),
            6,
        ),
{
    let mut r: Vec<usize> = Vec::new();
    let mut i: usize = 0;
    while i < texts_lower.len()
        invariant
            texts_lower@.len() == labels_lower@.len(),
            i <= texts_lower@.len(),
            r@ == at_most(lowered_hits(filter_lower@, texts_lower@, labels_lower@, i as int), 6),
        decreases texts_lower@.len() - i,
    {
        let ghost before = lowered_hits(filter_lower@, texts_lower@, labels_lower@, i as int);
        let found = filter_lower.is_empty() || contains_text(texts_lower[i].as_str(), filter_lower)
            || contains_text(labels_lower[i].as_str(), filter_lower);
        if found && r.len() < 6 {
            r.push(i);
        }
        proof {
            let after = lowered_hits(filter_lower@, texts_lower@, labels_lower@, i + 1);
            if found {
                assert(after == before.push(i as usize));
                if before.len() < 6 {
                    assert(r@ =~= after);
                } else {
                    assert(after.take(6) =~= before.take(6));
                }
            }
        }
        i = i + 1;
    }
    r
}

/// The search over lowercased texts and names finds what the search over
/// the texts and type names finds.
proof fn lemma_lowered_hits_agree<P>(
    f: Seq<char>,
    parts: Seq<ModulePart<P>>,
    texts: Seq<String>,
    texts_lower: Seq<String>,
    labels_lower: Seq<String>,
    n: int,
)
    requires
        n <= texts_lower.len(),
        n <= labels_lower.len(),
        forall|k: int| 0 <= k < n ==> (#[trigger] texts_lower[k])@ == lowercase(texts[k]@),
        forall|k: int|
            0 <= k < n ==> (#[trigger] labels_lower[k])@ == lowercase(part_style(parts[k].kind).name@),
    ensures
        lowered_hits(f, texts_lower, labels_lower, n) == search_hits(f, parts, texts, n),
    decreases n,
{
    if n > 0 {
        lemma_lowered_hits_agree(f, parts, texts, texts_lower, labels_lower, n - 1);
        assert(texts_lower[n - 1]@ == lowercase(texts[n - 1]@));
        assert(labels_lower[n - 1]@ == lowercase(part_style(parts[n - 1].kind).name@));
    }
}

/// The parts that the search popup lists for the typed text `filter`: the
/// first six, in part order, that it finds ignoring case; `texts[i]` is the
/// property text of part `i`.
pub fn search_parts<P>(filter: &str, parts: &Vec<ModulePart<P>>, texts: &Vec<String>) -> (r: Vec<
    usize,
>)
    requires
        texts@.len() == parts@.len(),
    ensures
        r@ == at_most(search_hits(lowercase(filter@), parts@, texts@, parts@.len() as int), 6),
{
    let f = to_lowercase(filter);
    let mut texts_lower: Vec<String> = Vec::new();
    let mut labels_lower: Vec<String> = Vec::new();
    let mut i: usize = 0;
    while i < parts.len()
        invariant
            texts@.len() == parts@.len(),
            i <= parts@.len(),
            texts_lower@.len() == i,
            labels_lower@.len() == i,
            forall|k: int| 0 <= k < i ==> (#[trigger] texts_lower@[k])@ == lowercase(texts@[k]@),
            forall|k: int|
                0 <= k < i ==> (#[trigger] labels_lower@[k])@ == lowercase(
                    part_style(parts@[k].kind).name@,
                ),
        decreases parts@.len() - i,
    {
        texts_lower.push(to_lowercase(texts[i].as_str()));
        let style = get_part_style(&parts[i].kind);
        labels_lower.push(to_lowercase(style.name));
        i = i + 1;
    }
    proof {
        lemma_lowered_hits_agree(
            f@,
            parts@,
            texts@,
            texts_lower@,
            labels_lower@,
            parts@.len() as int,
        );
    }
    find_lowered_matches(f.as_str(), &texts_lower, &labels_lower)
}

/// The indices, in order, of the first `n` parts that the lowercased search
/// text `f` finds by their property lines; `details[i]` holds the settings
/// of part `i`.
pub open spec fn detail_hits<P>(
    f: Seq<char>,
    parts: Seq<ModulePart<P>>,
    details: Seq<PartDetails>,
    n: int,
) -> Seq<usize>
    decreases n,
{
    if n <= 0 {
        Seq::empty()
    } else {
        let rest = detail_hits(f, parts, details, n - 1);
        if search_matches(
            f,
            property_text(parts[n - 1].kind, details[n - 1]),
            part_style(parts[n - 1].kind).name@,
        ) {
            rest.push((n - 1) as usize)
        } else {
            rest
        }
    }
}

/// Searching by given texts is searching by the property lines, when each
/// text is the property line of its part.
proof fn lemma_detail_hits<P>(
    f: Seq<char>,
    parts: Seq<ModulePart<P>>,
    details: Seq<PartDetails>,
    texts: Seq<String>,
    n: int,
)
    requires
        n <= texts.len(),
        forall|k: int| 0 <= k < n ==> (#[trigger] texts[k])@ == property_text(
            parts[k].kind,
            details[k],
        ),
    ensures
        search_hits(f, parts, texts, n) == detail_hits(f, parts, details, n),
    decreases n,
{
    if n > 0 {
        lemma_detail_hits(f, parts, details, texts, n - 1);
        assert(texts[n - 1]@ == property_text(parts[n - 1].kind, details[n - 1]));
    }
}

/// The parts that the search popup lists for the typed text `filter`: the
/// first six, in part order, whose property line or type name holds it,
/// ignoring case; `details[i]` holds the settings of part `i`.
pub fn search_parts_by_details<P>(
    filter: &str,
    parts: &Vec<ModulePart<P>>,
    details: &Vec<PartDetails>,
) -> (r: Vec<usize>)
    requires
        details@.len() == parts@.len(),
    ensures
        r@ == at_most(
            detail_hits(lowercase(filter@), parts@, details@, parts@.len() as int),
            6,
        ),
{
    let texts = property_texts(parts, details);
    proof {
        lemma_detail_hits(lowercase(filter@), parts@, details@, texts@, parts@.len() as int);
    }
    search_parts(filter, parts, &texts)
}

impl<P: Copy, S, T> ModuleCanvas<P, S, T> {
    /// Picking part `id` in the search popup selects it alone and closes the popup.
    pub fn pick_search_result(&mut self, id: u64)
        ensures
            final(self).selected_parts@ == seq![id],
            *final(self) == (ModuleCanvas {
                selected_parts: final(self).selected_parts,
                show_search: false,
                ..*old(self)
            }),
    {
        self.select_only(id);
        self.show_search = false;
    }
}

/// The parts that the search finds are listed in part order, each once.
proof fn lemma_search_hits_increasing<P>(
    f: Seq<char>,
    parts: Seq<ModulePart<P>>,
    texts: Seq<String>,
    n: int,
)
    requires
        n <= usize::MAX,
    ensures
        forall|a: int, b: int|
            0 <= a < b < search_hits(f, parts, texts, n).len() ==> #[trigger] search_hits(
                f,
                parts,
                texts,
                n,
            )[a] < #[trigger] search_hits(f, parts, texts, n)[b],
        forall|a: int|
            0 <= a < search_hits(f, parts, texts, n).len() ==> #[trigger] search_hits(
                f,
                parts,
                texts,
                n,
            )[a] < n,
    decreases n,
{
    if n > 0 {
        lemma_search_hits_increasing(f, parts, texts, n - 1);
        let rest = search_hits(f, parts, texts, n - 1);
        let cur = search_hits(f, parts, texts, n);
        if cur != rest {
            assert(cur == rest.push((n - 1) as usize));
            assert forall|a: int| 0 <= a < cur.len() implies cur[a] < n by {
                if a < rest.len() {
                    assert(cur[a] == rest[a]);
                }
            }
            assert forall|a: int, b: int| 0 <= a < b < cur.len() implies #[trigger] cur[a]
                < #[trigger] cur[b] by {
                assert(cur[a] == rest[a]);
                if b < rest.len() {
                    assert(cur[b] == rest[b]);
                }
            }
        }
    }
}

/// Every part that the search lists is one that the text finds.
proof fn lemma_search_hits_match<P>(
    f: Seq<char>,
    parts: Seq<ModulePart<P>>,
    texts: Seq<String>,
    n: int,
)
    requires
        n <= usize::MAX,
    ensures
        forall|a: int|
            0 <= a < search_hits(f, parts, texts, n).len() ==> search_matches(
                f,
                texts[#[trigger] search_hits(f, parts, texts, n)[a] as int]@,
                part_style(parts[search_hits(f, parts, texts, n)[a] as int].kind).name@,
            ),
    decreases n,
{
    if n > 0 {
        lemma_search_hits_match(f, parts, texts, n - 1);
        let rest = search_hits(f, parts, texts, n - 1);
        let cur = search_hits(f, parts, texts, n);
        if cur != rest {
            assert(cur == rest.push((n - 1) as usize));
            assert forall|a: int| 0 <= a < cur.len() implies search_matches(
                f,
                texts[#[trigger] cur[a] as int]@,
                part_style(parts[cur[a] as int].kind).name@,
            ) by {
                if a < rest.len() {
                    assert(cur[a] == rest[a]);
                }
            }
        }
    }
}

/// The search popup lists at most six parts, in part order, each once, and
/// each one a part that the text finds.
pub proof fn lemma_search_lists_found_parts_in_order<P>(
    f: Seq<char>,
    parts: Seq<ModulePart<P>>,
    texts: Seq<String>,
)
    requires
        parts.len() <= usize::MAX,
    ensures
        ({
            let r = at_most(search_hits(f, parts, texts, parts.len() as int), 6);
            &&& r.len() <= 6
            &&& forall|a: int, b: int| 0 <= a < b < r.len() ==> #[trigger] r[a] < #[trigger] r[b]
            &&& forall|a: int|
                0 <= a < r.len() ==> #[trigger] r[a] < parts.len() && search_matches(
                    f,
                    texts[r[a] as int]@,
                    part_style(parts[r[a] as int].kind).name@,
                )
        }),
{
    let n = parts.len() as int;
    let h = search_hits(f, parts, texts, n);
    lemma_search_hits_increasing(f, parts, texts, n);
    lemma_search_hits_match(f, parts, texts, n);
    let r = at_most(h, 6);
    assert forall|a: int| 0 <= a < r.len() implies #[trigger] r[a] == h[a] by {}
}

} // verus!
