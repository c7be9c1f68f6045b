//! Search ranking: fuzzy relevance from `nucleo-matcher` combined with exact
//! name, prefix and alias bonuses and the user's pins, favorites and usage.

use vstd::prelude::*;
use nucleo_matcher::pattern::{Atom, AtomKind, CaseMatching, Normalization};
use crate::protocol::{strings_view, views_of, CatalogItem, CatalogItemView};
use crate::sorting::{lemma_insert_stable_at, lemma_sort_stable_permutes_mapped, lemma_take_sub_multiset, sort_stable};
use crate::text::{
    binary_before, binary_less, eq_ignore_ascii_case, has_prefix, nocase_eq, starts_with, to_lowercase,
    is_blank, lemma_trim_empty_iff_blank, trim, trim_string, unicode_lowercase,
};

verus! {

/// The score that `nucleo-matcher` gives a lowercase fuzzy, case-ignoring,
/// smart-normalizing pattern `needle` on `haystack` (`None` when it does not
/// match).  Its algorithm takes pages to state, so it is named, not stated.
pub uninterp spec fn fuzzy_match_score(needle: Seq<char>, haystack: Seq<char>) -> Option<u16>;

#[verifier::external_type_specification]
#[verifier::external_body]
pub struct ExMatcher(nucleo_matcher::Matcher);

/// `nucleo_matcher::Matcher::new(Config::DEFAULT)`: scratch space for
/// matching.  Matchers of this library are only made here, all with the
/// default configuration.
#[verifier::external_body]
fn new_matcher() -> (matcher: nucleo_matcher::Matcher) {
    nucleo_matcher::Matcher::new(nucleo_matcher::Config::DEFAULT)
}

/// `nucleo_matcher::pattern::Atom::score` for a fuzzy atom built from `needle`
/// with `CaseMatching::Ignore` and `Normalization::Smart`, on `haystack`.
/// The score depends on the needle and haystack alone: `score` overwrites the
/// matcher's case and normalization settings, and every matcher reaching this
/// private function has the default configuration.  `fuzzy_match` asserts
/// that the haystack has at most `u32::MAX` grapheme clusters, which holds
/// when it has at most that many characters.
#[verifier::external_body]
fn fuzzy_score(matcher: &mut nucleo_matcher::Matcher, needle: &str, haystack: &str) -> (score: Option<u16>)
    requires
        haystack@.len() <= u32::MAX,
    ensures
        score == fuzzy_match_score(needle@, haystack@),
{
    let atom = Atom::new(needle, CaseMatching::Ignore, Normalization::Smart, AtomKind::Fuzzy, false);
    let mut buffer = Vec::new();
    atom.score(nucleo_matcher::Utf32Str::new(haystack, &mut buffer), matcher)
}

/// The query as ranking reads it: trimmed, then lowercased.
pub open spec fn normalized_query(query: Seq<char>) -> Seq<char> {
    unicode_lowercase(trim(query))
}

/// The lowercase forms of several strings.
pub open spec fn lowercase_all(strings: Seq<Seq<char>>) -> Seq<Seq<char>> {
    strings.map_values(|s: Seq<char>| unicode_lowercase(s))
}

/// The texts a query is matched against: the name, then every alias,
/// category and tag, all lowercased.
pub open spec fn search_candidates(item: CatalogItemView) -> Seq<Seq<char>> {
    seq![unicode_lowercase(item.name)] + lowercase_all(item.aliases) + lowercase_all(item.categories)
        + lowercase_all(item.tags)
}

/// Whether every text of every item is short enough for the matcher.
pub open spec fn candidates_fit(items: Seq<CatalogItemView>) -> bool {
    forall|i: int| 0 <= i < items.len() ==> texts_fit(#[trigger] search_candidates(items[i]))
}

/// Whether each text has at most `u32::MAX` characters.
pub open spec fn texts_fit(texts: Seq<Seq<char>>) -> bool {
    forall|k: int| 0 <= k < texts.len() ==> (#[trigger] texts[k]).len() <= u32::MAX
}

/// The larger of two optional scores, `None` only when both are.
pub open spec fn max_score(a: Option<u16>, b: Option<u16>) -> Option<u16> {
    match (a, b) {
        (None, _) => b,
        (_, None) => a,
        (Some(x), Some(y)) => Some(if x >= y { x } else { y }),
    }
}

/// The best fuzzy score of `needle` over `candidates`, `None` when none matches.
pub open spec fn best_fuzzy(needle: Seq<char>, candidates: Seq<Seq<char>>) -> Option<u16>
    decreases candidates.len(),
{
    if candidates.len() == 0 {
        None
    } else {
        max_score(best_fuzzy(needle, candidates.drop_last()), fuzzy_match_score(needle, candidates.last()))
    }
}

/// Whether some alias equals the query up to ASCII case.
pub open spec fn has_exact_alias(aliases: Seq<Seq<char>>, query: Seq<char>) -> bool {
    exists|i: int| 0 <= i < aliases.len() && nocase_eq(#[trigger] aliases[i], query)
}

/// The bonus that 0/1 flag `b` is worth at `weight`.
pub open spec fn bonus(b: bool, weight: int) -> int {
    if b { weight } else { 0 }
}

/// The ranking score of a matching item whose lowercase name is `name`:
/// fuzzy relevance plus 5000 for an exact name, 1500 for a name prefix,
/// 3000 for an exact alias, 1000 when pinned, 500 when a favorite and 4 per
/// use up to 250 uses.
pub open spec fn relevance_of(query: Seq<char>, item: CatalogItemView, name: Seq<char>, fuzzy: u16) -> int {
    fuzzy + bonus(name == query, 5000) + bonus(has_prefix(name, query), 1500) + bonus(
        has_exact_alias(item.aliases, query),
        3000,
    ) + bonus(item.pinned, 1000) + bonus(item.favorite, 500) + 4 * (if item.usage_count > 250 {
        250
    } else {
        item.usage_count as int
    })
}

/// The ranking score of a matching item.
pub open spec fn relevance(query: Seq<char>, item: CatalogItemView, fuzzy: u16) -> int {
    relevance_of(query, item, unicode_lowercase(item.name), fuzzy)
}

/// A matching item with its score and lowercase name, the sort key.
pub struct ScoredView {
    pub score: int,
    pub name: Seq<char>,
    pub item: CatalogItemView,
}

/// The scored entry of an item, or `None` when no candidate matches.
pub open spec fn scored_entry(query: Seq<char>, item: CatalogItemView) -> Option<ScoredView> {
    match best_fuzzy(query, search_candidates(item)) {
        Some(fuzzy) => Some(
            ScoredView { score: relevance(query, item, fuzzy), name: unicode_lowercase(item.name), item },
        ),
        None => None,
    }
}

/// The scored entries of the matching items, in input order.
pub open spec fn scored_entries(query: Seq<char>, items: Seq<CatalogItemView>) -> Seq<ScoredView>
    decreases items.len(),
{
    if items.len() == 0 {
        Seq::empty()
    } else {
        let earlier = scored_entries(query, items.drop_last());
        match scored_entry(query, items.last()) {
            Some(e) => earlier.push(e),
            None => earlier,
        }
    }
}

/// Higher score first; equal scores by lowercase name.
pub open spec fn scored_before(a: ScoredView, b: ScoredView) -> bool {
    a.score > b.score || (a.score == b.score && binary_less(a.name, b.name))
}

/// The order of an empty query: pinned first, then favorites, then the most used.
pub open spec fn preference_before(a: CatalogItemView, b: CatalogItemView) -> bool {
    (a.pinned && !b.pinned) || (a.pinned == b.pinned && ((a.favorite && !b.favorite) || (a.favorite
        == b.favorite && a.usage_count > b.usage_count)))
}

/// The preference order as a relation.
pub open spec fn by_preference() -> spec_fn(CatalogItemView, CatalogItemView) -> bool {
    |a: CatalogItemView, b: CatalogItemView| preference_before(a, b)
}

/// The score order as a relation.
pub open spec fn by_score() -> spec_fn(ScoredView, ScoredView) -> bool {
    |a: ScoredView, b: ScoredView| scored_before(a, b)
}

/// The first `limit` elements of `s` (all of them when there are fewer).
pub open spec fn first_n<T>(s: Seq<T>, limit: usize) -> Seq<T> {
    if limit < s.len() {
        s.take(limit as int)
    } else {
        s
    }
}

/// The ranked results of a search.  An empty (normalized) query lists the
/// items by preference; otherwise the matching items are listed by score,
/// then lowercase name, ties in input order.  At most `limit` are kept.
pub open spec fn ranked(query: Seq<char>, items: Seq<CatalogItemView>, limit: usize) -> Seq<CatalogItemView> {
    let q = normalized_query(query);
    if q.len() == 0 {
        first_n(sort_stable(items, by_preference()), limit)
    } else {
        first_n(
            sort_stable(scored_entries(q, items), by_score()),
            limit,
        ).map_values(|e: ScoredView| e.item)
    }
}

/// The scored entries of the matching items, in input order, given each
/// item's best fuzzy score (`None`: no match) and lowercase name.
pub open spec fn scored_with(
    query: Seq<char>,
    items: Seq<CatalogItemView>,
    fuzzy: Seq<Option<u16>>,
    names: Seq<Seq<char>>,
) -> Seq<ScoredView>
    decreases items.len(),
{
    if items.len() == 0 {
        Seq::empty()
    } else {
        let earlier = scored_with(query, items.drop_last(), fuzzy.take(items.len() - 1), names.take(items.len() - 1));
        match fuzzy[items.len() - 1] {
            Some(f) => earlier.push(
                ScoredView {
                    score: relevance_of(query, items.last(), names[items.len() - 1], f),
                    name: names[items.len() - 1],
                    item: items.last(),
                },
            ),
            None => earlier,
        }
    }
}

/// The ranked results for the normalized query `query`, given each item's
/// best fuzzy score and lowercase name.
pub open spec fn ranked_with(
    query: Seq<char>,
    items: Seq<CatalogItemView>,
    fuzzy: Seq<Option<u16>>,
    names: Seq<Seq<char>>,
    limit: usize,
) -> Seq<CatalogItemView> {
    if query.len() == 0 {
        first_n(sort_stable(items, by_preference()), limit)
    } else {
        first_n(sort_stable(scored_with(query, items, fuzzy, names), by_score()), limit).map_values(
            |e: ScoredView| e.item,
        )
    }
}

/// Each item's best fuzzy score for `query`.
pub open spec fn best_scores(query: Seq<char>, items: Seq<CatalogItemView>) -> Seq<Option<u16>> {
    items.map_values(|item: CatalogItemView| best_fuzzy(query, search_candidates(item)))
}

/// Each item's lowercase name.
pub open spec fn lowercase_names(items: Seq<CatalogItemView>) -> Seq<Seq<char>> {
    items.map_values(|item: CatalogItemView| unicode_lowercase(item.name))
}

/// Scoring with the matcher's scores and the lowercase names is scoring.
proof fn lemma_scored_with_matcher(query: Seq<char>, items: Seq<CatalogItemView>)
    ensures
        scored_with(query, items, best_scores(query, items), lowercase_names(items)) == scored_entries(
            query,
            items,
        ),
    decreases items.len(),
{
    if items.len() > 0 {
        let rest = items.drop_last();
        lemma_scored_with_matcher(query, rest);
        assert(best_scores(query, items).take(items.len() - 1) =~= best_scores(query, rest));
        assert(lowercase_names(items).take(items.len() - 1) =~= lowercase_names(rest));
    }
}

/// Ranking is ranking with the matcher's scores and the lowercase names.
pub proof fn lemma_ranked_with_matcher(query: Seq<char>, items: Seq<CatalogItemView>, limit: usize)
    ensures
        ranked(query, items, limit) == ranked_with(
            normalized_query(query),
            items,
            best_scores(normalized_query(query), items),
            lowercase_names(items),
            limit,
        ),
{
    lemma_scored_with_matcher(normalized_query(query), items);
}

/// An item together with the values it is sorted by.
struct Scored {
    score: u64,
    name: String,
    item: CatalogItem,
}

impl View for Scored {
    type V = ScoredView;

    closed spec fn view(&self) -> ScoredView {
        ScoredView { score: self.score as int, name: self.name@, item: self.item@ }
    }
}

/// Viewing commutes with inserting into a vector's contents.
proof fn lemma_views_of_insert<T: View>(values: Seq<T>, j: int, value: T)
    requires
        0 <= j <= values.len(),
    ensures
        views_of(values.insert(j, value)) == views_of(values).insert(j, value@),
{
    assert(views_of(values.insert(j, value)) =~= views_of(values).insert(j, value@));
}

fn goes_before_by_preference(a: &CatalogItem, b: &CatalogItem) -> (before: bool)
    ensures
        before == preference_before(a@, b@),
{
    (a.pinned && !b.pinned) || (a.pinned == b.pinned && ((a.favorite && !b.favorite) || (a.favorite
        == b.favorite && a.usage_count > b.usage_count)))
}

fn sort_by_preference(items: &Vec<CatalogItem>) -> (sorted: Vec<CatalogItem>)
    ensures
        views_of(sorted@) == sort_stable(views_of(items@), by_preference()),
{
    let ghost before = by_preference();
    let mut sorted: Vec<CatalogItem> = Vec::new();
    for i in 0..items.len()
        invariant
            before == by_preference(),
            views_of(sorted@) == sort_stable(views_of(items@.take(i as int)), before),
    {
        let x = items[i].duplicate();
        let mut j = sorted.len();
        while j > 0 && goes_before_by_preference(&x, &sorted[j - 1])
            invariant
                j <= sorted@.len(),
                forall|k: int| j <= k < sorted@.len() ==> preference_before(x@, #[trigger] sorted@[k]@),
            decreases j,
        {
            j -= 1;
        }
        proof {
            let vs = views_of(sorted@);
            assert forall|k: int| j <= k < vs.len() implies before(x@, #[trigger] vs[k]) by {
                assert(vs[k] == sorted@[k]@);
            }
            if j > 0 {
                assert(vs[j - 1] == sorted@[j - 1]@);
            }
            lemma_insert_stable_at(vs, x@, before, j as int);
            lemma_views_of_insert(sorted@, j as int, x);
            let taken = views_of(items@.take(i + 1));
            assert(taken.drop_last() =~= views_of(items@.take(i as int)));
            assert(taken.last() == items@[i as int]@);
        }
        sorted.insert(j, x);
    }
    proof { assert(items@.take(items@.len() as int) == items@); }
    sorted
}

fn goes_before_by_score(a: &Scored, b: &Scored) -> (before: bool)
    ensures
        before == scored_before(a@, b@),
{
    a.score > b.score || (a.score == b.score && binary_before(a.name.as_str(), b.name.as_str()))
}

/// The elements of `v` in reverse order.
fn reversed<T>(v: Vec<T>) -> (r: Vec<T>)
    ensures
        r@ == v@.reverse(),
{
    let ghost input = v@;
    let mut source = v;
    let mut r: Vec<T> = Vec::new();
    while source.len() > 0
        invariant
            source@.len() <= input.len(),
            source@ == input.take(source@.len() as int),
            r@ == input.skip(source@.len() as int).reverse(),
        decreases source@.len(),
    {
        let ghost k = source@.len();
        let x = source.pop().unwrap();
        proof {
            assert(x == input[k - 1]);
            assert(source@ =~= input.take(k - 1));
            assert(input.skip(k - 1).reverse() =~= input.skip(k as int).reverse().push(x));
        }
        r.push(x);
    }
    proof { assert(input.skip(0) == input); }
    r
}

fn sort_by_score(entries: Vec<Scored>) -> (sorted: Vec<Scored>)
    ensures
        views_of(sorted@) == sort_stable(views_of(entries@), by_score()),
{
    let ghost before = by_score();
    let ghost all = views_of(entries@);
    let n = entries.len();
    let mut rest = reversed(entries);
    let mut sorted: Vec<Scored> = Vec::new();
    let mut i: usize = 0;
    proof {
        assert(views_of(rest@) =~= all.reverse());
    }
    while i < n
        invariant
            n == all.len(),
            i <= n,
            rest@.len() == n - i,
            views_of(rest@) == all.skip(i as int).reverse(),
            all == views_of(entries@),
            before == by_score(),
            views_of(sorted@) == sort_stable(all.take(i as int), before),
        decreases n - i,
    {
        let ghost before_pop = rest@;
        let x = rest.pop().unwrap();
        proof {
            assert(views_of(before_pop)[before_pop.len() - 1] == x@);
            assert(all.skip(i as int).reverse()[(n - i - 1) as int] == all[i as int]);
            assert(x@ == all[i as int]);
            assert(rest@ =~= before_pop.drop_last());
            assert forall|k: int| 0 <= k < rest@.len() implies views_of(rest@)[k] == all.skip(
                i + 1,
            ).reverse()[k] by {
                assert(views_of(rest@)[k] == rest@[k]@);
                assert(rest@[k] == before_pop[k]);
                assert(views_of(before_pop)[k] == before_pop[k]@);
            }
            assert(views_of(rest@) =~= all.skip(i + 1).reverse());
        }
        let mut j = sorted.len();
        while j > 0 && goes_before_by_score(&x, &sorted[j - 1])
            invariant
                j <= sorted@.len(),
                forall|k: int| j <= k < sorted@.len() ==> scored_before(x@, #[trigger] sorted@[k]@),
            decreases j,
        {
            j -= 1;
        }
        proof {
            let vs = views_of(sorted@);
            assert forall|k: int| j <= k < vs.len() implies before(x@, #[trigger] vs[k]) by {
                assert(vs[k] == sorted@[k]@);
            }
            if j > 0 {
                assert(vs[j - 1] == sorted@[j - 1]@);
            }
            lemma_insert_stable_at(vs, x@, before, j as int);
            lemma_views_of_insert(sorted@, j as int, x);
            assert(all.take(i + 1).drop_last() =~= all.take(i as int));
        }
        sorted.insert(j, x);
        i += 1;
    }
    proof { assert(all.take(n as int) == all); }
    sorted
}

} // verus!

verus! {

/// The lowercase forms of `strings`, appended to `out`.
fn push_lowercased(out: &mut Vec<String>, strings: &Vec<String>)
    ensures
        strings_view(final(out)@) == strings_view(old(out)@) + lowercase_all(strings_view(strings@)),
{
    let ghost start = strings_view(out@);
    for i in 0..strings.len()
        invariant
            strings_view(out@) == start + lowercase_all(strings_view(strings@.take(i as int))),
    {
        let ghost before = out@;
        let lower = to_lowercase(strings[i].as_str());
        out.push(lower);
        proof {
            assert(strings_view(out@) =~= strings_view(before).push(lower@));
            assert(strings_view(strings@.take(i + 1)) =~= strings_view(strings@.take(i as int)).push(
                strings@[i as int]@,
            ));
            assert(lowercase_all(strings_view(strings@.take(i + 1))) =~= lowercase_all(
                strings_view(strings@.take(i as int)),
            ).push(unicode_lowercase(strings@[i as int]@)));
        }
    }
    proof { assert(strings@.take(strings@.len() as int) == strings@); }
}

/// The lowercase texts that a query is matched against, in candidate order.
fn candidate_texts(item: &CatalogItem) -> (texts: Vec<String>)
    ensures
        strings_view(texts@) == search_candidates(item@),
{
    let mut texts: Vec<String> = Vec::new();
    texts.push(to_lowercase(item.name.as_str()));
    proof { assert(strings_view(texts@) =~= seq![unicode_lowercase(item.name@)]); }
    push_lowercased(&mut texts, &item.aliases);
    push_lowercased(&mut texts, &item.categories);
    push_lowercased(&mut texts, &item.tags);
    texts
}

fn larger_score(a: Option<u16>, b: Option<u16>) -> (m: Option<u16>)
    ensures
        m == max_score(a, b),
{
    match (a, b) {
        (None, _) => b,
        (_, None) => a,
        (Some(x), Some(y)) => Some(if x >= y { x } else { y }),
    }
}

/// Whether some alias equals `query` up to ASCII case.
fn exact_alias(aliases: &Vec<String>, query: &str) -> (found: bool)
    ensures
        found == has_exact_alias(strings_view(aliases@), query@),
{
    let ghost view = strings_view(aliases@);
    for i in 0..aliases.len()
        invariant
            view == strings_view(aliases@),
            forall|j: int| 0 <= j < i ==> !nocase_eq(#[trigger] view[j], query@),
    {
        if eq_ignore_ascii_case(aliases[i].as_str(), query) {
            proof { assert(nocase_eq(view[i as int], query@)); }
            return true;
        }
    }
    false
}

fn bonus_of(flag: bool, weight: u64) -> (b: u64)
    ensures
        b == bonus(flag, weight as int),
{
    if flag { weight } else { 0 }
}

/// The best fuzzy score of `query` over the item's candidate texts.
fn best_score_of(matcher: &mut nucleo_matcher::Matcher, query: &str, item: &CatalogItem) -> (best: Option<u16>)
    requires
        texts_fit(search_candidates(item@)),
    ensures
        best == best_fuzzy(query@, search_candidates(item@)),
{
    let texts = candidate_texts(item);
    let ghost cands = strings_view(texts@);
    let mut best: Option<u16> = None;
    for k in 0..texts.len()
        invariant
            cands == strings_view(texts@),
            cands == search_candidates(item@),
            texts_fit(cands),
            best == best_fuzzy(query@, cands.take(k as int)),
    {
        proof {
            assert(cands[k as int] == texts@[k as int]@);
            assert(cands[k as int].len() <= u32::MAX);
        }
        let s = fuzzy_score(matcher, query, texts[k].as_str());
        best = larger_score(best, s);
        proof {
            assert(cands.take(k + 1).drop_last() =~= cands.take(k as int));
            assert(cands.take(k + 1).last() == cands[k as int]);
        }
    }
    proof { assert(cands.take(cands.len() as int) == cands); }
    best
}

/// The scored entry of `item`, whose lowercase name is `name`, with fuzzy
/// score `fuzzy` for the normalized `query`.
fn entry_from(query: &str, item: &CatalogItem, name: &String, fuzzy: u16) -> (entry: Scored)
    ensures
        entry@ == (ScoredView { score: relevance_of(query@, item@, name@, fuzzy), name: name@, item: item@ }),
{
    let exact_name = crate::text::str_equal(name.as_str(), query);
    let prefix = starts_with(name.as_str(), query);
    let alias = exact_alias(&item.aliases, query);
    let usage: u64 = if item.usage_count > 250 { 250 } else { item.usage_count };
    let score: u64 = fuzzy as u64 + bonus_of(exact_name, 5000) + bonus_of(prefix, 1500) + bonus_of(alias, 3000)
        + bonus_of(item.pinned, 1000) + bonus_of(item.favorite, 500) + usage * 4;
    Scored { score, name: name.clone(), item: item.duplicate() }
}

/// The search results for the normalized (trimmed, lowercased) `query`
/// among `items`, at most `limit` of them, given each item's best fuzzy
/// score `fuzzy[i]` (`None` when it does not match) and lowercase name
/// `names[i]`: by preference for an empty query, otherwise the matching
/// items by score, then lowercase name, ties in input order.
pub fn rank_with_scores(
    query: &str,
    items: Vec<CatalogItem>,
    fuzzy: &Vec<Option<u16>>,
    names: &Vec<String>,
    limit: usize,
) -> (results: Vec<CatalogItem>)
    requires
        query@.len() > 0 ==> fuzzy@.len() == items@.len() && names@.len() == items@.len(),
    ensures
        views_of(results@) == ranked_with(query@, views_of(items@), fuzzy@, strings_view(names@), limit),
{
    if query.is_empty() {
        let mut sorted = sort_by_preference(&items);
        let ghost full = sorted@;
        sorted.truncate(limit);
        proof {
            if limit < full.len() {
                assert(views_of(sorted@) =~= views_of(full).take(limit as int));
            }
        }
        return sorted;
    }
    let ghost all = views_of(items@);
    let ghost scores = fuzzy@;
    let ghost lower = strings_view(names@);
    let mut entries: Vec<Scored> = Vec::new();
    for i in 0..items.len()
        invariant
            query@.len() > 0,
            all == views_of(items@),
            scores == fuzzy@,
            lower == strings_view(names@),
            scores.len() == all.len(),
            lower.len() == all.len(),
            views_of(entries@) == scored_with(
                query@,
                all.take(i as int),
                scores.take(i as int),
                lower.take(i as int),
            ),
    {
        proof {
            assert(all[i as int] == items@[i as int]@);
            assert(lower[i as int] == names@[i as int]@);
            assert(all.take(i + 1).drop_last() =~= all.take(i as int));
            assert(all.take(i + 1).last() == all[i as int]);
            assert(scores.take(i + 1).take(i as int) =~= scores.take(i as int));
            assert(lower.take(i + 1).take(i as int) =~= lower.take(i as int));
            assert(scores.take(i + 1)[i as int] == scores[i as int]);
            assert(lower.take(i + 1)[i as int] == lower[i as int]);
        }
        match fuzzy[i] {
            Some(f) => {
                let ghost before = entries@;
                let e = entry_from(query, &items[i], &names[i], f);
                entries.push(e);
                proof { crate::protocol::lemma_views_of_push(before, e); }
            },
            None => {},
        }
    }
    proof {
        assert(all.take(all.len() as int) == all);
        assert(scores.take(all.len() as int) == scores);
        assert(lower.take(all.len() as int) == lower);
    }
    let sorted = sort_by_score(entries);
    let ghost sorted_view = views_of(sorted@);
    let count = if limit < sorted.len() { limit } else { sorted.len() };
    let mut results: Vec<CatalogItem> = Vec::new();
    for k in 0..count
        invariant
            count <= sorted@.len(),
            sorted_view == views_of(sorted@),
            views_of(results@) == sorted_view.take(k as int).map_values(|e: ScoredView| e.item),
    {
        let ghost before = results@;
        let item = sorted[k].item.duplicate();
        results.push(item);
        proof {
            crate::protocol::lemma_views_of_push(before, item);
            assert(sorted_view[k as int] == sorted@[k as int]@);
            assert(sorted_view.take(k + 1).map_values(|e: ScoredView| e.item) =~= sorted_view.take(
                k as int,
            ).map_values(|e: ScoredView| e.item).push(sorted_view[k as int].item));
        }
    }
    proof {
        if limit < sorted_view.len() {
            assert(first_n(sorted_view, limit) == sorted_view.take(count as int));
        } else {
            assert(sorted_view.take(count as int) =~= sorted_view);
        }
    }
    results
}

/// The search results for `query` among `items`, at most `limit` of them:
/// by preference for a blank query, otherwise the matching items by score.
pub fn rank_items(query: &str, items: Vec<CatalogItem>, limit: usize) -> (results: Vec<CatalogItem>)
    requires
        normalized_query(query@).len() > 0 ==> candidates_fit(views_of(items@)),
    ensures
        views_of(results@) == ranked(query@, views_of(items@), limit),
        is_blank(query@) ==> views_of(results@) == first_n(sort_stable(views_of(items@), by_preference()), limit),
{
    proof { lemma_ranked_with_matcher(query@, views_of(items@), limit); }
    let trimmed = trim_string(query);
    let normalized = to_lowercase(trimmed.as_str());
    proof { lemma_trim_empty_iff_blank(query@); }
    let mut fuzzy: Vec<Option<u16>> = Vec::new();
    let mut names: Vec<String> = Vec::new();
    if normalized.as_str().is_empty() {
        return rank_with_scores(normalized.as_str(), items, &fuzzy, &names, limit);
    }
    let ghost q = normalized@;
    let ghost all = views_of(items@);
    let mut matcher = new_matcher();
    for i in 0..items.len()
        invariant
            q == normalized@,
            all == views_of(items@),
            candidates_fit(all),
            fuzzy@ == best_scores(q, all).take(i as int),
            strings_view(names@) == lowercase_names(all).take(i as int),
    {
        proof {
            assert(all[i as int] == items@[i as int]@);
            assert(texts_fit(search_candidates(all[i as int])));
        }
        let best = best_score_of(&mut matcher, normalized.as_str(), &items[i]);
        fuzzy.push(best);
        let ghost before = names@;
        let lower = to_lowercase(items[i].name.as_str());
        names.push(lower);
        proof {
            assert(fuzzy@ =~= best_scores(q, all).take(i + 1));
            assert(strings_view(names@) =~= strings_view(before).push(lower@));
            assert(strings_view(names@) =~= lowercase_names(all).take(i + 1));
        }
    }
    proof {
        assert(best_scores(q, all).take(all.len() as int) =~= best_scores(q, all));
        assert(lowercase_names(all).take(all.len() as int) =~= lowercase_names(all));
    }
    rank_with_scores(normalized.as_str(), items, &fuzzy, &names, limit)
}

} // verus!

verus! {

/// Whether every text of `item` is short enough for the matcher.
fn item_texts_fit(item: &CatalogItem) -> (fit: bool)
    ensures
        fit == texts_fit(search_candidates(item@)),
{
    let texts = candidate_texts(item);
    let ghost cands = strings_view(texts@);
    for k in 0..texts.len()
        invariant
            cands == strings_view(texts@),
            cands == search_candidates(item@),
            forall|j: int| 0 <= j < k ==> (#[trigger] cands[j]).len() <= u32::MAX,
    {
        let n = texts[k].as_str().unicode_len();
        proof { assert(cands[k as int] == texts@[k as int]@); }
        if n > 4294967295 {
            return false;
        }
    }
    true
}

/// Ranks like `rank_items` when every text fits the matcher's limit of
/// `u32::MAX` characters, and answers `None` (where `rank_items` could not
/// run) otherwise.
pub fn rank_items_checked(query: &str, items: Vec<CatalogItem>, limit: usize) -> (results: Option<
    Vec<CatalogItem>,
>)
    ensures
        match results {
            Some(r) => views_of(r@) == ranked(query@, views_of(items@), limit),
            None => normalized_query(query@).len() > 0 && !candidates_fit(views_of(items@)),
        },
        results is None <==> (normalized_query(query@).len() > 0 && !candidates_fit(views_of(items@))),
        is_blank(query@) ==> (results matches Some(r) && views_of(r@) == first_n(
            sort_stable(views_of(items@), by_preference()),
            limit,
        )),
{
    let normalized = to_lowercase(trim_string(query).as_str());
    proof { lemma_trim_empty_iff_blank(query@); }
    if !normalized.as_str().is_empty() {
        let ghost all = views_of(items@);
        for i in 0..items.len()
            invariant
                all == views_of(items@),
                normalized@ == normalized_query(query@),
                normalized@.len() > 0,
                !is_blank(query@),
                forall|j: int| 0 <= j < i ==> texts_fit(#[trigger] search_candidates(all[j])),
        {
            proof { assert(all[i as int] == items@[i as int]@); }
            if !item_texts_fit(&items[i]) {
                proof { assert(!texts_fit(search_candidates(all[i as int]))); }
                return None;
            }
        }
        proof { assert(candidates_fit(views_of(items@))); }
    }
    Some(rank_items(query, items, limit))
}

// ------------------------------------------------------- ranking laws

/// A name that is exactly the query is worth 5000 more than any other name
/// that merely starts with the query, and so at least 6500 above the fuzzy
/// score (exact name and prefix together).
pub proof fn lemma_exact_name_bonus(query: Seq<char>, item: CatalogItemView, other: Seq<char>, fuzzy: u16)
    requires
        query.len() > 0,
        has_prefix(other, query),
        other != query,
    ensures
        relevance_of(query, item, query, fuzzy) == relevance_of(query, item, other, fuzzy) + 5000,
        relevance_of(query, item, query, fuzzy) >= fuzzy + 6500,
{
    assert(query.subrange(0, query.len() as int) =~= query);
}

/// A matching item whose lowercase name is exactly the query scores above
/// every matching item with another name that does not have the query as
/// an alias, when its fuzzy score is no lower: no name prefix, pin,
/// favorite or usage makes up for the exact name.
pub proof fn lemma_exact_name_outranks(
    query: Seq<char>,
    exact: CatalogItemView,
    exact_fuzzy: u16,
    other: CatalogItemView,
    other_fuzzy: u16,
)
    requires
        query.len() > 0,
        unicode_lowercase(exact.name) == query,
        unicode_lowercase(other.name) != query,
        !has_exact_alias(other.aliases, query),
        exact_fuzzy >= other_fuzzy,
    ensures
        relevance(query, exact, exact_fuzzy) > relevance(query, other, other_fuzzy),
{
    assert(query.subrange(0, query.len() as int) =~= query);
}

/// The preference order as a key: smaller for pinned items, then for
/// favorites, then for more uses.
pub open spec fn preference_key() -> spec_fn(CatalogItemView) -> int {
    |a: CatalogItemView| -(bonus(a.pinned, 0x4_0000_0000_0000_0000) + bonus(a.favorite, 0x2_0000_0000_0000_0000)
        + a.usage_count as int)
}

/// The score order as a key: smaller for higher scores.
pub open spec fn score_key() -> spec_fn(ScoredView) -> int {
    |e: ScoredView| -e.score
}

/// Every scored entry is the entry of one of the items.
proof fn lemma_scored_entries_from_items(query: Seq<char>, items: Seq<CatalogItemView>)
    ensures
        forall|k: int| 0 <= k < scored_entries(query, items).len() ==> items.contains(
            (#[trigger] scored_entries(query, items)[k]).item,
        ) && scored_entry(query, scored_entries(query, items)[k].item) == Some(
            scored_entries(query, items)[k],
        ),
    decreases items.len(),
{
    if items.len() > 0 {
        let rest = items.drop_last();
        lemma_scored_entries_from_items(query, rest);
        let earlier = scored_entries(query, rest);
        let all = scored_entries(query, items);
        assert forall|k: int| 0 <= k < all.len() implies items.contains((#[trigger] all[k]).item)
            && scored_entry(query, all[k].item) == Some(all[k]) by {
            if k < earlier.len() {
                assert(all[k] == earlier[k]);
                let m = choose|m: int| 0 <= m < rest.len() && rest[m] == earlier[k].item;
                assert(items[m] == rest[m]);
            } else {
                assert(items[items.len() - 1] == items.last());
            }
        }
    }
}

/// The items of the scored entries are some of the items, none of them
/// more often than among the items.
proof fn lemma_scored_entries_sub_multiset(query: Seq<char>, items: Seq<CatalogItemView>)
    ensures
        scored_entries(query, items).map_values(|e: ScoredView| e.item).to_multiset().subset_of(
            items.to_multiset(),
        ),
    decreases items.len(),
{
    broadcast use vstd::seq_lib::group_to_multiset_ensures;

    if items.len() == 0 {
        assert(scored_entries(query, items).map_values(|e: ScoredView| e.item) =~= Seq::<CatalogItemView>::empty());
    } else {
        let rest = items.drop_last();
        lemma_scored_entries_sub_multiset(query, rest);
        assert(rest.push(items.last()) =~= items);
        let earlier = scored_entries(query, rest);
        match scored_entry(query, items.last()) {
            Some(e) => {
                assert(earlier.push(e).map_values(|e: ScoredView| e.item) =~= earlier.map_values(
                    |e: ScoredView| e.item,
                ).push(items.last()));
            },
            None => {},
        }
    }
}

/// What a search returns: at most `limit` results, each one of the items,
/// none of them more often than among the items.  With an empty query no result is preferred (pinned, favorite, used
/// more) over one before it; with a query every result matches it and the
/// scores never rise down the list.
pub proof fn lemma_ranked_results(query: Seq<char>, items: Seq<CatalogItemView>, limit: usize)
    ensures
        ranked(query, items, limit).len() <= limit,
        forall|i: int| 0 <= i < ranked(query, items, limit).len() ==> items.contains(
            #[trigger] ranked(query, items, limit)[i],
        ),
        normalized_query(query).len() == 0 ==> forall|i: int, j: int|
            0 <= i < j < ranked(query, items, limit).len() ==> !preference_before(
                #[trigger] ranked(query, items, limit)[j],
                #[trigger] ranked(query, items, limit)[i],
            ),
        normalized_query(query).len() > 0 ==> forall|i: int|
            0 <= i < ranked(query, items, limit).len() ==> scored_entry(
                normalized_query(query),
                #[trigger] ranked(query, items, limit)[i],
            ) is Some,
        normalized_query(query).len() > 0 ==> forall|i: int, j: int|
            0 <= i < j < ranked(query, items, limit).len() ==> scored_entry(
                normalized_query(query),
                #[trigger] ranked(query, items, limit)[i],
            ).unwrap().score >= scored_entry(
                normalized_query(query),
                #[trigger] ranked(query, items, limit)[j],
            ).unwrap().score,
        ranked(query, items, limit).to_multiset().subset_of(items.to_multiset()),
{
    broadcast use vstd::seq_lib::group_to_multiset_ensures;

    let q = normalized_query(query);
    let r = ranked(query, items, limit);
    if q.len() == 0 {
        let sorted = sort_stable(items, by_preference());
        let key = preference_key();
        assert(crate::sorting::is_key_order(by_preference(), key));
        assert(crate::sorting::respects_key(by_preference(), key));
        crate::sorting::lemma_sort_stable_sorted(items, by_preference(), key);
        crate::sorting::lemma_sort_stable_permutes(items, by_preference());
        assert forall|i: int| 0 <= i < r.len() implies items.contains(#[trigger] r[i]) by {
            assert(r[i] == sorted[i]);
            assert(sorted.contains(sorted[i]));
            assert(sorted.to_multiset().count(sorted[i]) > 0);
        }
        assert forall|i: int, j: int| 0 <= i < j < r.len() implies !preference_before(
            #[trigger] r[j],
            #[trigger] r[i],
        ) by {
            assert(r[i] == sorted[i] && r[j] == sorted[j]);
            assert(key(sorted[i]) <= key(sorted[j]));
            assert(by_preference()(r[j], r[i]) == (key(r[j]) < key(r[i])));
        }
        if limit < sorted.len() {
            lemma_take_sub_multiset(sorted, limit as int);
        }
    } else {
        let entries = scored_entries(q, items);
        let sorted = sort_stable(entries, by_score());
        let top = first_n(sorted, limit);
        let key = score_key();
        assert(crate::sorting::respects_key(by_score(), key));
        crate::sorting::lemma_sort_stable_sorted(entries, by_score(), key);
        crate::sorting::lemma_sort_stable_permutes(entries, by_score());
        lemma_scored_entries_from_items(q, items);
        assert forall|i: int| 0 <= i < r.len() implies items.contains(#[trigger] r[i])
            && scored_entry(q, r[i]) == Some(sorted[i]) by {
            assert(r[i] == top[i].item);
            assert(top[i] == sorted[i]);
            assert(sorted.contains(sorted[i]));
            assert(sorted.to_multiset().count(sorted[i]) > 0);
            assert(entries.contains(sorted[i]));
            let m = choose|m: int| 0 <= m < entries.len() && entries[m] == sorted[i];
            assert(entries[m].item == r[i]);
        }
        assert forall|i: int| 0 <= i < r.len() implies scored_entry(q, #[trigger] r[i]) is Some by {
            assert(scored_entry(q, r[i]) == Some(sorted[i]));
        }
        assert forall|i: int, j: int| 0 <= i < j < r.len() implies scored_entry(q, #[trigger] r[i]).unwrap().score
            >= scored_entry(q, #[trigger] r[j]).unwrap().score by {
            assert(scored_entry(q, r[i]) == Some(sorted[i]));
            assert(scored_entry(q, r[j]) == Some(sorted[j]));
            assert(key(sorted[i]) <= key(sorted[j]));
        }
        let mapped = sorted.map_values(|e: ScoredView| e.item);
        lemma_sort_stable_permutes_mapped(entries, by_score(), |e: ScoredView| e.item);
        lemma_scored_entries_sub_multiset(q, items);
        if limit < sorted.len() {
            assert(r =~= mapped.take(limit as int));
            lemma_take_sub_multiset(mapped, limit as int);
        } else {
            assert(r =~= mapped);
        }
    }
}

} // verus!
