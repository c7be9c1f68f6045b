//! The catalog and personalization store.  It keeps the tables that the
//! palette persists (catalog items, preferences, aliases, custom tags,
//! collections, workflows and hotkeys) with the semantics of the SQL that
//! maintains them: primary keys, `INSERT OR IGNORE`, upserts, `NOCASE`
//! comparisons and ordered listings.  Writing the tables to disk is done by
//! the program around the library.

use vstd::prelude::*;
use crate::protocol::{
    lemma_views_of_push, strings_view, views_of, CatalogItem, CatalogItemView, CollectionSummary,
    HotkeyBinding, ItemKind, ItemSource, WorkflowDefinition, WorkflowView,
};
use crate::ranking::{by_preference, candidates_fit, first_n, normalized_query, rank_items_checked, ranked};
use crate::sorting::{lemma_insert_stable_at, sort_stable};
use crate::tables::{first_index, keep, lemma_first_index, lemma_first_index_at, lemma_keep_step};
use crate::text::{
    eq_ignore_ascii_case, is_blank, is_blank_str, nocase_before, nocase_eq, nocase_less, trim,
    trim_string,
};
use crate::workflow::{validate_workflow, workflow_validation, WorkflowValidationError};

verus! {

/// Why a store operation was refused.
#[derive(Debug, PartialEq, Eq, Structural, Clone, Copy)]
pub enum StoreError {
    EmptyAlias,
    EmptyTag,
    EmptyCollectionName,
    EmptyItemId,
    EmptyAccelerator,
    EmptyTargetId,
    InvalidWorkflow(WorkflowValidationError),
    /// A usage count or collection position would leave SQLite's integer range.
    CounterOverflow,
    /// A catalog text is longer than the fuzzy matcher accepts.
    TextTooLong,
}

/// The personalization row of one item.
pub struct Preference {
    pub item_id: String,
    pub favorite: bool,
    pub pinned: bool,
    pub usage_count: u64,
    pub last_used_at: Option<i64>,
}

pub struct PreferenceView {
    pub item_id: Seq<char>,
    pub favorite: bool,
    pub pinned: bool,
    pub usage_count: u64,
    pub last_used_at: Option<i64>,
}

impl View for Preference {
    type V = PreferenceView;

    open spec fn view(&self) -> PreferenceView {
        PreferenceView {
            item_id: self.item_id@,
            favorite: self.favorite,
            pinned: self.pinned,
            usage_count: self.usage_count,
            last_used_at: self.last_used_at,
        }
    }
}

/// An alias or custom tag of an item.
pub struct KeywordRow {
    pub item_id: String,
    pub text: String,
}

pub struct KeywordRowView {
    pub item_id: Seq<char>,
    pub text: Seq<char>,
}

impl View for KeywordRow {
    type V = KeywordRowView;

    open spec fn view(&self) -> KeywordRowView {
        KeywordRowView { item_id: self.item_id@, text: self.text@ }
    }
}

/// One membership of a collection; an empty item id marks an empty collection.
pub struct CollectionRow {
    pub name: String,
    pub item_id: String,
    pub sort_order: i64,
}

pub struct CollectionRowView {
    pub name: Seq<char>,
    pub item_id: Seq<char>,
    pub sort_order: i64,
}

impl View for CollectionRow {
    type V = CollectionRowView;

    open spec fn view(&self) -> CollectionRowView {
        CollectionRowView { name: self.name@, item_id: self.item_id@, sort_order: self.sort_order }
    }
}

pub struct HotkeyView {
    pub accelerator: Seq<char>,
    pub target_id: Seq<char>,
}

impl View for HotkeyBinding {
    type V = HotkeyView;

    open spec fn view(&self) -> HotkeyView {
        HotkeyView { accelerator: self.accelerator@, target_id: self.target_id@ }
    }
}

/// The store: every table, rows in insertion order.
pub struct Store {
    catalog: Vec<CatalogItem>,
    preferences: Vec<Preference>,
    aliases: Vec<KeywordRow>,
    tags: Vec<KeywordRow>,
    collections: Vec<CollectionRow>,
    workflows: Vec<WorkflowDefinition>,
    hotkeys: Vec<HotkeyBinding>,
}

/// The content of every table.
pub struct StoreView {
    pub catalog: Seq<CatalogItemView>,
    pub preferences: Seq<PreferenceView>,
    pub aliases: Seq<KeywordRowView>,
    pub tags: Seq<KeywordRowView>,
    pub collections: Seq<CollectionRowView>,
    pub workflows: Seq<WorkflowView>,
    pub hotkeys: Seq<HotkeyView>,
}

impl View for Store {
    type V = StoreView;

    closed spec fn view(&self) -> StoreView {
        StoreView {
            catalog: views_of(self.catalog@),
            preferences: views_of(self.preferences@),
            aliases: views_of(self.aliases@),
            tags: views_of(self.tags@),
            collections: views_of(self.collections@),
            workflows: views_of(self.workflows@),
            hotkeys: views_of(self.hotkeys@),
        }
    }
}

// ---------------------------------------------------------------- catalog

/// Whether a catalog row has the id `id`.
pub open spec fn item_has_id(id: Seq<char>) -> spec_fn(CatalogItemView) -> bool {
    |item: CatalogItemView| item.id == id
}

/// The catalog after `INSERT .. ON CONFLICT(id) DO UPDATE` of one item: a row
/// with the same id is replaced in place, otherwise the item is appended.
pub open spec fn upsert_item(catalog: Seq<CatalogItemView>, item: CatalogItemView) -> Seq<CatalogItemView> {
    match first_index(catalog, item_has_id(item.id)) {
        Some(i) => catalog.update(i, item),
        None => catalog.push(item),
    }
}

/// The catalog after upserting `items` one after the other.
pub open spec fn upsert_items(catalog: Seq<CatalogItemView>, items: Seq<CatalogItemView>) -> Seq<CatalogItemView>
    decreases items.len(),
{
    if items.len() == 0 {
        catalog
    } else {
        upsert_item(upsert_items(catalog, items.drop_last()), items.last())
    }
}

// ------------------------------------------------------------ preferences

/// Whether a preference row belongs to `id`.
pub open spec fn pref_has_id(id: Seq<char>) -> spec_fn(PreferenceView) -> bool {
    |p: PreferenceView| p.item_id == id
}

/// The preference row of `id`, if there is one.
pub open spec fn preference_of(prefs: Seq<PreferenceView>, id: Seq<char>) -> Option<PreferenceView> {
    match first_index(prefs, pref_has_id(id)) {
        Some(i) => Some(prefs[i]),
        None => None,
    }
}

/// A fresh preference row: not a favorite, not pinned, never used.
pub open spec fn default_preference(id: Seq<char>) -> PreferenceView {
    PreferenceView { item_id: id, favorite: false, pinned: false, usage_count: 0, last_used_at: None }
}

/// The preferences with a row for `id` (`INSERT OR IGNORE`).
pub open spec fn ensure_preference(prefs: Seq<PreferenceView>, id: Seq<char>) -> Seq<PreferenceView> {
    match first_index(prefs, pref_has_id(id)) {
        Some(_) => prefs,
        None => prefs.push(default_preference(id)),
    }
}

/// The preferences after `f` rewrites the row of `id`, created first if missing.
pub open spec fn update_preference(
    prefs: Seq<PreferenceView>,
    id: Seq<char>,
    f: spec_fn(PreferenceView) -> PreferenceView,
) -> Seq<PreferenceView> {
    let ensured = ensure_preference(prefs, id);
    match first_index(ensured, pref_has_id(id)) {
        Some(i) => ensured.update(i, f(ensured[i])),
        None => ensured,
    }
}

pub open spec fn with_favorite(favorite: bool) -> spec_fn(PreferenceView) -> PreferenceView {
    |p: PreferenceView| PreferenceView { favorite, ..p }
}

pub open spec fn with_pinned(pinned: bool) -> spec_fn(PreferenceView) -> PreferenceView {
    |p: PreferenceView| PreferenceView { pinned, ..p }
}

/// One more use, at time `now`.
pub open spec fn with_use_at(now: i64) -> spec_fn(PreferenceView) -> PreferenceView {
    |p: PreferenceView| PreferenceView { usage_count: (p.usage_count + 1) as u64, last_used_at: Some(now), ..p }
}

// --------------------------------------------------------- aliases and tags

/// Whether a keyword row belongs to `id`.
pub open spec fn keyword_of(id: Seq<char>) -> spec_fn(KeywordRowView) -> bool {
    |r: KeywordRowView| r.item_id == id
}

/// The texts of a keyword row sequence.
pub open spec fn keyword_texts(rows: Seq<KeywordRowView>) -> Seq<Seq<char>> {
    rows.map_values(|r: KeywordRowView| r.text)
}

/// The `NOCASE` order as a relation.
pub open spec fn by_nocase() -> spec_fn(Seq<char>, Seq<char>) -> bool {
    |a: Seq<char>, b: Seq<char>| nocase_less(a, b)
}

/// The keywords stored for `id`, `ORDER BY` text `NOCASE`.
pub open spec fn stored_keywords(rows: Seq<KeywordRowView>, id: Seq<char>) -> Seq<Seq<char>> {
    sort_stable(keyword_texts(keep(rows, keyword_of(id))), by_nocase())
}

/// Whether some element of `texts` equals `text` up to ASCII case.
pub open spec fn contains_nocase(texts: Seq<Seq<char>>, text: Seq<char>) -> bool {
    exists|i: int| 0 <= i < texts.len() && nocase_eq(#[trigger] texts[i], text)
}

/// `known` extended by each of `extra`, in order, that it does not already
/// hold up to ASCII case.
pub open spec fn merge_nocase(known: Seq<Seq<char>>, extra: Seq<Seq<char>>) -> Seq<Seq<char>>
    decreases extra.len(),
{
    if extra.len() == 0 {
        known
    } else {
        let merged = merge_nocase(known, extra.drop_last());
        if contains_nocase(merged, extra.last()) {
            merged
        } else {
            merged.push(extra.last())
        }
    }
}

/// An item as the store returns it: its stored row with the preference row
/// (when one exists) laid over it and the stored aliases and tags merged in.
pub open spec fn hydrated(v: StoreView, item: CatalogItemView) -> CatalogItemView {
    let base = match preference_of(v.preferences, item.id) {
        Some(p) => CatalogItemView {
            favorite: p.favorite,
            pinned: p.pinned,
            usage_count: p.usage_count,
            last_used_at: p.last_used_at,
            ..item
        },
        None => item,
    };
    CatalogItemView {
        aliases: merge_nocase(base.aliases, stored_keywords(v.aliases, item.id)),
        tags: merge_nocase(base.tags, stored_keywords(v.tags, item.id)),
        ..base
    }
}

/// Every stored item, hydrated, in table order.
pub open spec fn listed_catalog(v: StoreView) -> Seq<CatalogItemView> {
    v.catalog.map_values(|item: CatalogItemView| hydrated(v, item))
}

/// The number of results a search asks the ranking for.
pub open spec fn search_limit(limit: usize) -> usize {
    if limit < 1 {
        1
    } else if limit > 200 {
        200
    } else {
        limit
    }
}

/// An empty store.
pub open spec fn empty_store() -> StoreView {
    StoreView {
        catalog: Seq::empty(),
        preferences: Seq::empty(),
        aliases: Seq::empty(),
        tags: Seq::empty(),
        collections: Seq::empty(),
        workflows: Seq::empty(),
        hotkeys: Seq::empty(),
    }
}

impl Preference {
    fn duplicate(&self) -> (copy: Preference)
        ensures
            copy@ == self@,
    {
        Preference {
            item_id: self.item_id.clone(),
            favorite: self.favorite,
            pinned: self.pinned,
            usage_count: self.usage_count,
            last_used_at: self.last_used_at,
        }
    }
}

impl Store {
    /// A store with every table empty.
    pub fn in_memory() -> (store: Result<Store, StoreError>)
        ensures
            store matches Ok(s) && s@ == empty_store(),
    {
        let store = Store {
            catalog: Vec::new(),
            preferences: Vec::new(),
            aliases: Vec::new(),
            tags: Vec::new(),
            collections: Vec::new(),
            workflows: Vec::new(),
            hotkeys: Vec::new(),
        };
        proof {
            assert(store@.catalog =~= Seq::<CatalogItemView>::empty());
            assert(store@.preferences =~= Seq::<PreferenceView>::empty());
            assert(store@.aliases =~= Seq::<KeywordRowView>::empty());
            assert(store@.tags =~= Seq::<KeywordRowView>::empty());
            assert(store@.collections =~= Seq::<CollectionRowView>::empty());
            assert(store@.workflows =~= Seq::<WorkflowView>::empty());
            assert(store@.hotkeys =~= Seq::<HotkeyView>::empty());
        }
        Ok(store)
    }

    fn catalog_position(&self, id: &str) -> (position: Option<usize>)
        ensures
            position matches Some(i) ==> first_index(self@.catalog, item_has_id(id@)) == Some(i as int),
            position is None ==> first_index(self@.catalog, item_has_id(id@)) is None,
    {
        let ghost rows = self@.catalog;
        for i in 0..self.catalog.len()
            invariant
                rows == self@.catalog,
                rows == views_of(self.catalog@),
                forall|j: int| 0 <= j < i ==> !item_has_id(id@)(#[trigger] rows[j]),
        {
            proof { assert(rows[i as int] == self.catalog@[i as int]@); }
            if crate::text::str_equal(self.catalog[i].id.as_str(), id) {
                proof { lemma_first_index_at(rows, item_has_id(id@), i as int); }
                return Some(i);
            }
        }
        proof { lemma_first_index_at(rows, item_has_id(id@), rows.len() as int); }
        None
    }

    fn upsert_one(&mut self, item: CatalogItem)
        ensures
            final(self)@ == (StoreView { catalog: upsert_item(old(self)@.catalog, item@), ..old(self)@ }),
    {
        let position = self.catalog_position(item.id.as_str());
        let ghost before = self.catalog@;
        let ghost view = item@;
        proof { lemma_first_index(self@.catalog, item_has_id(item@.id)); }
        match position {
            Some(i) => {
                self.catalog.set(i, item);
                proof {
                    assert(views_of(self.catalog@) =~= views_of(before).update(i as int, view));
                }
            },
            None => {
                self.catalog.push(item);
                proof { lemma_views_of_push(before, item); }
            },
        }
    }

    /// Inserts each item, replacing a stored item with the same id in place.
    pub fn upsert_catalog(&mut self, items: &Vec<CatalogItem>) -> (done: Result<(), StoreError>)
        ensures
            done is Ok,
            final(self)@ == (StoreView {
                catalog: upsert_items(old(self)@.catalog, views_of(items@)),
                ..old(self)@
            }),
    {
        let ghost start = self@;
        let ghost all = views_of(items@);
        for i in 0..items.len()
            invariant
                all == views_of(items@),
                self@ == (StoreView { catalog: upsert_items(start.catalog, all.take(i as int)), ..start }),
        {
            let item = items[i].duplicate();
            self.upsert_one(item);
            proof {
                assert(all.take(i + 1).drop_last() =~= all.take(i as int));
                assert(all.take(i + 1).last() == items@[i as int]@);
            }
        }
        proof { assert(all.take(all.len() as int) == all); }
        Ok(())
    }

    /// The number of catalog rows.
    pub fn catalog_count(&self) -> (count: Result<usize, StoreError>)
        ensures
            count matches Ok(n) && n == self@.catalog.len(),
    {
        Ok(self.catalog.len())
    }

    fn preference_position(&self, id: &str) -> (position: Option<usize>)
        ensures
            position matches Some(i) ==> first_index(self@.preferences, pref_has_id(id@)) == Some(i as int),
            position is None ==> first_index(self@.preferences, pref_has_id(id@)) is None,
    {
        let ghost rows = self@.preferences;
        for i in 0..self.preferences.len()
            invariant
                rows == self@.preferences,
                rows == views_of(self.preferences@),
                forall|j: int| 0 <= j < i ==> !pref_has_id(id@)(#[trigger] rows[j]),
        {
            proof { assert(rows[i as int] == self.preferences@[i as int]@); }
            if crate::text::str_equal(self.preferences[i].item_id.as_str(), id) {
                proof { lemma_first_index_at(rows, pref_has_id(id@), i as int); }
                return Some(i);
            }
        }
        proof { lemma_first_index_at(rows, pref_has_id(id@), rows.len() as int); }
        None
    }

    /// The position of the preference row of `id`, created first if missing.
    fn ensure_preference_row(&mut self, id: &str) -> (position: usize)
        ensures
            final(self)@ == (StoreView {
                preferences: ensure_preference(old(self)@.preferences, id@),
                ..old(self)@
            }),
            first_index(final(self)@.preferences, pref_has_id(id@)) == Some(position as int),
            position < final(self).preferences@.len(),
    {
        match self.preference_position(id) {
            Some(i) => {
                proof { lemma_first_index(self@.preferences, pref_has_id(id@)); }
                i
            },
            None => {
                let ghost before = self.preferences@;
                let row = Preference {
                    item_id: crate::text::str_to_string(id),
                    favorite: false,
                    pinned: false,
                    usage_count: 0,
                    last_used_at: None,
                };
                self.preferences.push(row);
                proof {
                    lemma_views_of_push(before, row);
                    lemma_first_index(views_of(before), pref_has_id(id@));
                    lemma_first_index_at(self@.preferences, pref_has_id(id@), before.len() as int);
                }
                self.preferences.len() - 1
            },
        }
    }

    /// Marks or unmarks `item_id` as a favorite.
    pub fn set_favorite(&mut self, item_id: &str, favorite: bool) -> (done: Result<(), StoreError>)
        ensures
            done is Ok,
            final(self)@ == (StoreView {
                preferences: update_preference(old(self)@.preferences, item_id@, with_favorite(favorite)),
                ..old(self)@
            }),
    {
        let i = self.ensure_preference_row(item_id);
        let ghost before = self.preferences@;
        let mut row = self.preferences[i].duplicate();
        row.favorite = favorite;
        self.preferences.set(i, row);
        proof {
            assert(views_of(self.preferences@) =~= views_of(before).update(
                i as int,
                with_favorite(favorite)(views_of(before)[i as int]),
            ));
        }
        Ok(())
    }

    /// Pins or unpins `item_id`.
    pub fn set_pinned(&mut self, item_id: &str, pinned: bool) -> (done: Result<(), StoreError>)
        ensures
            done is Ok,
            final(self)@ == (StoreView {
                preferences: update_preference(old(self)@.preferences, item_id@, with_pinned(pinned)),
                ..old(self)@
            }),
    {
        let i = self.ensure_preference_row(item_id);
        let ghost before = self.preferences@;
        let mut row = self.preferences[i].duplicate();
        row.pinned = pinned;
        self.preferences.set(i, row);
        proof {
            assert(views_of(self.preferences@) =~= views_of(before).update(
                i as int,
                with_pinned(pinned)(views_of(before)[i as int]),
            ));
        }
        Ok(())
    }

    /// Counts one more use of `item_id` at time `now` (seconds since the
    /// Unix epoch).  A count already at SQLite's largest integer is refused,
    /// after the preference row has been created.
    pub fn record_usage_at(&mut self, item_id: &str, now: i64) -> (done: Result<(), StoreError>)
        ensures
            (final(self)@, done) == usage_outcome(old(self)@, item_id@, now),
    {
        let i = self.ensure_preference_row(item_id);
        let ghost before = self.preferences@;
        proof {
            assert(views_of(before)[i as int] == before[i as int]@);
        }
        if self.preferences[i].usage_count >= 9223372036854775807 {
            return Err(StoreError::CounterOverflow);
        }
        let mut row = self.preferences[i].duplicate();
        row.usage_count = row.usage_count + 1;
        row.last_used_at = Some(now);
        self.preferences.set(i, row);
        proof {
            assert(views_of(self.preferences@) =~= views_of(before).update(
                i as int,
                with_use_at(now)(views_of(before)[i as int]),
            ));
        }
        Ok(())
    }
}

} // verus!

verus! {

/// Whether some element of `texts` equals `text` up to ASCII case.
fn contains_ignoring_case(texts: &Vec<String>, text: &str) -> (found: bool)
    ensures
        found == contains_nocase(strings_view(texts@), text@),
{
    let ghost view = strings_view(texts@);
    for i in 0..texts.len()
        invariant
            view == strings_view(texts@),
            forall|j: int| 0 <= j < i ==> !nocase_eq(#[trigger] view[j], text@),
    {
        if eq_ignore_ascii_case(texts[i].as_str(), text) {
            proof { assert(nocase_eq(view[i as int], text@)); }
            return true;
        }
    }
    false
}

/// Appends each of `extra` that `known` does not already hold up to ASCII case.
fn merge_into(known: &mut Vec<String>, extra: &Vec<String>)
    ensures
        strings_view(final(known)@) == merge_nocase(strings_view(old(known)@), strings_view(extra@)),
{
    let ghost start = strings_view(known@);
    let ghost more = strings_view(extra@);
    for i in 0..extra.len()
        invariant
            more == strings_view(extra@),
            strings_view(known@) == merge_nocase(start, more.take(i as int)),
    {
        proof {
            assert(more.take(i + 1).drop_last() =~= more.take(i as int));
            assert(more.take(i + 1).last() == extra@[i as int]@);
        }
        if !contains_ignoring_case(known, extra[i].as_str()) {
            let ghost before = known@;
            known.push(extra[i].clone());
            proof { assert(strings_view(known@) =~= strings_view(before).push(extra@[i as int]@)); }
        }
    }
    proof { assert(more.take(more.len() as int) == more); }
}

/// `texts` sorted in the `NOCASE` order, equal texts in input order.
fn sort_nocase(texts: Vec<String>) -> (sorted: Vec<String>)
    ensures
        strings_view(sorted@) == sort_stable(strings_view(texts@), by_nocase()),
{
    let ghost all = strings_view(texts@);
    let mut sorted: Vec<String> = Vec::new();
    for i in 0..texts.len()
        invariant
            all == strings_view(texts@),
            strings_view(sorted@) == sort_stable(all.take(i as int), by_nocase()),
    {
        let x = texts[i].clone();
        let mut j = sorted.len();
        while j > 0 && nocase_before(x.as_str(), sorted[j - 1].as_str())
            invariant
                j <= sorted@.len(),
                forall|k: int| j <= k < sorted@.len() ==> nocase_less(x@, #[trigger] sorted@[k]@),
            decreases j,
        {
            j -= 1;
        }
        proof {
            let vs = strings_view(sorted@);
            assert forall|k: int| j <= k < vs.len() implies by_nocase()(x@, #[trigger] vs[k]) by {
                assert(vs[k] == sorted@[k]@);
            }
            if j > 0 {
                assert(vs[j - 1] == sorted@[j - 1]@);
            }
            lemma_insert_stable_at(vs, x@, by_nocase(), j as int);
            assert(all.take(i + 1).drop_last() =~= all.take(i as int));
            assert(all.take(i + 1).last() == texts@[i as int]@);
        }
        let ghost before = sorted@;
        sorted.insert(j, x);
        proof { assert(strings_view(sorted@) =~= strings_view(before).insert(j as int, x@)); }
    }
    proof { assert(all.take(all.len() as int) == all); }
    sorted
}

/// The texts of the rows of `id`, `ORDER BY` text `NOCASE`.
fn keywords_for(rows: &Vec<KeywordRow>, id: &str) -> (texts: Vec<String>)
    ensures
        strings_view(texts@) == stored_keywords(views_of(rows@), id@),
{
    let ghost all = views_of(rows@);
    let mut texts: Vec<String> = Vec::new();
    for i in 0..rows.len()
        invariant
            all == views_of(rows@),
            strings_view(texts@) == keyword_texts(keep(all.take(i as int), keyword_of(id@))),
    {
        proof {
            lemma_keep_step(all, keyword_of(id@), i as int);
            assert(all[i as int] == rows@[i as int]@);
        }
        if crate::text::str_equal(rows[i].item_id.as_str(), id) {
            let ghost before = texts@;
            texts.push(rows[i].text.clone());
            proof {
                assert(strings_view(texts@) =~= strings_view(before).push(rows@[i as int].text@));
                let kept = keep(all.take(i as int), keyword_of(id@));
                assert(keyword_texts(kept.push(all[i as int])) =~= keyword_texts(kept).push(
                    all[i as int].text,
                ));
            }
        }
    }
    proof { assert(all.take(all.len() as int) == all); }
    sort_nocase(texts)
}

impl Store {
    /// `item` with its preferences, aliases and tags.
    fn hydrate(&self, item: &CatalogItem) -> (full: CatalogItem)
        ensures
            full@ == hydrated(self@, item@),
    {
        let mut full = item.duplicate();
        match self.preference_position(item.id.as_str()) {
            Some(i) => {
                proof { lemma_first_index(self@.preferences, pref_has_id(item@.id)); }
                let p = &self.preferences[i];
                proof { assert(self@.preferences[i as int] == p@); }
                full.favorite = p.favorite;
                full.pinned = p.pinned;
                full.usage_count = p.usage_count;
                full.last_used_at = p.last_used_at;
            },
            None => {},
        }
        let aliases = keywords_for(&self.aliases, item.id.as_str());
        merge_into(&mut full.aliases, &aliases);
        let tags = keywords_for(&self.tags, item.id.as_str());
        merge_into(&mut full.tags, &tags);
        full
    }

    /// The stored item with id `item_id`, hydrated.
    pub fn get_item(&self, item_id: &str) -> (found: Result<Option<CatalogItem>, StoreError>)
        ensures
            found matches Ok(r) && match first_index(self@.catalog, item_has_id(item_id@)) {
                Some(i) => r matches Some(item) && item@ == hydrated(self@, self@.catalog[i]),
                None => r is None,
            },
    {
        match self.catalog_position(item_id) {
            Some(i) => {
                proof {
                    lemma_first_index(self@.catalog, item_has_id(item_id@));
                    assert(self@.catalog[i as int] == self.catalog@[i as int]@);
                }
                Ok(Some(self.hydrate(&self.catalog[i])))
            },
            None => Ok(None),
        }
    }

    /// Every stored item, hydrated, in table order.
    pub fn list_catalog(&self) -> (items: Result<Vec<CatalogItem>, StoreError>)
        ensures
            items matches Ok(list) && views_of(list@) == listed_catalog(self@),
    {
        let ghost all = self@.catalog;
        let mut list: Vec<CatalogItem> = Vec::new();
        for i in 0..self.catalog.len()
            invariant
                all == self@.catalog,
                views_of(list@) == all.take(i as int).map_values(|item: CatalogItemView| hydrated(self@, item)),
        {
            proof { assert(all[i as int] == self.catalog@[i as int]@); }
            let ghost before = list@;
            let full = self.hydrate(&self.catalog[i]);
            list.push(full);
            proof {
                lemma_views_of_push(before, full);
                assert(all.take(i + 1).map_values(|item: CatalogItemView| hydrated(self@, item))
                    =~= all.take(i as int).map_values(|item: CatalogItemView| hydrated(self@, item)).push(
                    hydrated(self@, all[i as int]),
                ));
            }
        }
        proof { assert(all.take(all.len() as int) == all); }
        Ok(list)
    }

    /// The ranked search results for `query`, at most `limit` clamped to
    /// 1..=200.  A catalog text longer than the matcher accepts is refused.
    pub fn search(&self, query: &str, limit: usize) -> (results: Result<Vec<CatalogItem>, StoreError>)
        ensures
            match results {
                Ok(r) => views_of(r@) == ranked(query@, listed_catalog(self@), search_limit(limit)),
                Err(e) => e == StoreError::TextTooLong && normalized_query(query@).len() > 0
                    && !candidates_fit(listed_catalog(self@)),
            },
            results is Err <==> (normalized_query(query@).len() > 0 && !candidates_fit(listed_catalog(self@))),
            is_blank(query@) ==> (results matches Ok(r) && views_of(r@) == first_n(
                sort_stable(listed_catalog(self@), by_preference()),
                search_limit(limit),
            )),
    {
        let items = match self.list_catalog() {
            Ok(items) => items,
            Err(e) => return Err(e),
        };
        let clamped = if limit < 1 { 1 } else if limit > 200 { 200 } else { limit };
        match rank_items_checked(query, items, clamped) {
            Some(r) => Ok(r),
            None => Err(StoreError::TextTooLong),
        }
    }
}

/// `SystemTime::now()` as whole seconds since the Unix epoch (0 before it).
/// The clock is read, so nothing is stated of the value.
#[verifier::external_body]
pub(crate) fn now_unix() -> (seconds: i64) {
    std::time::SystemTime::now().duration_since(std::time::UNIX_EPOCH).unwrap_or_default().as_secs() as i64
}

impl Store {
    /// Counts one more use of `item_id` now.
    pub fn record_usage(&mut self, item_id: &str) -> (done: Result<(), StoreError>)
        ensures
            exists|now: i64| (final(self)@, done) == #[trigger] usage_outcome(old(self)@, item_id@, now),
    {
        let now = now_unix();
        self.record_usage_at(item_id, now)
    }
}

} // verus!

verus! {

/// Whether a keyword row is `text` (up to ASCII case) for item `id`: the
/// table's primary key.
pub open spec fn same_keyword(id: Seq<char>, text: Seq<char>) -> spec_fn(KeywordRowView) -> bool {
    |r: KeywordRowView| r.item_id == id && nocase_eq(r.text, text)
}

/// Whether a keyword row is not `text` for item `id`.
pub open spec fn other_keyword(id: Seq<char>, text: Seq<char>) -> spec_fn(KeywordRowView) -> bool {
    |r: KeywordRowView| !(r.item_id == id && nocase_eq(r.text, text))
}

/// The rows after `INSERT OR IGNORE` of `text` for `id`.
pub open spec fn insert_keyword(rows: Seq<KeywordRowView>, id: Seq<char>, text: Seq<char>) -> Seq<KeywordRowView> {
    match first_index(rows, same_keyword(id, text)) {
        Some(_) => rows,
        None => rows.push(KeywordRowView { item_id: id, text }),
    }
}

/// The rows after deleting `text` (up to ASCII case) for `id`.
pub open spec fn remove_keyword(rows: Seq<KeywordRowView>, id: Seq<char>, text: Seq<char>) -> Seq<KeywordRowView> {
    keep(rows, other_keyword(id, text))
}

impl KeywordRow {
    fn duplicate(&self) -> (copy: KeywordRow)
        ensures
            copy@ == self@,
    {
        KeywordRow { item_id: self.item_id.clone(), text: self.text.clone() }
    }
}

fn is_keyword(row: &KeywordRow, id: &str, text: &str) -> (b: bool)
    ensures
        b == same_keyword(id@, text@)(row@),
{
    crate::text::str_equal(row.item_id.as_str(), id) && eq_ignore_ascii_case(row.text.as_str(), text)
}

fn insert_keyword_row(rows: &mut Vec<KeywordRow>, id: &str, text: String)
    ensures
        views_of(final(rows)@) == insert_keyword(views_of(old(rows)@), id@, text@),
{
    let ghost all = views_of(rows@);
    let mut i: usize = 0;
    while i < rows.len()
        invariant
            all == views_of(rows@),
            i <= rows@.len(),
            forall|j: int| 0 <= j < i ==> !same_keyword(id@, text@)(#[trigger] all[j]),
        decreases rows@.len() - i,
    {
        proof { assert(all[i as int] == rows@[i as int]@); }
        if is_keyword(&rows[i], id, text.as_str()) {
            proof { lemma_first_index_at(all, same_keyword(id@, text@), i as int); }
            return;
        }
        i += 1;
    }
    proof { lemma_first_index_at(all, same_keyword(id@, text@), all.len() as int); }
    let row = KeywordRow { item_id: crate::text::str_to_string(id), text };
    let ghost before = rows@;
    rows.push(row);
    proof { lemma_views_of_push(before, row); }
}

fn remove_keyword_rows(rows: &mut Vec<KeywordRow>, id: &str, text: &str)
    ensures
        views_of(final(rows)@) == remove_keyword(views_of(old(rows)@), id@, text@),
{
    let ghost all = views_of(rows@);
    let mut kept: Vec<KeywordRow> = Vec::new();
    for i in 0..rows.len()
        invariant
            all == views_of(rows@),
            views_of(kept@) == keep(all.take(i as int), other_keyword(id@, text@)),
    {
        proof {
            lemma_keep_step(all, other_keyword(id@, text@), i as int);
            assert(all[i as int] == rows@[i as int]@);
        }
        if !is_keyword(&rows[i], id, text) {
            let ghost before = kept@;
            let row = rows[i].duplicate();
            kept.push(row);
            proof { lemma_views_of_push(before, row); }
        }
    }
    proof { assert(all.take(all.len() as int) == all); }
    *rows = kept;
}

impl Store {
    /// Adds an alias (trimmed) to `item_id`, unless it already has it up to
    /// ASCII case.  A blank alias is refused.
    pub fn add_alias(&mut self, item_id: &str, alias: &str) -> (done: Result<(), StoreError>)
        ensures
            is_blank(alias@) ==> done == Err::<(), StoreError>(StoreError::EmptyAlias) && final(self)@
                == old(self)@,
            !is_blank(alias@) ==> done is Ok && final(self)@ == (StoreView {
                aliases: insert_keyword(old(self)@.aliases, item_id@, trim(alias@)),
                ..old(self)@
            }),
    {
        let text = trim_string(alias);
        proof { crate::text::lemma_trim_empty_iff_blank(alias@); }
        if text.as_str().is_empty() {
            return Err(StoreError::EmptyAlias);
        }
        insert_keyword_row(&mut self.aliases, item_id, text);
        Ok(())
    }

    /// Removes the alias (trimmed, up to ASCII case) from `item_id`.
    pub fn remove_alias(&mut self, item_id: &str, alias: &str) -> (done: Result<(), StoreError>)
        ensures
            done is Ok,
            final(self)@ == (StoreView {
                aliases: remove_keyword(old(self)@.aliases, item_id@, trim(alias@)),
                ..old(self)@
            }),
    {
        let text = trim_string(alias);
        remove_keyword_rows(&mut self.aliases, item_id, text.as_str());
        Ok(())
    }

    /// Adds a custom tag (trimmed) to `item_id`, unless it already has it up
    /// to ASCII case.  A blank tag is refused.
    pub fn add_tag(&mut self, item_id: &str, tag: &str) -> (done: Result<(), StoreError>)
        ensures
            is_blank(tag@) ==> done == Err::<(), StoreError>(StoreError::EmptyTag) && final(self)@
                == old(self)@,
            !is_blank(tag@) ==> done is Ok && final(self)@ == (StoreView {
                tags: insert_keyword(old(self)@.tags, item_id@, trim(tag@)),
                ..old(self)@
            }),
    {
        let text = trim_string(tag);
        proof { crate::text::lemma_trim_empty_iff_blank(tag@); }
        if text.as_str().is_empty() {
            return Err(StoreError::EmptyTag);
        }
        insert_keyword_row(&mut self.tags, item_id, text);
        Ok(())
    }

    /// Removes the custom tag (trimmed, up to ASCII case) from `item_id`.
    pub fn remove_tag(&mut self, item_id: &str, tag: &str) -> (done: Result<(), StoreError>)
        ensures
            done is Ok,
            final(self)@ == (StoreView {
                tags: remove_keyword(old(self)@.tags, item_id@, trim(tag@)),
                ..old(self)@
            }),
    {
        let text = trim_string(tag);
        remove_keyword_rows(&mut self.tags, item_id, text.as_str());
        Ok(())
    }
}

} // verus!

verus! {

// ---------------------------------------------------------------- hotkeys

/// Whether a hotkey row has this accelerator up to ASCII case (the key).
pub open spec fn same_accelerator(accelerator: Seq<char>) -> spec_fn(HotkeyView) -> bool {
    |h: HotkeyView| nocase_eq(h.accelerator, accelerator)
}

/// Whether a hotkey row has another accelerator.
pub open spec fn other_accelerator(accelerator: Seq<char>) -> spec_fn(HotkeyView) -> bool {
    |h: HotkeyView| !nocase_eq(h.accelerator, accelerator)
}

/// The hotkeys after binding `accelerator` to `target`: an existing binding
/// of the same accelerator keeps its spelling and takes the new target.
pub open spec fn bind_hotkey(hotkeys: Seq<HotkeyView>, accelerator: Seq<char>, target: Seq<char>) -> Seq<HotkeyView> {
    match first_index(hotkeys, same_accelerator(accelerator)) {
        Some(i) => hotkeys.update(i, HotkeyView { target_id: target, ..hotkeys[i] }),
        None => hotkeys.push(HotkeyView { accelerator, target_id: target }),
    }
}

/// The accelerator order (`NOCASE`) as a relation.
pub open spec fn by_accelerator() -> spec_fn(HotkeyView, HotkeyView) -> bool {
    |a: HotkeyView, b: HotkeyView| nocase_less(a.accelerator, b.accelerator)
}

fn copy_hotkey(h: &HotkeyBinding) -> (copy: HotkeyBinding)
    ensures
        copy@ == h@,
{
    HotkeyBinding { accelerator: h.accelerator.clone(), target_id: h.target_id.clone() }
}

// -------------------------------------------------------------- workflows

/// Whether a workflow has the id `id`.
pub open spec fn workflow_has_id(id: Seq<char>) -> spec_fn(WorkflowView) -> bool {
    |w: WorkflowView| w.id == id
}

/// Whether a workflow has another id.
pub open spec fn workflow_other_id(id: Seq<char>) -> spec_fn(WorkflowView) -> bool {
    |w: WorkflowView| w.id != id
}

/// The workflows after an upsert by id.
pub open spec fn upsert_workflow(workflows: Seq<WorkflowView>, w: WorkflowView) -> Seq<WorkflowView> {
    match first_index(workflows, workflow_has_id(w.id)) {
        Some(i) => workflows.update(i, w),
        None => workflows.push(w),
    }
}

/// The catalog id under which a workflow is searchable.
pub open spec fn workflow_item_id(id: Seq<char>) -> Seq<char> {
    "workflow:"@ + id
}

/// The catalog entry of a workflow, with the given metadata.
pub open spec fn workflow_item(w: WorkflowView, metadata: serde_json::Value) -> CatalogItemView {
    CatalogItemView {
        id: workflow_item_id(w.id),
        kind: ItemKind::Workflow,
        source: ItemSource::User,
        name: w.name,
        aliases: Seq::empty(),
        categories: seq!["Workflows"@],
        tags: Seq::empty(),
        browser_path: Seq::empty(),
        compatible_tracks: Seq::empty(),
        favorite: false,
        pinned: false,
        usage_count: 0,
        last_used_at: None,
        metadata,
    }
}

/// Whether a catalog row has another id.
pub open spec fn item_other_id(id: Seq<char>) -> spec_fn(CatalogItemView) -> bool {
    |item: CatalogItemView| item.id != id
}

/// The workflow id order (byte-wise) as a relation.
pub open spec fn by_workflow_id() -> spec_fn(WorkflowView, WorkflowView) -> bool {
    |a: WorkflowView, b: WorkflowView| crate::text::binary_less(a.id, b.id)
}

impl Store {
    fn hotkey_position(&self, accelerator: &str) -> (position: Option<usize>)
        ensures
            position matches Some(i) ==> first_index(self@.hotkeys, same_accelerator(accelerator@)) == Some(
                i as int,
            ),
            position is None ==> first_index(self@.hotkeys, same_accelerator(accelerator@)) is None,
    {
        let ghost rows = self@.hotkeys;
        for i in 0..self.hotkeys.len()
            invariant
                rows == self@.hotkeys,
                rows == views_of(self.hotkeys@),
                forall|j: int| 0 <= j < i ==> !same_accelerator(accelerator@)(#[trigger] rows[j]),
        {
            proof { assert(rows[i as int] == self.hotkeys@[i as int]@); }
            if eq_ignore_ascii_case(self.hotkeys[i].accelerator.as_str(), accelerator) {
                proof { lemma_first_index_at(rows, same_accelerator(accelerator@), i as int); }
                return Some(i);
            }
        }
        proof { lemma_first_index_at(rows, same_accelerator(accelerator@), rows.len() as int); }
        None
    }

    /// Binds the (trimmed) accelerator to the (trimmed) target.  A blank
    /// accelerator, then a blank target, is refused.
    pub fn set_hotkey(&mut self, accelerator: &str, target_id: &str) -> (done: Result<(), StoreError>)
        ensures
            is_blank(accelerator@) ==> done == Err::<(), StoreError>(StoreError::EmptyAccelerator)
                && final(self)@ == old(self)@,
            !is_blank(accelerator@) && is_blank(target_id@) ==> done == Err::<(), StoreError>(
                StoreError::EmptyTargetId,
            ) && final(self)@ == old(self)@,
            !is_blank(accelerator@) && !is_blank(target_id@) ==> done is Ok && final(self)@ == (
            StoreView {
                hotkeys: bind_hotkey(old(self)@.hotkeys, trim(accelerator@), trim(target_id@)),
                ..old(self)@
            }),
    {
        let acc = trim_string(accelerator);
        let target = trim_string(target_id);
        proof {
            crate::text::lemma_trim_empty_iff_blank(accelerator@);
            crate::text::lemma_trim_empty_iff_blank(target_id@);
        }
        if acc.as_str().is_empty() {
            return Err(StoreError::EmptyAccelerator);
        }
        if target.as_str().is_empty() {
            return Err(StoreError::EmptyTargetId);
        }
        let ghost before = self.hotkeys@;
        match self.hotkey_position(acc.as_str()) {
            Some(i) => {
                proof { lemma_first_index(self@.hotkeys, same_accelerator(acc@)); }
                let spelled = self.hotkeys[i].accelerator.clone();
                let row = HotkeyBinding { accelerator: spelled, target_id: target };
                proof { assert(self@.hotkeys[i as int] == self.hotkeys@[i as int]@); }
                self.hotkeys.set(i, row);
                proof {
                    assert(views_of(self.hotkeys@) =~= views_of(before).update(
                        i as int,
                        HotkeyView { target_id: trim(target_id@), ..views_of(before)[i as int] },
                    ));
                }
            },
            None => {
                let row = HotkeyBinding { accelerator: acc, target_id: target };
                self.hotkeys.push(row);
                proof { lemma_views_of_push(before, row); }
            },
        }
        Ok(())
    }

    /// Removes the binding of the (trimmed) accelerator, up to ASCII case.
    pub fn clear_hotkey(&mut self, accelerator: &str) -> (done: Result<(), StoreError>)
        ensures
            done is Ok,
            final(self)@ == (StoreView {
                hotkeys: keep(old(self)@.hotkeys, other_accelerator(trim(accelerator@))),
                ..old(self)@
            }),
    {
        let acc = trim_string(accelerator);
        let ghost all = self@.hotkeys;
        let mut kept: Vec<HotkeyBinding> = Vec::new();
        for i in 0..self.hotkeys.len()
            invariant
                all == views_of(self.hotkeys@),
                acc@ == trim(accelerator@),
                views_of(kept@) == keep(all.take(i as int), other_accelerator(acc@)),
        {
            proof {
                lemma_keep_step(all, other_accelerator(acc@), i as int);
                assert(all[i as int] == self.hotkeys@[i as int]@);
            }
            if !eq_ignore_ascii_case(self.hotkeys[i].accelerator.as_str(), acc.as_str()) {
                let ghost before = kept@;
                let row = copy_hotkey(&self.hotkeys[i]);
                kept.push(row);
                proof { lemma_views_of_push(before, row); }
            }
        }
        proof { assert(all.take(all.len() as int) == all); }
        self.hotkeys = kept;
        Ok(())
    }

    /// Every binding, ordered by accelerator (`NOCASE`).
    pub fn list_hotkeys(&self) -> (hotkeys: Result<Vec<HotkeyBinding>, StoreError>)
        ensures
            hotkeys matches Ok(list) && views_of(list@) == sort_stable(self@.hotkeys, by_accelerator()),
    {
        let ghost all = self@.hotkeys;
        let mut sorted: Vec<HotkeyBinding> = Vec::new();
        for i in 0..self.hotkeys.len()
            invariant
                all == views_of(self.hotkeys@),
                views_of(sorted@) == sort_stable(all.take(i as int), by_accelerator()),
        {
            let x = copy_hotkey(&self.hotkeys[i]);
            let mut j = sorted.len();
            while j > 0 && nocase_before(x.accelerator.as_str(), sorted[j - 1].accelerator.as_str())
                invariant
                    j <= sorted@.len(),
                    forall|k: int| j <= k < sorted@.len() ==> by_accelerator()(x@, #[trigger] sorted@[k]@),
                decreases j,
            {
                j -= 1;
            }
            proof {
                let vs = views_of(sorted@);
                assert forall|k: int| j <= k < vs.len() implies by_accelerator()(x@, #[trigger] vs[k]) by {
                    assert(vs[k] == sorted@[k]@);
                }
                if j > 0 {
                    assert(vs[j - 1] == sorted@[j - 1]@);
                }
                lemma_insert_stable_at(vs, x@, by_accelerator(), j as int);
                assert(all.take(i + 1).drop_last() =~= all.take(i as int));
                assert(all.take(i + 1).last() == self.hotkeys@[i as int]@);
            }
            let ghost before = sorted@;
            sorted.insert(j, x);
            proof { assert(views_of(sorted@) =~= views_of(before).insert(j as int, x@)); }
        }
        proof { assert(all.take(all.len() as int) == all); }
        Ok(sorted)
    }
}

} // verus!

verus! {

/// The catalog id of workflow `id`.
fn workflow_catalog_id(id: &str) -> (item_id: String)
    ensures
        item_id@ == workflow_item_id(id@),
{
    let mut item_id = String::from_str("workflow:");
    item_id.append(id);
    item_id
}

impl Store {
    fn workflow_position(&self, id: &str) -> (position: Option<usize>)
        ensures
            position matches Some(i) ==> first_index(self@.workflows, workflow_has_id(id@)) == Some(i as int),
            position is None ==> first_index(self@.workflows, workflow_has_id(id@)) is None,
    {
        let ghost rows = self@.workflows;
        for i in 0..self.workflows.len()
            invariant
                rows == self@.workflows,
                rows == views_of(self.workflows@),
                forall|j: int| 0 <= j < i ==> !workflow_has_id(id@)(#[trigger] rows[j]),
        {
            proof { assert(rows[i as int] == self.workflows@[i as int]@); }
            if crate::text::str_equal(self.workflows[i].id.as_str(), id) {
                proof { lemma_first_index_at(rows, workflow_has_id(id@), i as int); }
                return Some(i);
            }
        }
        proof { lemma_first_index_at(rows, workflow_has_id(id@), rows.len() as int); }
        None
    }

    /// Validates and stores a workflow (replacing one with the same id) and
    /// makes it searchable as catalog item `workflow:<id>`.
    pub fn save_workflow(&mut self, workflow: &WorkflowDefinition) -> (done: Result<(), StoreError>)
        ensures
            match workflow_validation(workflow@) {
                Err(e) => done == Err::<(), StoreError>(StoreError::InvalidWorkflow(e)) && final(self)@
                    == old(self)@,
                Ok(_) => done is Ok && final(self)@.workflows == upsert_workflow(
                    old(self)@.workflows,
                    workflow@,
                ) && (exists|metadata: serde_json::Value| final(self)@.catalog == #[trigger] upsert_item(
                    old(self)@.catalog,
                    workflow_item(workflow@, metadata),
                )) && final(self)@.preferences == old(self)@.preferences && final(self)@.aliases
                    == old(self)@.aliases && final(self)@.tags == old(self)@.tags
                    && final(self)@.collections == old(self)@.collections && final(self)@.hotkeys
                    == old(self)@.hotkeys,
            },
            exists|metadata: serde_json::Value|
                (final(self)@, done) == #[trigger] save_workflow_outcome(old(self)@, workflow@, metadata),
    {
        match validate_workflow(workflow) {
            Err(e) => {
                proof {
                    let m: serde_json::Value = vstd::pervasive::arbitrary();
                    assert((self@, Err::<(), StoreError>(StoreError::InvalidWorkflow(e)))
                        == save_workflow_outcome(old(self)@, workflow@, m));
                }
                return Err(StoreError::InvalidWorkflow(e));
            },
            Ok(()) => {},
        }
        let copy = workflow.duplicate();
        let ghost before = self.workflows@;
        match self.workflow_position(workflow.id.as_str()) {
            Some(i) => {
                proof { lemma_first_index(self@.workflows, workflow_has_id(workflow@.id)); }
                self.workflows.set(i, copy);
                proof {
                    assert(views_of(self.workflows@) =~= views_of(before).update(i as int, workflow@));
                }
            },
            None => {
                self.workflows.push(copy);
                proof { lemma_views_of_push(before, copy); }
            },
        }
        let mut item = crate::protocol::plain_item(
            workflow_catalog_id(workflow.id.as_str()),
            ItemKind::Workflow,
            ItemSource::User,
            workflow.name.clone(),
        );
        let mut categories: Vec<String> = Vec::new();
        categories.push(String::from_str("Workflows"));
        item.categories = categories;
        proof {
            assert(strings_view(item.categories@) =~= seq!["Workflows"@]);
            assert(item@.aliases =~= Seq::<Seq<char>>::empty());
            assert(item@.tags =~= Seq::<Seq<char>>::empty());
            assert(item@.browser_path =~= Seq::<Seq<char>>::empty());
            assert(item@.compatible_tracks =~= Seq::<crate::protocol::TrackKind>::empty());
            assert(item@ == workflow_item(workflow@, item@.metadata));
        }
        let ghost meta = item@.metadata;
        let ghost catalog_before = self@.catalog;
        self.upsert_one(item);
        proof {
            assert(self@.catalog == upsert_item(catalog_before, workflow_item(workflow@, meta)));
            assert(catalog_before == old(self)@.catalog);
            assert(self@.workflows == upsert_workflow(old(self)@.workflows, workflow@));
            assert(self@.preferences == old(self)@.preferences);
            assert((self@, Ok::<(), StoreError>(())) == save_workflow_outcome(old(self)@, workflow@, meta));
        }
        Ok(())
    }

    /// The stored workflow with id `workflow_id`.
    pub fn get_workflow(&self, workflow_id: &str) -> (found: Result<Option<WorkflowDefinition>, StoreError>)
        ensures
            found matches Ok(r) && match first_index(self@.workflows, workflow_has_id(workflow_id@)) {
                Some(i) => r matches Some(w) && w@ == self@.workflows[i],
                None => r is None,
            },
    {
        match self.workflow_position(workflow_id) {
            Some(i) => {
                proof {
                    lemma_first_index(self@.workflows, workflow_has_id(workflow_id@));
                    assert(self@.workflows[i as int] == self.workflows@[i as int]@);
                }
                Ok(Some(self.workflows[i].duplicate()))
            },
            None => Ok(None),
        }
    }

    /// Every workflow, ordered by id.
    pub fn list_workflows(&self) -> (workflows: Result<Vec<WorkflowDefinition>, StoreError>)
        ensures
            workflows matches Ok(list) && views_of(list@) == sort_stable(self@.workflows, by_workflow_id()),
    {
        let ghost all = self@.workflows;
        let mut sorted: Vec<WorkflowDefinition> = Vec::new();
        for i in 0..self.workflows.len()
            invariant
                all == views_of(self.workflows@),
                views_of(sorted@) == sort_stable(all.take(i as int), by_workflow_id()),
        {
            let x = self.workflows[i].duplicate();
            let mut j = sorted.len();
            while j > 0 && crate::text::binary_before(x.id.as_str(), sorted[j - 1].id.as_str())
                invariant
                    j <= sorted@.len(),
                    forall|k: int| j <= k < sorted@.len() ==> by_workflow_id()(x@, #[trigger] sorted@[k]@),
                decreases j,
            {
                j -= 1;
            }
            proof {
                let vs = views_of(sorted@);
                assert forall|k: int| j <= k < vs.len() implies by_workflow_id()(x@, #[trigger] vs[k]) by {
                    assert(vs[k] == sorted@[k]@);
                }
                if j > 0 {
                    assert(vs[j - 1] == sorted@[j - 1]@);
                }
                lemma_insert_stable_at(vs, x@, by_workflow_id(), j as int);
                assert(all.take(i + 1).drop_last() =~= all.take(i as int));
                assert(all.take(i + 1).last() == self.workflows@[i as int]@);
            }
            let ghost before = sorted@;
            sorted.insert(j, x);
            proof { assert(views_of(sorted@) =~= views_of(before).insert(j as int, x@)); }
        }
        proof { assert(all.take(all.len() as int) == all); }
        Ok(sorted)
    }

    /// Deletes the workflow and its catalog entry.
    pub fn delete_workflow(&mut self, workflow_id: &str) -> (done: Result<(), StoreError>)
        ensures
            done is Ok,
            final(self)@ == (StoreView {
                workflows: keep(old(self)@.workflows, workflow_other_id(workflow_id@)),
                catalog: keep(old(self)@.catalog, item_other_id(workflow_item_id(workflow_id@))),
                ..old(self)@
            }),
    {
        let ghost all = self@.workflows;
        let mut kept: Vec<WorkflowDefinition> = Vec::new();
        for i in 0..self.workflows.len()
            invariant
                all == views_of(self.workflows@),
                views_of(kept@) == keep(all.take(i as int), workflow_other_id(workflow_id@)),
        {
            proof {
                lemma_keep_step(all, workflow_other_id(workflow_id@), i as int);
                assert(all[i as int] == self.workflows@[i as int]@);
            }
            if !crate::text::str_equal(self.workflows[i].id.as_str(), workflow_id) {
                let ghost before = kept@;
                let row = self.workflows[i].duplicate();
                kept.push(row);
                proof { lemma_views_of_push(before, row); }
            }
        }
        proof { assert(all.take(all.len() as int) == all); }
        self.workflows = kept;
        let item_id = workflow_catalog_id(workflow_id);
        let ghost items = self@.catalog;
        let mut kept_items: Vec<CatalogItem> = Vec::new();
        for i in 0..self.catalog.len()
            invariant
                items == views_of(self.catalog@),
                item_id@ == workflow_item_id(workflow_id@),
                views_of(kept_items@) == keep(items.take(i as int), item_other_id(item_id@)),
        {
            proof {
                lemma_keep_step(items, item_other_id(item_id@), i as int);
                assert(items[i as int] == self.catalog@[i as int]@);
            }
            if !crate::text::str_equal(self.catalog[i].id.as_str(), item_id.as_str()) {
                let ghost before = kept_items@;
                let row = self.catalog[i].duplicate();
                kept_items.push(row);
                proof { lemma_views_of_push(before, row); }
            }
        }
        proof { assert(items.take(items.len() as int) == items); }
        self.catalog = kept_items;
        Ok(())
    }
}

} // verus!

verus! {

// ------------------------------------------------------------ collections

/// Whether a row belongs to collection `name` (names compare `NOCASE`).
pub open spec fn in_collection(name: Seq<char>) -> spec_fn(CollectionRowView) -> bool {
    |r: CollectionRowView| nocase_eq(r.name, name)
}

/// Whether a row belongs to another collection.
pub open spec fn outside_collection(name: Seq<char>) -> spec_fn(CollectionRowView) -> bool {
    |r: CollectionRowView| !nocase_eq(r.name, name)
}

/// Whether a row is the empty-collection marker of `name`.
pub open spec fn marker_of(name: Seq<char>) -> spec_fn(CollectionRowView) -> bool {
    |r: CollectionRowView| nocase_eq(r.name, name) && r.item_id.len() == 0
}

/// Whether a row is not the empty-collection marker of `name`.
pub open spec fn not_marker_of(name: Seq<char>) -> spec_fn(CollectionRowView) -> bool {
    |r: CollectionRowView| !(nocase_eq(r.name, name) && r.item_id.len() == 0)
}

/// Whether a row records `item_id` in collection `name` (the primary key).
pub open spec fn membership(name: Seq<char>, item_id: Seq<char>) -> spec_fn(CollectionRowView) -> bool {
    |r: CollectionRowView| nocase_eq(r.name, name) && r.item_id == item_id
}

/// Whether a row records something else.
pub open spec fn not_membership(name: Seq<char>, item_id: Seq<char>) -> spec_fn(CollectionRowView) -> bool {
    |r: CollectionRowView| !(nocase_eq(r.name, name) && r.item_id == item_id)
}

/// Whether a row is an item of collection `name` (not its marker).
pub open spec fn member_of(name: Seq<char>) -> spec_fn(CollectionRowView) -> bool {
    |r: CollectionRowView| nocase_eq(r.name, name) && r.item_id.len() > 0
}

/// The rows after `INSERT OR IGNORE` of the empty-collection marker of `name`.
pub open spec fn add_marker(rows: Seq<CollectionRowView>, name: Seq<char>) -> Seq<CollectionRowView> {
    match first_index(rows, marker_of(name)) {
        Some(_) => rows,
        None => rows.push(CollectionRowView { name, item_id: Seq::empty(), sort_order: -1i64 }),
    }
}

/// The largest position in collection `name`, if it has rows.
pub open spec fn max_order(rows: Seq<CollectionRowView>, name: Seq<char>) -> Option<i64>
    decreases rows.len(),
{
    if rows.len() == 0 {
        None
    } else {
        let earlier = max_order(rows.drop_last(), name);
        let last = rows.last();
        if !nocase_eq(last.name, name) {
            earlier
        } else {
            match earlier {
                Some(m) => Some(if last.sort_order > m { last.sort_order } else { m }),
                None => Some(last.sort_order),
            }
        }
    }
}

/// The rows after inserting `item_id` into collection `name` at `order`,
/// unless it is already there.
pub open spec fn add_member(rows: Seq<CollectionRowView>, name: Seq<char>, item_id: Seq<char>, order: i64) -> Seq<CollectionRowView> {
    match first_index(rows, membership(name, item_id)) {
        Some(_) => rows,
        None => rows.push(CollectionRowView { name, item_id, sort_order: order }),
    }
}

/// The distinct collection names in table order, each spelled as its first row.
pub open spec fn distinct_names(rows: Seq<CollectionRowView>) -> Seq<Seq<char>>
    decreases rows.len(),
{
    if rows.len() == 0 {
        Seq::empty()
    } else {
        let names = distinct_names(rows.drop_last());
        if contains_nocase(names, rows.last().name) {
            names
        } else {
            names.push(rows.last().name)
        }
    }
}

/// The position order as a relation.
pub open spec fn by_sort_order() -> spec_fn(CollectionRowView, CollectionRowView) -> bool {
    |a: CollectionRowView, b: CollectionRowView| a.sort_order < b.sort_order
}

pub struct CollectionView {
    pub name: Seq<char>,
    pub item_ids: Seq<Seq<char>>,
}

impl View for CollectionSummary {
    type V = CollectionView;

    open spec fn view(&self) -> CollectionView {
        CollectionView { name: self.name@, item_ids: strings_view(self.item_ids@) }
    }
}

/// The item ids of collection `name`, `ORDER BY sort_order`.
pub open spec fn collection_items(rows: Seq<CollectionRowView>, name: Seq<char>) -> Seq<Seq<char>> {
    sort_stable(keep(rows, member_of(name)), by_sort_order()).map_values(|r: CollectionRowView| r.item_id)
}

/// Every collection, ordered by name (`NOCASE`), with its items.
pub open spec fn listed_collections(rows: Seq<CollectionRowView>) -> Seq<CollectionView> {
    sort_stable(distinct_names(rows), by_nocase()).map_values(
        |name: Seq<char>| CollectionView { name, item_ids: collection_items(rows, name) },
    )
}

impl CollectionRow {
    fn duplicate(&self) -> (copy: CollectionRow)
        ensures
            copy@ == self@,
    {
        CollectionRow { name: self.name.clone(), item_id: self.item_id.clone(), sort_order: self.sort_order }
    }
}

/// The rows that `keep` retains of `rows` under the given row test.
fn is_marker(row: &CollectionRow, name: &str) -> (b: bool)
    ensures
        b == marker_of(name@)(row@),
{
    eq_ignore_ascii_case(row.name.as_str(), name) && row.item_id.as_str().is_empty()
}

fn is_membership(row: &CollectionRow, name: &str, item_id: &str) -> (b: bool)
    ensures
        b == membership(name@, item_id@)(row@),
{
    eq_ignore_ascii_case(row.name.as_str(), name) && crate::text::str_equal(row.item_id.as_str(), item_id)
}

fn position_of_marker(rows: &Vec<CollectionRow>, name: &str) -> (found: bool)
    ensures
        found == (first_index(views_of(rows@), marker_of(name@)) is Some),
{
    let ghost all = views_of(rows@);
    for i in 0..rows.len()
        invariant
            all == views_of(rows@),
            forall|j: int| 0 <= j < i ==> !marker_of(name@)(#[trigger] all[j]),
    {
        proof { assert(all[i as int] == rows@[i as int]@); }
        if is_marker(&rows[i], name) {
            proof { lemma_first_index_at(all, marker_of(name@), i as int); }
            return true;
        }
    }
    proof { lemma_first_index_at(all, marker_of(name@), all.len() as int); }
    false
}

fn has_membership(rows: &Vec<CollectionRow>, name: &str, item_id: &str) -> (found: bool)
    ensures
        found == (first_index(views_of(rows@), membership(name@, item_id@)) is Some),
{
    let ghost all = views_of(rows@);
    for i in 0..rows.len()
        invariant
            all == views_of(rows@),
            forall|j: int| 0 <= j < i ==> !membership(name@, item_id@)(#[trigger] all[j]),
    {
        proof { assert(all[i as int] == rows@[i as int]@); }
        if is_membership(&rows[i], name, item_id) {
            proof { lemma_first_index_at(all, membership(name@, item_id@), i as int); }
            return true;
        }
    }
    proof { lemma_first_index_at(all, membership(name@, item_id@), all.len() as int); }
    false
}

fn has_collection(rows: &Vec<CollectionRow>, name: &str) -> (found: bool)
    ensures
        found == (first_index(views_of(rows@), in_collection(name@)) is Some),
{
    let ghost all = views_of(rows@);
    for i in 0..rows.len()
        invariant
            all == views_of(rows@),
            forall|j: int| 0 <= j < i ==> !in_collection(name@)(#[trigger] all[j]),
    {
        proof { assert(all[i as int] == rows@[i as int]@); }
        if eq_ignore_ascii_case(rows[i].name.as_str(), name) {
            proof { lemma_first_index_at(all, in_collection(name@), i as int); }
            return true;
        }
    }
    proof { lemma_first_index_at(all, in_collection(name@), all.len() as int); }
    false
}

fn highest_order(rows: &Vec<CollectionRow>, name: &str) -> (m: Option<i64>)
    ensures
        m == max_order(views_of(rows@), name@),
{
    let ghost all = views_of(rows@);
    let mut m: Option<i64> = None;
    for i in 0..rows.len()
        invariant
            all == views_of(rows@),
            m == max_order(all.take(i as int), name@),
    {
        proof {
            assert(all.take(i + 1).drop_last() =~= all.take(i as int));
            assert(all.take(i + 1).last() == rows@[i as int]@);
        }
        if eq_ignore_ascii_case(rows[i].name.as_str(), name) {
            let o = rows[i].sort_order;
            m = match m {
                Some(x) => Some(if o > x { o } else { x }),
                None => Some(o),
            };
        }
    }
    proof { assert(all.take(all.len() as int) == all); }
    m
}

/// Keeps the rows for which `drop` is false: markers of `name`, memberships
/// of `item_id` in `name`, or every row of `name`, as `what` selects.
fn keep_rows(rows: &Vec<CollectionRow>, name: &str, item_id: &str, what: u8) -> (kept: Vec<CollectionRow>)
    requires
        what <= 2,
    ensures
        what == 0 ==> views_of(kept@) == keep(views_of(rows@), not_marker_of(name@)),
        what == 1 ==> views_of(kept@) == keep(views_of(rows@), not_membership(name@, item_id@)),
        what == 2 ==> views_of(kept@) == keep(views_of(rows@), outside_collection(name@)),
{
    let ghost all = views_of(rows@);
    let ghost p = if what == 0 {
        not_marker_of(name@)
    } else if what == 1 {
        not_membership(name@, item_id@)
    } else {
        outside_collection(name@)
    };
    let mut kept: Vec<CollectionRow> = Vec::new();
    for i in 0..rows.len()
        invariant
            all == views_of(rows@),
            what <= 2,
            p == (if what == 0 {
                not_marker_of(name@)
            } else if what == 1 {
                not_membership(name@, item_id@)
            } else {
                outside_collection(name@)
            }),
            views_of(kept@) == keep(all.take(i as int), p),
    {
        proof {
            lemma_keep_step(all, p, i as int);
            assert(all[i as int] == rows@[i as int]@);
        }
        let keep_it = if what == 0 {
            !is_marker(&rows[i], name)
        } else if what == 1 {
            !is_membership(&rows[i], name, item_id)
        } else {
            !eq_ignore_ascii_case(rows[i].name.as_str(), name)
        };
        if keep_it {
            let ghost before = kept@;
            let row = rows[i].duplicate();
            kept.push(row);
            proof { lemma_views_of_push(before, row); }
        }
    }
    proof { assert(all.take(all.len() as int) == all); }
    kept
}

impl Store {
    /// Creates the (trimmed) collection if it does not exist yet.  A blank
    /// name is refused.
    pub fn create_collection(&mut self, name: &str) -> (done: Result<(), StoreError>)
        ensures
            is_blank(name@) ==> done == Err::<(), StoreError>(StoreError::EmptyCollectionName)
                && final(self)@ == old(self)@,
            !is_blank(name@) ==> done is Ok && final(self)@ == (StoreView {
                collections: add_marker(old(self)@.collections, trim(name@)),
                ..old(self)@
            }),
    {
        let trimmed = trim_string(name);
        proof { crate::text::lemma_trim_empty_iff_blank(name@); }
        if trimmed.as_str().is_empty() {
            return Err(StoreError::EmptyCollectionName);
        }
        if !position_of_marker(&self.collections, trimmed.as_str()) {
            let ghost before = self.collections@;
            let row = CollectionRow { name: trimmed, item_id: String::new(), sort_order: -1 };
            self.collections.push(row);
            proof {
                lemma_views_of_push(before, row);
                assert(row@.item_id =~= Seq::<char>::empty());
            }
        }
        Ok(())
    }

    /// Adds `item_id` at the end of collection `name`, removing the
    /// collection's empty marker.  A blank name, then a blank item id, is
    /// refused; a position past SQLite's integer range is refused after the
    /// marker is gone.
    pub fn add_to_collection(&mut self, name: &str, item_id: &str) -> (done: Result<(), StoreError>)
        ensures
            is_blank(name@) ==> done == Err::<(), StoreError>(StoreError::EmptyCollectionName)
                && final(self)@ == old(self)@,
            !is_blank(name@) && is_blank(item_id@) ==> done == Err::<(), StoreError>(
                StoreError::EmptyItemId,
            ) && final(self)@ == old(self)@,
            !is_blank(name@) && !is_blank(item_id@) ==> ({
                let without = keep(old(self)@.collections, not_marker_of(name@));
                match max_order(without, name@) {
                    Some(m) if m == i64::MAX => done == Err::<(), StoreError>(StoreError::CounterOverflow)
                        && final(self)@ == (StoreView { collections: without, ..old(self)@ }),
                    _ => done is Ok && final(self)@ == (StoreView {
                        collections: add_member(
                            without,
                            name@,
                            item_id@,
                            match max_order(without, name@) {
                                Some(m) => (m + 1) as i64,
                                None => 0,
                            },
                        ),
                        ..old(self)@
                    }),
                }
            }),
    {
        if is_blank_str(name) {
            return Err(StoreError::EmptyCollectionName);
        }
        if is_blank_str(item_id) {
            return Err(StoreError::EmptyItemId);
        }
        let without = keep_rows(&self.collections, name, item_id, 0);
        self.collections = without;
        let order: i64 = match highest_order(&self.collections, name) {
            Some(m) => {
                if m == 9223372036854775807 {
                    return Err(StoreError::CounterOverflow);
                }
                m + 1
            },
            None => 0,
        };
        if !has_membership(&self.collections, name, item_id) {
            let ghost before = self.collections@;
            let row = CollectionRow {
                name: crate::text::str_to_string(name),
                item_id: crate::text::str_to_string(item_id),
                sort_order: order,
            };
            self.collections.push(row);
            proof { lemma_views_of_push(before, row); }
        }
        Ok(())
    }

    /// Removes `item_id` from collection `name`; a collection left with no
    /// row becomes an empty collection again (which a blank name refuses,
    /// after the removal).
    pub fn remove_from_collection(&mut self, name: &str, item_id: &str) -> (done: Result<(), StoreError>)
        ensures
            ({
                let without = keep(old(self)@.collections, not_membership(name@, item_id@));
                if first_index(without, in_collection(name@)) is Some {
                    done is Ok && final(self)@ == (StoreView { collections: without, ..old(self)@ })
                } else if is_blank(name@) {
                    done == Err::<(), StoreError>(StoreError::EmptyCollectionName) && final(self)@ == (
                    StoreView { collections: without, ..old(self)@ })
                } else {
                    done is Ok && final(self)@ == (StoreView {
                        collections: add_marker(without, trim(name@)),
                        ..old(self)@
                    })
                }
            }),
    {
        let without = keep_rows(&self.collections, name, item_id, 1);
        self.collections = without;
        if !has_collection(&self.collections, name) {
            return self.create_collection(name);
        }
        Ok(())
    }

    /// Deletes collection `name` with all its rows.
    pub fn delete_collection(&mut self, name: &str) -> (done: Result<(), StoreError>)
        ensures
            done is Ok,
            final(self)@ == (StoreView {
                collections: keep(old(self)@.collections, outside_collection(name@)),
                ..old(self)@
            }),
    {
        let without = keep_rows(&self.collections, name, "", 2);
        self.collections = without;
        Ok(())
    }
}

} // verus!

verus! {

fn collection_names(rows: &Vec<CollectionRow>) -> (names: Vec<String>)
    ensures
        strings_view(names@) == distinct_names(views_of(rows@)),
{
    let ghost all = views_of(rows@);
    let mut names: Vec<String> = Vec::new();
    for i in 0..rows.len()
        invariant
            all == views_of(rows@),
            strings_view(names@) == distinct_names(all.take(i as int)),
    {
        proof {
            assert(all.take(i + 1).drop_last() =~= all.take(i as int));
            assert(all.take(i + 1).last() == rows@[i as int]@);
        }
        if !contains_ignoring_case(&names, rows[i].name.as_str()) {
            let ghost before = names@;
            names.push(rows[i].name.clone());
            proof { assert(strings_view(names@) =~= strings_view(before).push(rows@[i as int].name@)); }
        }
    }
    proof { assert(all.take(all.len() as int) == all); }
    names
}

/// The item ids of collection `name`, by position.
fn items_of_collection(rows: &Vec<CollectionRow>, name: &str) -> (ids: Vec<String>)
    ensures
        strings_view(ids@) == collection_items(views_of(rows@), name@),
{
    let ghost all = views_of(rows@);
    let mut members: Vec<CollectionRow> = Vec::new();
    for i in 0..rows.len()
        invariant
            all == views_of(rows@),
            views_of(members@) == keep(all.take(i as int), member_of(name@)),
    {
        proof {
            lemma_keep_step(all, member_of(name@), i as int);
            assert(all[i as int] == rows@[i as int]@);
        }
        if eq_ignore_ascii_case(rows[i].name.as_str(), name) && !rows[i].item_id.as_str().is_empty() {
            let ghost before = members@;
            let row = rows[i].duplicate();
            members.push(row);
            proof { lemma_views_of_push(before, row); }
        }
    }
    proof { assert(all.take(all.len() as int) == all); }
    let ghost chosen = views_of(members@);
    let mut sorted: Vec<CollectionRow> = Vec::new();
    for i in 0..members.len()
        invariant
            chosen == views_of(members@),
            views_of(sorted@) == sort_stable(chosen.take(i as int), by_sort_order()),
    {
        let x = members[i].duplicate();
        let mut j = sorted.len();
        while j > 0 && x.sort_order < sorted[j - 1].sort_order
            invariant
                j <= sorted@.len(),
                forall|k: int| j <= k < sorted@.len() ==> by_sort_order()(x@, #[trigger] sorted@[k]@),
            decreases j,
        {
            j -= 1;
        }
        proof {
            let vs = views_of(sorted@);
            assert forall|k: int| j <= k < vs.len() implies by_sort_order()(x@, #[trigger] vs[k]) by {
                assert(vs[k] == sorted@[k]@);
            }
            if j > 0 {
                assert(vs[j - 1] == sorted@[j - 1]@);
            }
            lemma_insert_stable_at(vs, x@, by_sort_order(), j as int);
            assert(chosen.take(i + 1).drop_last() =~= chosen.take(i as int));
            assert(chosen.take(i + 1).last() == members@[i as int]@);
        }
        let ghost before = sorted@;
        sorted.insert(j, x);
        proof { assert(views_of(sorted@) =~= views_of(before).insert(j as int, x@)); }
    }
    proof { assert(chosen.take(chosen.len() as int) == chosen); }
    let ghost ordered = views_of(sorted@);
    let mut ids: Vec<String> = Vec::new();
    for k in 0..sorted.len()
        invariant
            ordered == views_of(sorted@),
            strings_view(ids@) == ordered.take(k as int).map_values(|r: CollectionRowView| r.item_id),
    {
        let ghost before = ids@;
        ids.push(sorted[k].item_id.clone());
        proof {
            assert(ordered[k as int] == sorted@[k as int]@);
            assert(strings_view(ids@) =~= strings_view(before).push(sorted@[k as int].item_id@));
            assert(ordered.take(k + 1).map_values(|r: CollectionRowView| r.item_id) =~= ordered.take(
                k as int,
            ).map_values(|r: CollectionRowView| r.item_id).push(ordered[k as int].item_id));
        }
    }
    proof { assert(ordered.take(ordered.len() as int) == ordered); }
    ids
}

impl Store {
    /// Every collection, ordered by name (`NOCASE`), with its item ids by position.
    pub fn list_collections(&self) -> (collections: Result<Vec<CollectionSummary>, StoreError>)
        ensures
            collections matches Ok(list) && views_of(list@) == listed_collections(self@.collections),
    {
        let names = sort_nocase(collection_names(&self.collections));
        let ghost rows = self@.collections;
        let ghost ordered = strings_view(names@);
        let mut list: Vec<CollectionSummary> = Vec::new();
        for k in 0..names.len()
            invariant
                rows == self@.collections,
                rows == views_of(self.collections@),
                ordered == strings_view(names@),
                views_of(list@) == ordered.take(k as int).map_values(
                    |name: Seq<char>| CollectionView { name, item_ids: collection_items(rows, name) },
                ),
        {
            let item_ids = items_of_collection(&self.collections, names[k].as_str());
            let summary = CollectionSummary { name: names[k].clone(), item_ids };
            let ghost before = list@;
            list.push(summary);
            proof {
                lemma_views_of_push(before, summary);
                assert(ordered[k as int] == names@[k as int]@);
                assert(ordered.take(k + 1).map_values(
                    |name: Seq<char>| CollectionView { name, item_ids: collection_items(rows, name) },
                ) =~= ordered.take(k as int).map_values(
                    |name: Seq<char>| CollectionView { name, item_ids: collection_items(rows, name) },
                ).push(CollectionView { name: ordered[k as int], item_ids: collection_items(rows, ordered[k as int]) }));
            }
        }
        proof { assert(ordered.take(ordered.len() as int) == ordered); }
        Ok(list)
    }
}

} // verus!

verus! {

/// The text that describes a store error.
pub open spec fn store_error_message(e: StoreError) -> Seq<char> {
    match e {
        StoreError::EmptyAlias => "alias cannot be empty"@,
        StoreError::EmptyTag => "tag cannot be empty"@,
        StoreError::EmptyCollectionName => "collection name cannot be empty"@,
        StoreError::EmptyItemId => "item id cannot be empty"@,
        StoreError::EmptyAccelerator => "accelerator cannot be empty"@,
        StoreError::EmptyTargetId => "target id cannot be empty"@,
        StoreError::InvalidWorkflow(w) => crate::workflow::workflow_error_message(w),
        StoreError::CounterOverflow => "integer overflow"@,
        StoreError::TextTooLong => "catalog text is too long to search"@,
    }
}

impl StoreError {
    /// The text that describes the error.
    pub fn message(&self) -> (text: String)
        ensures
            text@ == store_error_message(*self),
    {
        match self {
            StoreError::EmptyAlias => String::from_str("alias cannot be empty"),
            StoreError::EmptyTag => String::from_str("tag cannot be empty"),
            StoreError::EmptyCollectionName => String::from_str("collection name cannot be empty"),
            StoreError::EmptyItemId => String::from_str("item id cannot be empty"),
            StoreError::EmptyAccelerator => String::from_str("accelerator cannot be empty"),
            StoreError::EmptyTargetId => String::from_str("target id cannot be empty"),
            StoreError::InvalidWorkflow(w) => w.message(),
            StoreError::CounterOverflow => String::from_str("integer overflow"),
            StoreError::TextTooLong => String::from_str("catalog text is too long to search"),
        }
    }
}

} // verus!

verus! {

// ------------------------------------------------ outcomes of each request

/// The store after marking `id` as a favorite (or not).
pub open spec fn favorite_outcome(v: StoreView, id: Seq<char>, favorite: bool) -> StoreView {
    StoreView { preferences: update_preference(v.preferences, id, with_favorite(favorite)), ..v }
}

/// The store after pinning `id` (or not).
pub open spec fn pinned_outcome(v: StoreView, id: Seq<char>, pinned: bool) -> StoreView {
    StoreView { preferences: update_preference(v.preferences, id, with_pinned(pinned)), ..v }
}

/// The store and result of adding an alias.
pub open spec fn add_alias_outcome(v: StoreView, id: Seq<char>, alias: Seq<char>) -> (StoreView, Result<(), StoreError>) {
    if is_blank(alias) {
        (v, Err(StoreError::EmptyAlias))
    } else {
        (StoreView { aliases: insert_keyword(v.aliases, id, trim(alias)), ..v }, Ok(()))
    }
}

/// The store after removing an alias.
pub open spec fn remove_alias_outcome(v: StoreView, id: Seq<char>, alias: Seq<char>) -> StoreView {
    StoreView { aliases: remove_keyword(v.aliases, id, trim(alias)), ..v }
}

/// The store and result of adding a custom tag.
pub open spec fn add_tag_outcome(v: StoreView, id: Seq<char>, tag: Seq<char>) -> (StoreView, Result<(), StoreError>) {
    if is_blank(tag) {
        (v, Err(StoreError::EmptyTag))
    } else {
        (StoreView { tags: insert_keyword(v.tags, id, trim(tag)), ..v }, Ok(()))
    }
}

/// The store after removing a custom tag.
pub open spec fn remove_tag_outcome(v: StoreView, id: Seq<char>, tag: Seq<char>) -> StoreView {
    StoreView { tags: remove_keyword(v.tags, id, trim(tag)), ..v }
}

/// The store and result of creating a collection.
pub open spec fn create_collection_outcome(v: StoreView, name: Seq<char>) -> (StoreView, Result<(), StoreError>) {
    if is_blank(name) {
        (v, Err(StoreError::EmptyCollectionName))
    } else {
        (StoreView { collections: add_marker(v.collections, trim(name)), ..v }, Ok(()))
    }
}

/// The store and result of adding an item to a collection.
pub open spec fn add_to_collection_outcome(v: StoreView, name: Seq<char>, item_id: Seq<char>) -> (StoreView, Result<(), StoreError>) {
    if is_blank(name) {
        (v, Err(StoreError::EmptyCollectionName))
    } else if is_blank(item_id) {
        (v, Err(StoreError::EmptyItemId))
    } else {
        let without = keep(v.collections, not_marker_of(name));
        match max_order(without, name) {
            Some(m) if m == i64::MAX => (StoreView { collections: without, ..v }, Err(StoreError::CounterOverflow)),
            Some(m) => (StoreView { collections: add_member(without, name, item_id, (m + 1) as i64), ..v }, Ok(())),
            None => (StoreView { collections: add_member(without, name, item_id, 0), ..v }, Ok(())),
        }
    }
}

/// The store and result of removing an item from a collection.
pub open spec fn remove_from_collection_outcome(v: StoreView, name: Seq<char>, item_id: Seq<char>) -> (StoreView, Result<(), StoreError>) {
    let without = keep(v.collections, not_membership(name, item_id));
    if first_index(without, in_collection(name)) is Some {
        (StoreView { collections: without, ..v }, Ok(()))
    } else if is_blank(name) {
        (StoreView { collections: without, ..v }, Err(StoreError::EmptyCollectionName))
    } else {
        (StoreView { collections: add_marker(without, trim(name)), ..v }, Ok(()))
    }
}

/// The store after deleting a collection.
pub open spec fn delete_collection_outcome(v: StoreView, name: Seq<char>) -> StoreView {
    StoreView { collections: keep(v.collections, outside_collection(name)), ..v }
}

/// The store and result of saving a workflow whose catalog entry carries `metadata`.
pub open spec fn save_workflow_outcome(v: StoreView, w: WorkflowView, metadata: serde_json::Value) -> (StoreView, Result<(), StoreError>) {
    match workflow_validation(w) {
        Err(e) => (v, Err(StoreError::InvalidWorkflow(e))),
        Ok(_) => (
            StoreView {
                workflows: upsert_workflow(v.workflows, w),
                catalog: upsert_item(v.catalog, workflow_item(w, metadata)),
                ..v
            },
            Ok(()),
        ),
    }
}

/// The store after deleting a workflow.
pub open spec fn delete_workflow_outcome(v: StoreView, id: Seq<char>) -> StoreView {
    StoreView {
        workflows: keep(v.workflows, workflow_other_id(id)),
        catalog: keep(v.catalog, item_other_id(workflow_item_id(id))),
        ..v
    }
}

/// The store and result of binding a hotkey.
pub open spec fn set_hotkey_outcome(v: StoreView, accelerator: Seq<char>, target: Seq<char>) -> (StoreView, Result<(), StoreError>) {
    if is_blank(accelerator) {
        (v, Err(StoreError::EmptyAccelerator))
    } else if is_blank(target) {
        (v, Err(StoreError::EmptyTargetId))
    } else {
        (StoreView { hotkeys: bind_hotkey(v.hotkeys, trim(accelerator), trim(target)), ..v }, Ok(()))
    }
}

/// The store after clearing a hotkey.
pub open spec fn clear_hotkey_outcome(v: StoreView, accelerator: Seq<char>) -> StoreView {
    StoreView { hotkeys: keep(v.hotkeys, other_accelerator(trim(accelerator))), ..v }
}

/// The store after one more use of `id` at `now` (or, when the count is
/// already at its largest, only with the preference row ensured).
pub open spec fn usage_outcome(v: StoreView, id: Seq<char>, now: i64) -> (StoreView, Result<(), StoreError>) {
    let ensured = ensure_preference(v.preferences, id);
    if preference_of(ensured, id)->0.usage_count >= i64::MAX {
        (StoreView { preferences: ensured, ..v }, Err(StoreError::CounterOverflow))
    } else {
        (StoreView { preferences: update_preference(v.preferences, id, with_use_at(now)), ..v }, Ok(()))
    }
}

// ---------------------------------------------------------------- persistence

impl Store {
    /// A store holding the given tables, as read back from disk.
    pub fn from_tables(
        catalog: Vec<CatalogItem>,
        preferences: Vec<Preference>,
        aliases: Vec<KeywordRow>,
        tags: Vec<KeywordRow>,
        collections: Vec<CollectionRow>,
        workflows: Vec<WorkflowDefinition>,
        hotkeys: Vec<HotkeyBinding>,
    ) -> (store: Store)
        ensures
            store@ == (StoreView {
                catalog: views_of(catalog@),
                preferences: views_of(preferences@),
                aliases: views_of(aliases@),
                tags: views_of(tags@),
                collections: views_of(collections@),
                workflows: views_of(workflows@),
                hotkeys: views_of(hotkeys@),
            }),
    {
        Store { catalog, preferences, aliases, tags, collections, workflows, hotkeys }
    }

    /// The catalog table, rows in order.
    pub fn catalog_rows(&self) -> (rows: &Vec<CatalogItem>)
        ensures
            views_of(rows@) == self@.catalog,
    {
        &self.catalog
    }

    /// The preference table, rows in order.
    pub fn preference_rows(&self) -> (rows: &Vec<Preference>)
        ensures
            views_of(rows@) == self@.preferences,
    {
        &self.preferences
    }

    /// The alias table, rows in order.
    pub fn alias_rows(&self) -> (rows: &Vec<KeywordRow>)
        ensures
            views_of(rows@) == self@.aliases,
    {
        &self.aliases
    }

    /// The custom tag table, rows in order.
    pub fn tag_rows(&self) -> (rows: &Vec<KeywordRow>)
        ensures
            views_of(rows@) == self@.tags,
    {
        &self.tags
    }

    /// The collection table, rows in order.
    pub fn collection_rows(&self) -> (rows: &Vec<CollectionRow>)
        ensures
            views_of(rows@) == self@.collections,
    {
        &self.collections
    }

    /// The workflow table, rows in order.
    pub fn workflow_rows(&self) -> (rows: &Vec<WorkflowDefinition>)
        ensures
            views_of(rows@) == self@.workflows,
    {
        &self.workflows
    }

    /// The hotkey table, rows in order.
    pub fn hotkey_rows(&self) -> (rows: &Vec<HotkeyBinding>)
        ensures
            views_of(rows@) == self@.hotkeys,
    {
        &self.hotkeys
    }
}

} // verus!
