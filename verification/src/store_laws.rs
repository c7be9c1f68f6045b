//! What the store promises across operations: a read gives back what a
//! write wrote, and a write to one key leaves the others alone.

use vstd::prelude::*;
use crate::protocol::{CatalogItemView, WorkflowView};
use crate::store::{
    add_to_collection_outcome, bind_hotkey, clear_hotkey_outcome, collection_items,
    delete_collection_outcome, delete_workflow_outcome, item_has_id, member_of, membership,
    not_marker_of, not_membership, other_accelerator, remove_from_collection_outcome,
    same_accelerator, save_workflow_outcome, set_hotkey_outcome, upsert_item, upsert_workflow,
    workflow_has_id, workflow_item, workflow_item_id, workflow_other_id, item_other_id,
    outside_collection, by_sort_order, add_member, max_order, CollectionRowView,
    add_alias_outcome, add_tag_outcome, contains_nocase, insert_keyword, keyword_of, keyword_texts,
    remove_alias_outcome, remove_keyword, remove_tag_outcome, same_keyword, stored_keywords,
    other_keyword, by_nocase, KeywordRowView,
    default_preference, ensure_preference, favorite_outcome, hydrated, pinned_outcome, pref_has_id,
    preference_of, update_preference, usage_outcome, with_favorite, with_pinned, with_use_at,
    PreferenceView, StoreView,
};
use crate::text::{is_blank, lemma_nocase_eq_equivalence, nocase_eq, trim};
use crate::tables::{
    keep, lemma_keep_contents, lemma_first_index_at, lemma_keep_excludes, lemma_upsert_first,
    lemma_keep_keep, lemma_keep_same, lemma_first_index_same_kept,
    upsert_first,
    first_index, lemma_first_index, lemma_first_index_push_other, lemma_first_index_update_other,
};

verus! {

/// The preference row of `id`, or the fresh one it would get.
pub open spec fn preference_or_default(prefs: Seq<PreferenceView>, id: Seq<char>) -> PreferenceView {
    match preference_of(prefs, id) {
        Some(p) => p,
        None => default_preference(id),
    }
}

/// Rewriting the row of `id` (by a change that keeps the id) makes the
/// rewritten row the one found for `id`, and leaves every other id's row as
/// it was.
proof fn lemma_update_preference(
    prefs: Seq<PreferenceView>,
    id: Seq<char>,
    f: spec_fn(PreferenceView) -> PreferenceView,
    other: Seq<char>,
)
    requires
        forall|p: PreferenceView| (#[trigger] f(p)).item_id == p.item_id,
    ensures
        preference_of(update_preference(prefs, id, f), id) == Some(f(preference_or_default(prefs, id))),
        other != id ==> preference_of(update_preference(prefs, id, f), other) == preference_of(prefs, other),
{
    lemma_first_index(prefs, pref_has_id(id));
    let ensured = ensure_preference(prefs, id);
    match first_index(prefs, pref_has_id(id)) {
        Some(i) => {
            assert(ensured == prefs);
        },
        None => {
            if other != id {
                lemma_first_index_push_other(prefs, default_preference(id), pref_has_id(other));
            }
            crate::tables::lemma_first_index_at(ensured, pref_has_id(id), prefs.len() as int);
        },
    }
    lemma_first_index(ensured, pref_has_id(id));
    let i = first_index(ensured, pref_has_id(id))->0;
    let updated = ensured.update(i, f(ensured[i]));
    assert(f(ensured[i]).item_id == id);
    assert forall|j: int| 0 <= j < i implies !pref_has_id(id)(#[trigger] updated[j]) by {
        assert(updated[j] == ensured[j]);
    }
    crate::tables::lemma_first_index_at(updated, pref_has_id(id), i);
    if other != id {
        lemma_first_index_update_other(ensured, i, f(ensured[i]), pref_has_id(other));
    }
}

/// Marking an item a favorite (or not) is what reading it back shows; no
/// other item's preferences change, and nothing but the preferences does.
pub proof fn lemma_favorite_read_back(v: StoreView, id: Seq<char>, favorite: bool, item: CatalogItemView, other: Seq<char>)
    ensures
        preference_of(favorite_outcome(v, id, favorite).preferences, id) matches Some(p) && p.favorite == favorite,
        item.id == id ==> hydrated(favorite_outcome(v, id, favorite), item).favorite == favorite,
        other != id ==> preference_of(favorite_outcome(v, id, favorite).preferences, other) == preference_of(
            v.preferences,
            other,
        ),
        favorite_outcome(v, id, favorite).catalog == v.catalog,
{
    lemma_update_preference(v.preferences, id, with_favorite(favorite), other);
}

/// Pinning an item (or not) is what reading it back shows; no other item's
/// preferences change, and nothing but the preferences does.
pub proof fn lemma_pinned_read_back(v: StoreView, id: Seq<char>, pinned: bool, item: CatalogItemView, other: Seq<char>)
    ensures
        preference_of(pinned_outcome(v, id, pinned).preferences, id) matches Some(p) && p.pinned == pinned,
        item.id == id ==> hydrated(pinned_outcome(v, id, pinned), item).pinned == pinned,
        other != id ==> preference_of(pinned_outcome(v, id, pinned).preferences, other) == preference_of(
            v.preferences,
            other,
        ),
        pinned_outcome(v, id, pinned).catalog == v.catalog,
{
    lemma_update_preference(v.preferences, id, with_pinned(pinned), other);
}

/// A recorded use counts one more use of that item, at that time, and
/// changes no other item's preferences.
pub proof fn lemma_usage_counts_once(v: StoreView, id: Seq<char>, now: i64, other: Seq<char>)
    requires
        usage_outcome(v, id, now).1 is Ok,
    ensures
        preference_of(usage_outcome(v, id, now).0.preferences, id) matches Some(p) && p.usage_count
            == preference_or_default(v.preferences, id).usage_count + 1 && p.last_used_at == Some(now),
        other != id ==> preference_of(usage_outcome(v, id, now).0.preferences, other) == preference_of(
            v.preferences,
            other,
        ),
{
    lemma_update_preference(v.preferences, id, with_use_at(now), other);
    lemma_first_index(v.preferences, pref_has_id(id));
    let ensured = ensure_preference(v.preferences, id);
    if first_index(v.preferences, pref_has_id(id)) is None {
        crate::tables::lemma_first_index_at(ensured, pref_has_id(id), v.preferences.len() as int);
    }
    assert(preference_of(ensured, id) == Some(preference_or_default(v.preferences, id)));
}

/// A keyword row of `id` whose text is `text` up to case shows among the
/// keywords stored for `id`.
proof fn lemma_keyword_listed(rows: Seq<KeywordRowView>, id: Seq<char>, text: Seq<char>, k: int)
    requires
        0 <= k < rows.len(),
        rows[k].item_id == id,
        nocase_eq(rows[k].text, text),
    ensures
        contains_nocase(stored_keywords(rows, id), text),
{
    broadcast use vstd::seq_lib::group_to_multiset_ensures;

    lemma_keep_contents(rows, keyword_of(id));
    let kept = keep(rows, keyword_of(id));
    assert(keyword_of(id)(rows[k]));
    assert(kept.contains(rows[k]));
    let m = choose|m: int| 0 <= m < kept.len() && kept[m] == rows[k];
    let texts = keyword_texts(kept);
    assert(texts[m] == rows[k].text);
    let stored = stored_keywords(rows, id);
    crate::sorting::lemma_sort_stable_permutes(texts, by_nocase());
    assert(texts.contains(texts[m]));
    assert(texts.to_multiset().count(texts[m]) > 0);
    assert(stored.contains(texts[m]));
    let n = choose|n: int| 0 <= n < stored.len() && stored[n] == texts[m];
    assert(nocase_eq(stored[n], text));
}

/// Every keyword stored for `id` comes from a row of `id`.
proof fn lemma_keyword_source(rows: Seq<KeywordRowView>, id: Seq<char>, n: int)
    requires
        0 <= n < stored_keywords(rows, id).len(),
    ensures
        exists|k: int| 0 <= k < rows.len() && rows[k].item_id == id && #[trigger] rows[k].text == stored_keywords(rows, id)[n],
{
    broadcast use vstd::seq_lib::group_to_multiset_ensures;

    lemma_keep_contents(rows, keyword_of(id));
    let kept = keep(rows, keyword_of(id));
    let texts = keyword_texts(kept);
    let stored = stored_keywords(rows, id);
    crate::sorting::lemma_sort_stable_permutes(texts, by_nocase());
    assert(stored.contains(stored[n]));
    assert(stored.to_multiset().count(stored[n]) > 0);
    assert(texts.contains(stored[n]));
    let m = choose|m: int| 0 <= m < texts.len() && texts[m] == stored[n];
    assert(keyword_of(id)(kept[m]) && rows.contains(kept[m]));
    let k = choose|k: int| 0 <= k < rows.len() && rows[k] == kept[m];
    assert(rows[k].text == stored[n]);
}

/// After adding `text` for `id`, it is among the keywords stored for `id`.
proof fn lemma_keyword_inserted(rows: Seq<KeywordRowView>, id: Seq<char>, text: Seq<char>)
    ensures
        contains_nocase(stored_keywords(insert_keyword(rows, id, text), id), text),
{
    lemma_first_index(rows, same_keyword(id, text));
    lemma_nocase_eq_equivalence(text, text, text);
    match first_index(rows, same_keyword(id, text)) {
        Some(k) => {
            lemma_keyword_listed(rows, id, text, k);
        },
        None => {
            let pushed = rows.push(KeywordRowView { item_id: id, text });
            lemma_keyword_listed(pushed, id, text, rows.len() as int);
        },
    }
}

/// After removing `text` for `id`, no keyword stored for `id` is `text` up to case.
proof fn lemma_keyword_removed(rows: Seq<KeywordRowView>, id: Seq<char>, text: Seq<char>)
    ensures
        !contains_nocase(stored_keywords(remove_keyword(rows, id, text), id), text),
{
    let after = remove_keyword(rows, id, text);
    let stored = stored_keywords(after, id);
    lemma_keep_contents(rows, other_keyword(id, text));
    if contains_nocase(stored, text) {
        let n = choose|n: int| 0 <= n < stored.len() && nocase_eq(#[trigger] stored[n], text);
        lemma_keyword_source(after, id, n);
        let k = choose|k: int| 0 <= k < after.len() && after[k].item_id == id && #[trigger] after[k].text == stored[n];
        assert(other_keyword(id, text)(after[k]));
    }
}

/// An alias is added exactly when it is not blank, and is then listed
/// (trimmed) among the item's aliases; once removed it is not listed.
pub proof fn lemma_alias_round_trip(v: StoreView, id: Seq<char>, alias: Seq<char>)
    ensures
        add_alias_outcome(v, id, alias).1 is Ok <==> !is_blank(alias),
        !is_blank(alias) ==> contains_nocase(stored_keywords(add_alias_outcome(v, id, alias).0.aliases, id), trim(alias)),
        !contains_nocase(stored_keywords(remove_alias_outcome(v, id, alias).aliases, id), trim(alias)),
{
    lemma_keyword_inserted(v.aliases, id, trim(alias));
    lemma_keyword_removed(v.aliases, id, trim(alias));
}

/// A custom tag is added exactly when it is not blank, and is then listed
/// (trimmed) among the item's tags; once removed it is not listed.
pub proof fn lemma_tag_round_trip(v: StoreView, id: Seq<char>, tag: Seq<char>)
    ensures
        add_tag_outcome(v, id, tag).1 is Ok <==> !is_blank(tag),
        !is_blank(tag) ==> contains_nocase(stored_keywords(add_tag_outcome(v, id, tag).0.tags, id), trim(tag)),
        !contains_nocase(stored_keywords(remove_tag_outcome(v, id, tag).tags, id), trim(tag)),
{
    lemma_keyword_inserted(v.tags, id, trim(tag));
    lemma_keyword_removed(v.tags, id, trim(tag));
}

/// Binding a hotkey succeeds exactly when the accelerator and the target are
/// not blank, and then the accelerator (trimmed, up to case) leads to the
/// target; once cleared it leads nowhere.
pub proof fn lemma_hotkey_round_trip(v: StoreView, accelerator: Seq<char>, target: Seq<char>)
    ensures
        set_hotkey_outcome(v, accelerator, target).1 is Ok <==> !is_blank(accelerator) && !is_blank(target),
        set_hotkey_outcome(v, accelerator, target).1 is Ok ==> (first_index(
            set_hotkey_outcome(v, accelerator, target).0.hotkeys,
            same_accelerator(trim(accelerator)),
        ) matches Some(i) && set_hotkey_outcome(v, accelerator, target).0.hotkeys[i].target_id == trim(target)),
        first_index(clear_hotkey_outcome(v, accelerator).hotkeys, same_accelerator(trim(accelerator))) is None,
{
    let a = trim(accelerator);
    let t = trim(target);
    let rows = v.hotkeys;
    lemma_first_index(rows, same_accelerator(a));
    let bound = bind_hotkey(rows, a, t);
    match first_index(rows, same_accelerator(a)) {
        Some(i) => {
            assert forall|j: int| 0 <= j < i implies !same_accelerator(a)(#[trigger] bound[j]) by {
                assert(bound[j] == rows[j]);
            }
            lemma_first_index_at(bound, same_accelerator(a), i);
        },
        None => {
            lemma_nocase_eq_equivalence(a, a, a);
            assert forall|j: int| 0 <= j < rows.len() implies !same_accelerator(a)(#[trigger] bound[j]) by {
                assert(bound[j] == rows[j]);
            }
            lemma_first_index_at(bound, same_accelerator(a), rows.len() as int);
        },
    }
    lemma_keep_excludes(rows, other_accelerator(a), same_accelerator(a));
}

/// Saving a valid workflow makes it the workflow found under its id and
/// puts its searchable entry in the catalog; an invalid one is refused.
/// Deleting a workflow removes both.
pub proof fn lemma_workflow_round_trip(v: StoreView, w: WorkflowView, metadata: serde_json::Value, id: Seq<char>)
    ensures
        save_workflow_outcome(v, w, metadata).1 is Ok <==> crate::workflow::workflow_validation(w) is Ok,
        save_workflow_outcome(v, w, metadata).1 is Ok ==> (first_index(
            save_workflow_outcome(v, w, metadata).0.workflows,
            workflow_has_id(w.id),
        ) matches Some(i) && save_workflow_outcome(v, w, metadata).0.workflows[i] == w),
        save_workflow_outcome(v, w, metadata).1 is Ok ==> (first_index(
            save_workflow_outcome(v, w, metadata).0.catalog,
            item_has_id(workflow_item_id(w.id)),
        ) matches Some(j) && save_workflow_outcome(v, w, metadata).0.catalog[j] == workflow_item(w, metadata)),
        first_index(delete_workflow_outcome(v, id).workflows, workflow_has_id(id)) is None,
        first_index(delete_workflow_outcome(v, id).catalog, item_has_id(workflow_item_id(id))) is None,
{
    assert(upsert_workflow(v.workflows, w) == upsert_first(v.workflows, workflow_has_id(w.id), w));
    lemma_upsert_first(v.workflows, workflow_has_id(w.id), w);
    let entry = workflow_item(w, metadata);
    assert(upsert_item(v.catalog, entry) == upsert_first(v.catalog, item_has_id(entry.id), entry));
    lemma_upsert_first(v.catalog, item_has_id(entry.id), entry);
    lemma_keep_excludes(v.workflows, workflow_other_id(id), workflow_has_id(id));
    lemma_keep_excludes(v.catalog, item_other_id(workflow_item_id(id)), item_has_id(workflow_item_id(id)));
}

/// Deleting a workflow leaves the workflows of every other id as they were,
/// and the catalog entries of every id but the deleted workflow's own
/// entry: the same ones, in the same order, and the same one found first;
/// the rest of the store is unchanged.
pub proof fn lemma_delete_workflow_keeps_others(v: StoreView, id: Seq<char>, other: Seq<char>, other_item: Seq<char>)
    requires
        other != id,
        other_item != workflow_item_id(id),
    ensures
        keep(delete_workflow_outcome(v, id).workflows, workflow_has_id(other)) == keep(
            v.workflows,
            workflow_has_id(other),
        ),
        match first_index(v.workflows, workflow_has_id(other)) {
            Some(i) => first_index(delete_workflow_outcome(v, id).workflows, workflow_has_id(other)) matches Some(j)
                && delete_workflow_outcome(v, id).workflows[j] == v.workflows[i],
            None => first_index(delete_workflow_outcome(v, id).workflows, workflow_has_id(other)) is None,
        },
        keep(delete_workflow_outcome(v, id).catalog, item_has_id(other_item)) == keep(
            v.catalog,
            item_has_id(other_item),
        ),
        match first_index(v.catalog, item_has_id(other_item)) {
            Some(i) => first_index(delete_workflow_outcome(v, id).catalog, item_has_id(other_item)) matches Some(j)
                && delete_workflow_outcome(v, id).catalog[j] == v.catalog[i],
            None => first_index(delete_workflow_outcome(v, id).catalog, item_has_id(other_item)) is None,
        },
        (StoreView { workflows: v.workflows, catalog: v.catalog, ..delete_workflow_outcome(v, id) }) == v,
{
    let after = delete_workflow_outcome(v, id);
    lemma_keep_keep(v.workflows, workflow_other_id(id), workflow_has_id(other));
    lemma_keep_same(
        v.workflows,
        |w: WorkflowView| workflow_other_id(id)(w) && workflow_has_id(other)(w),
        workflow_has_id(other),
    );
    lemma_first_index_same_kept(v.workflows, after.workflows, workflow_has_id(other));
    lemma_keep_keep(v.catalog, item_other_id(workflow_item_id(id)), item_has_id(other_item));
    lemma_keep_same(
        v.catalog,
        |c: CatalogItemView| item_other_id(workflow_item_id(id))(c) && item_has_id(other_item)(c),
        item_has_id(other_item),
    );
    lemma_first_index_same_kept(v.catalog, after.catalog, item_has_id(other_item));
}

/// Upserting an item makes it the item found under its id, and leaves the
/// item found under any other id as it was.
pub proof fn lemma_upsert_item_read_back(catalog: Seq<CatalogItemView>, item: CatalogItemView, other: Seq<char>)
    ensures
        first_index(upsert_item(catalog, item), item_has_id(item.id)) matches Some(k) && upsert_item(
            catalog,
            item,
        )[k] == item,
        other != item.id ==> first_index(upsert_item(catalog, item), item_has_id(other)) == first_index(
            catalog,
            item_has_id(other),
        ),
        other != item.id ==> (first_index(catalog, item_has_id(other)) matches Some(k) ==> upsert_item(
            catalog,
            item,
        )[k] == catalog[k]),
{
    assert(upsert_item(catalog, item) == upsert_first(catalog, item_has_id(item.id), item));
    lemma_upsert_first(catalog, item_has_id(item.id), item);
    lemma_first_index(catalog, item_has_id(item.id));
    if other != item.id {
        match first_index(catalog, item_has_id(item.id)) {
            Some(i) => lemma_first_index_update_other(catalog, i, item, item_has_id(other)),
            None => lemma_first_index_push_other(catalog, item, item_has_id(other)),
        }
    }
}

/// A row that is an item of collection `name` is listed among its items.
proof fn lemma_member_listed(rows: Seq<CollectionRowView>, name: Seq<char>, k: int)
    requires
        0 <= k < rows.len(),
        member_of(name)(rows[k]),
    ensures
        collection_items(rows, name).contains(rows[k].item_id),
{
    broadcast use vstd::seq_lib::group_to_multiset_ensures;

    lemma_keep_contents(rows, member_of(name));
    let kept = keep(rows, member_of(name));
    assert(kept.contains(rows[k]));
    let sorted = crate::sorting::sort_stable(kept, by_sort_order());
    crate::sorting::lemma_sort_stable_permutes(kept, by_sort_order());
    assert(kept.to_multiset().count(rows[k]) > 0);
    assert(sorted.contains(rows[k]));
    let n = choose|n: int| 0 <= n < sorted.len() && sorted[n] == rows[k];
    assert(collection_items(rows, name)[n] == rows[k].item_id);
}

/// Every item listed in collection `name` comes from a row that is an item of it.
proof fn lemma_member_source(rows: Seq<CollectionRowView>, name: Seq<char>, n: int)
    requires
        0 <= n < collection_items(rows, name).len(),
    ensures
        exists|k: int| 0 <= k < rows.len() && member_of(name)(rows[k]) && #[trigger] rows[k].item_id
            == collection_items(rows, name)[n],
{
    broadcast use vstd::seq_lib::group_to_multiset_ensures;

    lemma_keep_contents(rows, member_of(name));
    let kept = keep(rows, member_of(name));
    let sorted = crate::sorting::sort_stable(kept, by_sort_order());
    crate::sorting::lemma_sort_stable_permutes(kept, by_sort_order());
    let r = sorted[n];
    assert(sorted.contains(r));
    assert(sorted.to_multiset().count(r) > 0);
    assert(kept.contains(r));
    let m = choose|m: int| 0 <= m < kept.len() && kept[m] == r;
    assert(member_of(name)(kept[m]) && rows.contains(kept[m]));
    let k = choose|k: int| 0 <= k < rows.len() && rows[k] == kept[m];
    assert(rows[k].item_id == collection_items(rows, name)[n]);
}

/// Adding an item to a collection lists it there; removing it from the
/// collection unlists it; deleting the collection leaves it with no items.
pub proof fn lemma_collection_round_trip(v: StoreView, name: Seq<char>, item_id: Seq<char>)
    ensures
        add_to_collection_outcome(v, name, item_id).1 is Ok ==> collection_items(
            add_to_collection_outcome(v, name, item_id).0.collections,
            name,
        ).contains(item_id),
        !collection_items(remove_from_collection_outcome(v, name, item_id).0.collections, name).contains(item_id),
        collection_items(delete_collection_outcome(v, name).collections, name).len() == 0,
{
    let rows = v.collections;
    // adding
    if add_to_collection_outcome(v, name, item_id).1 is Ok {
        let without = keep(rows, not_marker_of(name));
        let order: i64 = match max_order(without, name) {
            Some(m) => (m + 1) as i64,
            None => 0,
        };
        let added = add_member(without, name, item_id, order);
        assert(add_to_collection_outcome(v, name, item_id).0.collections == added);
        assert(item_id.len() > 0) by {
            let w = choose|i: int| 0 <= i < item_id.len() && !crate::text::is_white_space(#[trigger] item_id[i]);
        }
        lemma_first_index(without, membership(name, item_id));
        match first_index(without, membership(name, item_id)) {
            Some(k) => {
                lemma_member_listed(without, name, k);
            },
            None => {
                lemma_nocase_eq_equivalence(name, name, name);
                let pushed = without.push(CollectionRowView { name, item_id, sort_order: order });
                lemma_member_listed(pushed, name, without.len() as int);
            },
        }
    }
    // removing
    let without = keep(rows, not_membership(name, item_id));
    let after = remove_from_collection_outcome(v, name, item_id).0.collections;
    lemma_keep_contents(rows, not_membership(name, item_id));
    if collection_items(after, name).contains(item_id) {
        let n = choose|n: int| 0 <= n < collection_items(after, name).len() && collection_items(after, name)[n] == item_id;
        lemma_member_source(after, name, n);
        let k = choose|k: int| 0 <= k < after.len() && member_of(name)(after[k]) && #[trigger] after[k].item_id
            == collection_items(after, name)[n];
        if k < without.len() {
            assert(after[k] == without[k]);
            assert(not_membership(name, item_id)(without[k]));
        }
    }
    // deleting
    let gone = keep(rows, outside_collection(name));
    lemma_keep_contents(rows, outside_collection(name));
    if collection_items(gone, name).len() > 0 {
        lemma_member_source(gone, name, 0);
        let k = choose|k: int| 0 <= k < gone.len() && member_of(name)(gone[k]) && #[trigger] gone[k].item_id
            == collection_items(gone, name)[0];
        assert(outside_collection(name)(gone[k]));
    }
}

} // verus!
