//! What the command bar shows: the labels of placements, kinds and sources,
//! the order in which Tab cycles placements, how search results are filtered
//! by the settings and grouped under headings, and what each result row
//! says.  What keys and replies do to the palette is in `palette`.

use vstd::prelude::*;
use crate::protocol::{
    lemma_views_of_push, strings_view, views_of, CatalogItem, CatalogItemView, InsertionPosition,
    ItemKind, ItemSource,
};
use crate::settings::{group_for_kind, group_label, group_order, visible, ContentGroup, PaletteSettings};
use crate::sorting::{lemma_insert_stable_at, sort_stable};
use crate::tables::{keep, lemma_keep_step};
use crate::text::{concat_str, nocase_eq, to_uppercase, unicode_uppercase};

verus! {

/// How many ranked results a search asks for.
pub const RESULT_LIMIT: usize = 200;

/// The label shown for a placement.
pub open spec fn placement_text(position: InsertionPosition) -> Seq<char> {
    match position {
        InsertionPosition::Beginning => "Beginning"@,
        InsertionPosition::BeforeSelected => "Before selected"@,
        InsertionPosition::AfterSelected => "After selected"@,
        InsertionPosition::End => "End"@,
    }
}

/// The label shown for a placement.
pub fn placement_label(position: &InsertionPosition) -> (label: &'static str)
    ensures
        label@ == placement_text(*position),
{
    match position {
        InsertionPosition::Beginning => {
            proof { reveal_strlit("Beginning"); }
            "Beginning"
        },
        InsertionPosition::BeforeSelected => {
            proof { reveal_strlit("Before selected"); }
            "Before selected"
        },
        InsertionPosition::AfterSelected => {
            proof { reveal_strlit("After selected"); }
            "After selected"
        },
        InsertionPosition::End => {
            proof { reveal_strlit("End"); }
            "End"
        },
    }
}

/// The compact label shown beside a result of a kind.
pub open spec fn kind_text(kind: ItemKind) -> Seq<char> {
    match kind {
        ItemKind::NativeDevice => "DEVICE"@,
        ItemKind::Plugin => "PLUG-IN"@,
        ItemKind::Preset => "PRESET"@,
        ItemKind::Rack => "RACK"@,
        ItemKind::MaxDevice => "MAX"@,
        ItemKind::Sample => "SAMPLE"@,
        ItemKind::Loop => "LOOP"@,
        ItemKind::Command => "COMMAND"@,
        ItemKind::Workflow => "WORKFLOW"@,
        ItemKind::Unknown => "ITEM"@,
    }
}

/// The compact label shown beside a result of a kind.
pub fn kind_label(kind: &ItemKind) -> (label: &'static str)
    ensures
        label@ == kind_text(*kind),
{
    match kind {
        ItemKind::NativeDevice => {
            proof { reveal_strlit("DEVICE"); }
            "DEVICE"
        },
        ItemKind::Plugin => {
            proof { reveal_strlit("PLUG-IN"); }
            "PLUG-IN"
        },
        ItemKind::Preset => {
            proof { reveal_strlit("PRESET"); }
            "PRESET"
        },
        ItemKind::Rack => {
            proof { reveal_strlit("RACK"); }
            "RACK"
        },
        ItemKind::MaxDevice => {
            proof { reveal_strlit("MAX"); }
            "MAX"
        },
        ItemKind::Sample => {
            proof { reveal_strlit("SAMPLE"); }
            "SAMPLE"
        },
        ItemKind::Loop => {
            proof { reveal_strlit("LOOP"); }
            "LOOP"
        },
        ItemKind::Command => {
            proof { reveal_strlit("COMMAND"); }
            "COMMAND"
        },
        ItemKind::Workflow => {
            proof { reveal_strlit("WORKFLOW"); }
            "WORKFLOW"
        },
        ItemKind::Unknown => {
            proof { reveal_strlit("ITEM"); }
            "ITEM"
        },
    }
}

/// The label shown for where a result comes from.
pub open spec fn source_text(source: ItemSource) -> Seq<char> {
    match source {
        ItemSource::LiveBrowser => "BROWSER"@,
        ItemSource::LiveDatabase => "LIVE INDEX"@,
        ItemSource::OfficialExtension => "EXTENSION"@,
        ItemSource::User => "USER"@,
        ItemSource::BuiltIn => "BUILT-IN"@,
    }
}

/// The label shown for where a result comes from.
pub fn source_label(source: &ItemSource) -> (label: &'static str)
    ensures
        label@ == source_text(*source),
{
    match source {
        ItemSource::LiveBrowser => {
            proof { reveal_strlit("BROWSER"); }
            "BROWSER"
        },
        ItemSource::LiveDatabase => {
            proof { reveal_strlit("LIVE INDEX"); }
            "LIVE INDEX"
        },
        ItemSource::OfficialExtension => {
            proof { reveal_strlit("EXTENSION"); }
            "EXTENSION"
        },
        ItemSource::User => {
            proof { reveal_strlit("USER"); }
            "USER"
        },
        ItemSource::BuiltIn => {
            proof { reveal_strlit("BUILT-IN"); }
            "BUILT-IN"
        },
    }
}

/// An error's text as the footer shows it: `Command failed` when it is empty.
pub fn short_error(message: String) -> (text: String)
    ensures
        message@.len() == 0 ==> text@ == "Command failed"@,
        message@.len() > 0 ==> text@ == message@,
{
    if message.as_str().is_empty() {
        String::from_str("Command failed")
    } else {
        message
    }
}

/// The placements in Tab order.
pub open spec fn placements() -> Seq<InsertionPosition> {
    seq![
        InsertionPosition::Beginning,
        InsertionPosition::BeforeSelected,
        InsertionPosition::AfterSelected,
        InsertionPosition::End,
    ]
}

/// The position of a placement in Tab order.
pub open spec fn placement_index(position: InsertionPosition) -> int {
    match position {
        InsertionPosition::Beginning => 0,
        InsertionPosition::BeforeSelected => 1,
        InsertionPosition::AfterSelected => 2,
        InsertionPosition::End => 3,
    }
}

/// The next placement in Tab order (the previous one with Shift), wrapping.
pub open spec fn cycled(position: InsertionPosition, reverse: bool) -> InsertionPosition {
    let i = placement_index(position);
    placements()[if reverse { (i + 3) % 4 } else { (i + 1) % 4 }]
}

/// The next placement in Tab order (the previous one with Shift), wrapping.
pub fn cycle_placement(position: InsertionPosition, reverse: bool) -> (next: InsertionPosition)
    ensures
        next == cycled(position, reverse),
{
    let current: usize = match position {
        InsertionPosition::Beginning => 0,
        InsertionPosition::BeforeSelected => 1,
        InsertionPosition::AfterSelected => 2,
        InsertionPosition::End => 3,
    };
    let next = if reverse { (current + 4 - 1) % 4 } else { (current + 1) % 4 };
    match next {
        0 => InsertionPosition::Beginning,
        1 => InsertionPosition::BeforeSelected,
        2 => InsertionPosition::AfterSelected,
        _ => InsertionPosition::End,
    }
}

/// Cycling forward and back (or back and forward) returns to the start.
pub proof fn lemma_cycle_round_trip(position: InsertionPosition, reverse: bool)
    ensures
        cycled(cycled(position, reverse), !reverse) == position,
{
}

/// Four presses of Tab visit every placement and return to the start.
pub proof fn lemma_cycle_has_period_four(position: InsertionPosition, reverse: bool)
    ensures
        cycled(cycled(cycled(cycled(position, reverse), reverse), reverse), reverse) == position,
{
}

// ------------------------------------------------------- result grouping

/// Whether an item's group is shown under the settings.
pub open spec fn shown_under(settings: PaletteSettings) -> spec_fn(CatalogItemView) -> bool {
    |item: CatalogItemView| visible(settings.visibility, group_for_kind(item.kind))
}

/// Results ordered by group, keeping the ranked order within each group.
pub open spec fn by_group() -> spec_fn(CatalogItemView, CatalogItemView) -> bool {
    |a: CatalogItemView, b: CatalogItemView| group_order(group_for_kind(a.kind)) < group_order(
        group_for_kind(b.kind),
    )
}

/// The results the command bar shows for ranked `items`: hidden groups
/// dropped, the rest grouped in group order, ranked order kept inside groups.
pub open spec fn shown_results(items: Seq<CatalogItemView>, settings: PaletteSettings) -> Seq<CatalogItemView> {
    sort_stable(keep(items, shown_under(settings)), by_group())
}

/// How many group headings the first `n` results need.
pub open spec fn headings(results: Seq<CatalogItemView>, n: int) -> int
    decreases n,
{
    if n <= 0 || results.len() == 0 {
        0
    } else if n > results.len() {
        headings(results, results.len() as int)
    } else if n == 1 || group_for_kind(results[n - 1].kind) != group_for_kind(results[n - 2].kind) {
        headings(results, n - 1) + 1
    } else {
        headings(results, n - 1)
    }
}

/// The heading shown above a group of results: the group's label in
/// uppercase.
pub fn group_heading(group: ContentGroup) -> (heading: String)
    ensures
        heading@ == unicode_uppercase(group_label(group)),
{
    to_uppercase(group.label())
}

/// Groups and filters ranked results as the command bar shows them.
pub fn group_results(items: Vec<CatalogItem>, settings: &PaletteSettings) -> (shown: Vec<CatalogItem>)
    ensures
        views_of(shown@) == shown_results(views_of(items@), *settings),
{
    let ghost all = views_of(items@);
    let mut kept: Vec<CatalogItem> = Vec::new();
    for i in 0..items.len()
        invariant
            all == views_of(items@),
            views_of(kept@) == keep(all.take(i as int), shown_under(*settings)),
    {
        proof {
            lemma_keep_step(all, shown_under(*settings), i as int);
            assert(all[i as int] == items@[i as int]@);
        }
        let group = ContentGroup::for_kind(&items[i].kind);
        if settings.visibility.is_visible(group) {
            let ghost before = kept@;
            let item = items[i].duplicate();
            kept.push(item);
            proof { lemma_views_of_push(before, item); }
        }
    }
    proof { assert(all.take(all.len() as int) == all); }
    let ghost chosen = views_of(kept@);
    let mut sorted: Vec<CatalogItem> = Vec::new();
    for i in 0..kept.len()
        invariant
            chosen == views_of(kept@),
            views_of(sorted@) == sort_stable(chosen.take(i as int), by_group()),
    {
        let x = kept[i].duplicate();
        let x_order = ContentGroup::for_kind(&x.kind).order();
        let mut j = sorted.len();
        while j > 0 && x_order < ContentGroup::for_kind(&sorted[j - 1].kind).order()
            invariant
                j <= sorted@.len(),
                x_order == group_order(group_for_kind(x@.kind)),
                forall|k: int| j <= k < sorted@.len() ==> by_group()(x@, #[trigger] sorted@[k]@),
            decreases j,
        {
            j -= 1;
        }
        proof {
            let vs = views_of(sorted@);
            assert forall|k: int| j <= k < vs.len() implies by_group()(x@, #[trigger] vs[k]) by {
                assert(vs[k] == sorted@[k]@);
            }
            if j > 0 {
                assert(vs[j - 1] == sorted@[j - 1]@);
            }
            lemma_insert_stable_at(vs, x@, by_group(), j as int);
            assert(chosen.take(i + 1).drop_last() =~= chosen.take(i as int));
            assert(chosen.take(i + 1).last() == kept@[i as int]@);
        }
        let ghost before = sorted@;
        sorted.insert(j, x);
        proof { assert(views_of(sorted@) =~= views_of(before).insert(j as int, x@)); }
    }
    proof { assert(chosen.take(chosen.len() as int) == chosen); }
    sorted
}

/// The position among the result list's children (headings included) of
/// result `index`.
pub fn result_child_index(results: &Vec<CatalogItem>, index: usize) -> (child: usize)
    requires
        index < results@.len(),
        results@.len() <= usize::MAX / 2,
    ensures
        child == index + headings(views_of(results@), index + 1),
{
    let ghost all = views_of(results@);
    let mut count: usize = 0;
    let mut prior: Option<ContentGroup> = None;
    let mut k: usize = 0;
    while k <= index
        invariant
            all == views_of(results@),
            index < all.len(),
            all.len() <= usize::MAX / 2,
            k <= index + 1,
            count == headings(all, k as int),
            count <= k,
            k > 0 ==> prior == Some(group_for_kind(all[k - 1].kind)),
            k == 0 ==> prior is None,
        decreases index + 1 - k,
    {
        proof { assert(all[k as int] == results@[k as int]@); }
        let group = ContentGroup::for_kind(&results[k].kind);
        if prior != Some(group) {
            count += 1;
            prior = Some(group);
        }
        k += 1;
    }
    index + count
}

// ------------------------------------------------------- result rows

/// `parts` joined with `sep` between each two, as `join` writes them.
pub open spec fn joined(parts: Seq<Seq<char>>, sep: Seq<char>) -> Seq<char>
    decreases parts.len(),
{
    if parts.len() == 0 {
        Seq::empty()
    } else if parts.len() == 1 {
        parts[0]
    } else {
        joined(parts.drop_last(), sep) + sep + parts.last()
    }
}

/// `parts[0..count]` joined with `sep`.
pub fn join_strings(parts: &Vec<String>, count: usize, sep: &str) -> (text: String)
    requires
        count <= parts@.len(),
    ensures
        text@ == joined(strings_view(parts@).take(count as int), sep@),
{
    let ghost all = strings_view(parts@);
    let mut text = String::new();
    let mut i: usize = 0;
    while i < count
        invariant
            i <= count <= parts@.len(),
            all == strings_view(parts@),
            text@ == joined(all.take(i as int), sep@),
        decreases count - i,
    {
        proof {
            assert(all.take(i + 1).drop_last() =~= all.take(i as int));
            assert(all.take(i + 1).last() == parts@[i as int]@);
        }
        if i == 0 {
            text = parts[0].clone();
            proof { assert(all.take(1)[0] == parts@[0]@); }
        } else {
            let with_sep = concat_str(text.as_str(), sep);
            text = concat_str(with_sep.as_str(), parts[i].as_str());
        }
        i += 1;
    }
    text
}

/// The separator between the steps of a Browser path.
pub open spec fn path_separator() -> Seq<char> {
    "  \u{203a}  "@
}

/// Where a result sits, as its row shows: its Browser folders (the path
/// without the item itself), or its categories when the path has no folder.
pub open spec fn path_text(item: CatalogItemView) -> Seq<char> {
    if item.browser_path.len() > 1 {
        joined(item.browser_path.take(item.browser_path.len() - 1), path_separator())
    } else {
        joined(item.categories, path_separator())
    }
}

/// Where a result sits, as its row shows it.
pub fn result_path(item: &CatalogItem) -> (text: String)
    ensures
        text@ == path_text(item@),
{
    proof { reveal_strlit("  \u{203a}  "); }
    if item.browser_path.len() > 1 {
        join_strings(&item.browser_path, item.browser_path.len() - 1, "  \u{203a}  ")
    } else {
        let text = join_strings(&item.categories, item.categories.len(), "  \u{203a}  ");
        proof { assert(strings_view(item.categories@).take(item.categories@.len() as int) =~= strings_view(item.categories@)); }
        text
    }
}

/// The small print of a result's row: its marks (pinned, favorite) and its
/// kind, or its kind and source when it has no mark.
pub open spec fn detail_text(item: CatalogItemView) -> Seq<char> {
    let dot = " \u{b7} "@;
    if item.pinned && item.favorite {
        "PINNED"@ + dot + "FAVORITE"@ + dot + kind_text(item.kind)
    } else if item.pinned {
        "PINNED"@ + dot + kind_text(item.kind)
    } else if item.favorite {
        "FAVORITE"@ + dot + kind_text(item.kind)
    } else {
        kind_text(item.kind) + dot + source_text(item.source)
    }
}

/// The small print of a result's row.
pub fn result_detail(item: &CatalogItem) -> (text: String)
    ensures
        text@ == detail_text(item@),
{
    proof {
        reveal_strlit(" \u{b7} ");
        reveal_strlit("PINNED \u{b7} ");
        reveal_strlit("FAVORITE \u{b7} ");
        reveal_strlit("PINNED \u{b7} FAVORITE \u{b7} ");
    }
    let kind = kind_label(&item.kind);
    if item.pinned && item.favorite {
        let s = concat_str("PINNED \u{b7} FAVORITE \u{b7} ", kind);
        proof { assert(s@ =~= "PINNED"@ + " \u{b7} "@ + "FAVORITE"@ + " \u{b7} "@ + kind_text(item.kind)) by { reveal_strlit("PINNED"); reveal_strlit("FAVORITE"); } }
        s
    } else if item.pinned {
        let s = concat_str("PINNED \u{b7} ", kind);
        proof { assert(s@ =~= "PINNED"@ + " \u{b7} "@ + kind_text(item.kind)) by { reveal_strlit("PINNED"); } }
        s
    } else if item.favorite {
        let s = concat_str("FAVORITE \u{b7} ", kind);
        proof { assert(s@ =~= "FAVORITE"@ + " \u{b7} "@ + kind_text(item.kind)) by { reveal_strlit("FAVORITE"); } }
        s
    } else {
        let head = concat_str(kind, " \u{b7} ");
        concat_str(head.as_str(), source_label(&item.source))
    }
}

// ------------------------------------------------------- grouping laws

/// Whether a result belongs to `group`.
pub open spec fn in_group(group: ContentGroup) -> spec_fn(CatalogItemView) -> bool {
    |item: CatalogItemView| group_for_kind(item.kind) == group
}

/// The heading position of a result's group, as an integer.
pub open spec fn group_key() -> spec_fn(CatalogItemView) -> int {
    |item: CatalogItemView| group_order(group_for_kind(item.kind)) as int
}

/// Results are grouped by content type, and the ranking survives within
/// each group: the shown results come in group order, every one of them is
/// of a visible group, and the results of a visible group appear in the
/// order the ranking gave them, none missing, while those of a hidden group
/// do not appear at all.
pub proof fn lemma_shown_results_grouped(items: Seq<CatalogItemView>, settings: PaletteSettings, group: ContentGroup)
    ensures
        forall|i: int, j: int|
            0 <= i < j < shown_results(items, settings).len() ==> group_order(
                group_for_kind(#[trigger] shown_results(items, settings)[i].kind),
            ) <= group_order(group_for_kind(#[trigger] shown_results(items, settings)[j].kind)),
        forall|i: int|
            0 <= i < shown_results(items, settings).len() ==> visible(
                settings.visibility,
                group_for_kind(#[trigger] shown_results(items, settings)[i].kind),
            ),
        visible(settings.visibility, group) ==> keep(shown_results(items, settings), in_group(group))
            == keep(items, in_group(group)),
        !visible(settings.visibility, group) ==> keep(shown_results(items, settings), in_group(group)).len()
            == 0,
{
    broadcast use vstd::seq_lib::group_to_multiset_ensures;

    let kept = keep(items, shown_under(settings));
    let shown = shown_results(items, settings);
    let key = group_key();
    assert(crate::sorting::respects_key(by_group(), key));
    assert(crate::sorting::is_key_order(by_group(), key));
    crate::sorting::lemma_sort_stable_sorted(kept, by_group(), key);
    assert forall|i: int, j: int| 0 <= i < j < shown.len() implies group_order(
        group_for_kind(#[trigger] shown[i].kind),
    ) <= group_order(group_for_kind(#[trigger] shown[j].kind)) by {
        assert(key(shown[i]) <= key(shown[j]));
    }
    crate::sorting::lemma_sort_stable_permutes(kept, by_group());
    crate::tables::lemma_keep_contents(items, shown_under(settings));
    assert forall|i: int| 0 <= i < shown.len() implies visible(
        settings.visibility,
        group_for_kind(#[trigger] shown[i].kind),
    ) by {
        let y = shown[i];
        assert(shown.contains(y));
        assert(shown.to_multiset().count(y) > 0);
        assert(kept.contains(y));
        let m = choose|m: int| 0 <= m < kept.len() && kept[m] == y;
        assert(shown_under(settings)(kept[m]));
    }
    let k = group_order(group) as int;
    crate::sorting::lemma_sort_stable_keep(kept, by_group(), key, k);
    assert forall|x: CatalogItemView| #[trigger] in_group(group)(x) == crate::sorting::has_key(key, k)(x) by {
        crate::settings::lemma_group_order_injective(group_for_kind(x.kind), group);
    }
    crate::tables::lemma_keep_same(shown, in_group(group), crate::sorting::has_key(key, k));
    crate::tables::lemma_keep_same(kept, in_group(group), crate::sorting::has_key(key, k));
    crate::tables::lemma_keep_keep(items, shown_under(settings), in_group(group));
    let both = |x: CatalogItemView| shown_under(settings)(x) && in_group(group)(x);
    if visible(settings.visibility, group) {
        assert forall|x: CatalogItemView| #[trigger] both(x) == in_group(group)(x) by {}
        crate::tables::lemma_keep_same(items, both, in_group(group));
    } else {
        assert forall|x: CatalogItemView| !#[trigger] both(x) by {}
        crate::tables::lemma_keep_none(items, both);
    }
}

/// Each result adds at most one heading, and never removes one.
proof fn lemma_headings_step(results: Seq<CatalogItemView>, k: int)
    requires
        0 <= k < results.len(),
    ensures
        headings(results, k) <= headings(results, k + 1) <= headings(results, k) + 1,
{
}

/// The headings of a longer prefix are at least those of a shorter one.
proof fn lemma_headings_monotone(results: Seq<CatalogItemView>, a: int, b: int)
    requires
        0 <= a <= b <= results.len(),
    ensures
        headings(results, a) <= headings(results, b),
    decreases b - a,
{
    if a < b {
        lemma_headings_monotone(results, a, b - 1);
        lemma_headings_step(results, b - 1);
    }
}

/// Scrolling to a result reaches a row of the list: the result's row lies
/// below at least one heading and within the list's rows (results and
/// headings together).
pub proof fn lemma_scroll_target_in_list(results: Seq<CatalogItemView>, index: int)
    requires
        0 <= index < results.len(),
    ensures
        1 <= index + headings(results, index + 1) < results.len() + headings(results, results.len() as int),
{
    lemma_headings_monotone(results, 1, index + 1);
    lemma_headings_monotone(results, index + 1, results.len() as int);
    assert(headings(results, 0) == 0);
    assert(headings(results, 1) == 1);
}

} // verus!

verus! {

/// Distinct kinds of items are listed in distinct groups.
pub proof fn lemma_groups_tell_kinds_apart(a: ItemKind, b: ItemKind)
    ensures
        group_for_kind(a) == group_for_kind(b) ==> a == b,
{
}

/// Each kind of item is listed under the heading that names it: the
/// group's label starts, ignoring case, with the label shown beside an item
/// of that kind.  Items of no known kind (labelled `ITEM`) go under `Other`.
pub proof fn lemma_kind_under_its_heading(kind: ItemKind)
    ensures
        kind != ItemKind::Unknown ==> kind_text(kind).len() <= group_label(group_for_kind(kind)).len()
            && nocase_eq(group_label(group_for_kind(kind)).take(kind_text(kind).len() as int), kind_text(kind)),
        kind == ItemKind::Unknown ==> group_for_kind(kind) == ContentGroup::Other,
{
    match kind {
        ItemKind::NativeDevice => {
            reveal_strlit("Devices");
            reveal_strlit("DEVICE");
        },
        ItemKind::Plugin => {
            reveal_strlit("Plug-ins");
            reveal_strlit("PLUG-IN");
        },
        ItemKind::Preset => {
            reveal_strlit("Presets");
            reveal_strlit("PRESET");
        },
        ItemKind::Rack => {
            reveal_strlit("Racks");
            reveal_strlit("RACK");
        },
        ItemKind::MaxDevice => {
            reveal_strlit("Max for Live");
            reveal_strlit("MAX");
        },
        ItemKind::Sample => {
            reveal_strlit("Samples");
            reveal_strlit("SAMPLE");
        },
        ItemKind::Loop => {
            reveal_strlit("Loops and clips");
            reveal_strlit("LOOP");
        },
        ItemKind::Command => {
            reveal_strlit("Commands");
            reveal_strlit("COMMAND");
        },
        ItemKind::Workflow => {
            reveal_strlit("Workflows");
            reveal_strlit("WORKFLOW");
        },
        ItemKind::Unknown => {},
    }
}

} // verus!
