//! Turning the rows of Ableton's own plug-in index (`Live-plugins-1.db`) into
//! catalog items and an import summary.  Locating and reading the database
//! (read-only) is done by the program around the library, which hands over
//! the joined rows of `plugins` and `plugin_modules`.

use vstd::prelude::*;
use crate::json::{json_object, json_object_of};
use crate::protocol::{
    lemma_views_of_push, strings_view, views_of, CatalogItem, CatalogItemView, ItemKind, ItemSource,
    LiveDatabaseImportSummary, TrackKind,
};
use crate::sorting::{lemma_insert_stable_at, sort_stable};
use crate::tables::{keep, lemma_keep_step};
use crate::text::{
    before_first, before_first_str, binary_before, binary_less, contains_seq, contains_str,
    has_prefix, nocase_before, nocase_eq, nocase_less, skip_chars, split_on, split_str, starts_with,
    to_lowercase, to_uppercase, trim, trim_string, unicode_lowercase, unicode_uppercase,
};

verus! {

/// One row of the plug-in index: a plug-in joined with its module.
pub struct PluginRecord {
    pub device_identifier: String,
    pub name: String,
    pub vendor: String,
    pub version: String,
    pub sdk_version: String,
    pub subcategories: String,
    pub module_file: String,
    pub enabled: i64,
    pub scanstate: i64,
}

pub struct PluginRecordView {
    pub device_identifier: Seq<char>,
    pub name: Seq<char>,
    pub vendor: Seq<char>,
    pub version: Seq<char>,
    pub sdk_version: Seq<char>,
    pub subcategories: Seq<char>,
    pub module_file: Seq<char>,
    pub enabled: i64,
    pub scanstate: i64,
}

impl View for PluginRecord {
    type V = PluginRecordView;

    open spec fn view(&self) -> PluginRecordView {
        PluginRecordView {
            device_identifier: self.device_identifier@,
            name: self.name@,
            vendor: self.vendor@,
            version: self.version@,
            sdk_version: self.sdk_version@,
            subcategories: self.subcategories@,
            module_file: self.module_file@,
            enabled: self.enabled,
            scanstate: self.scanstate,
        }
    }
}

impl PluginRecord {
    fn duplicate(&self) -> (copy: PluginRecord)
        ensures
            copy@ == self@,
    {
        PluginRecord {
            device_identifier: self.device_identifier.clone(),
            name: self.name.clone(),
            vendor: self.vendor.clone(),
            version: self.version.clone(),
            sdk_version: self.sdk_version.clone(),
            subcategories: self.subcategories.clone(),
            module_file: self.module_file.clone(),
            enabled: self.enabled,
            scanstate: self.scanstate,
        }
    }
}

/// Only enabled plug-ins that Live scanned successfully are imported.
pub open spec fn importable() -> spec_fn(PluginRecordView) -> bool {
    |r: PluginRecordView| r.enabled == 1 && r.scanstate == 1
}

/// `ORDER BY name COLLATE NOCASE, dev_identifier`.
pub open spec fn by_name_then_identifier() -> spec_fn(PluginRecordView, PluginRecordView) -> bool {
    |a: PluginRecordView, b: PluginRecordView|
        nocase_less(a.name, b.name) || (nocase_eq(a.name, b.name) && binary_less(
            a.device_identifier,
            b.device_identifier,
        ))
}

/// The rows that are imported, in import order.
pub open spec fn imported_records(records: Seq<PluginRecordView>) -> Seq<PluginRecordView> {
    sort_stable(keep(records, importable()), by_name_then_identifier())
}

/// Instruments carry `:instr:` in their device identifier.
pub open spec fn is_instrument(device_identifier: Seq<char>) -> bool {
    contains_seq(device_identifier, ":instr:"@)
}

/// The part of a device identifier that names its plug-in format: the
/// first segment after `device:`, or `plugin` without that prefix.
pub open spec fn format_source(device_identifier: Seq<char>) -> Seq<char> {
    if has_prefix(device_identifier, "device:"@) {
        before_first(device_identifier.skip(7), ':')
    } else {
        "plugin"@
    }
}

/// The plug-in format (`VST`, `VST3`, `AU`, ...): the format source, uppercased.
pub open spec fn plugin_format(device_identifier: Seq<char>) -> Seq<char> {
    unicode_uppercase(format_source(device_identifier))
}

/// Whether a text is not empty.
pub open spec fn non_empty() -> spec_fn(Seq<char>) -> bool {
    |s: Seq<char>| s.len() > 0
}

/// The `|`-separated subcategories, trimmed, empty ones dropped.
pub open spec fn subcategory_tags(subcategories: Seq<char>) -> Seq<Seq<char>> {
    keep(split_on(subcategories, '|').map_values(|s: Seq<char>| trim(s)), non_empty())
}

/// The vendor as a one-element list, or nothing when it is empty.
pub open spec fn vendor_list(vendor: Seq<char>) -> Seq<Seq<char>> {
    if vendor.len() > 0 {
        seq![vendor]
    } else {
        Seq::empty()
    }
}

/// The number members of an imported plug-in's metadata: the schema
/// version of the index it came from.
pub open spec fn metadata_numbers(schema_version: i64) -> Seq<(Seq<char>, i64)> {
    seq![("ableton_index_schema"@, schema_version)]
}

/// The text members of an imported plug-in's metadata: the record's device
/// identifier, vendor, version, SDK version, subcategories and module path,
/// and the plug-in format.
pub open spec fn metadata_texts(r: PluginRecordView, format: Seq<char>) -> Seq<(Seq<char>, Seq<char>)> {
    seq![
        ("device_identifier"@, r.device_identifier),
        ("vendor"@, r.vendor),
        ("version"@, r.version),
        ("sdk_version"@, r.sdk_version),
        ("subcategories"@, r.subcategories),
        ("module_path"@, r.module_file),
        ("plugin_format"@, format),
    ]
}

/// The flag members of an imported plug-in's metadata: it is not yet
/// matched to a Live Browser item.
pub open spec fn metadata_flags() -> Seq<(Seq<char>, bool)> {
    seq![("browser_resolved"@, false)]
}

/// The metadata object of a plug-in imported from an index of schema
/// `schema_version` with plug-in format `format`.
pub open spec fn plugin_metadata(schema_version: i64, r: PluginRecordView, format: Seq<char>) -> serde_json::Value {
    json_object_of(metadata_numbers(schema_version), metadata_texts(r, format), metadata_flags())
}

/// The catalog entry of a plug-in imported from an index of schema
/// `schema_version`, whose plug-in format is `format`.
pub open spec fn plugin_item_with(schema_version: i64, r: PluginRecordView, format: Seq<char>) -> CatalogItemView {
    let instrument = is_instrument(r.device_identifier);
    CatalogItemView {
        id: "live-plugin:"@ + r.device_identifier,
        kind: ItemKind::Plugin,
        source: ItemSource::LiveDatabase,
        name: r.name,
        aliases: Seq::empty(),
        categories: seq!["Plug-Ins"@, if instrument { "Instruments"@ } else { "Audio Effects"@ }]
            + vendor_list(r.vendor),
        tags: seq![format] + subcategory_tags(r.subcategories) + vendor_list(r.vendor),
        browser_path: Seq::empty(),
        compatible_tracks: if instrument {
            seq![TrackKind::Midi]
        } else {
            seq![TrackKind::Audio, TrackKind::Midi, TrackKind::Return]
        },
        favorite: false,
        pinned: false,
        usage_count: 0,
        last_used_at: None,
        metadata: plugin_metadata(schema_version, r, format),
    }
}

/// The catalog entry of a plug-in imported from an index of schema
/// `schema_version`.
pub open spec fn plugin_item(schema_version: i64, r: PluginRecordView) -> CatalogItemView {
    plugin_item_with(schema_version, r, plugin_format(r.device_identifier))
}

/// How many of the records are instruments.
pub open spec fn instrument_count(records: Seq<PluginRecordView>) -> int
    decreases records.len(),
{
    if records.len() == 0 {
        0
    } else {
        instrument_count(records.drop_last()) + if is_instrument(records.last().device_identifier) {
            1int
        } else {
            0int
        }
    }
}

/// The distinct keys of the records with a non-empty vendor, in
/// first-seen order, `keys[i]` being the key of `records[i]`.
pub open spec fn distinct_keys(records: Seq<PluginRecordView>, keys: Seq<Seq<char>>) -> Seq<Seq<char>>
    decreases records.len(),
{
    if records.len() == 0 {
        Seq::empty()
    } else {
        let n = records.len() - 1;
        let found = distinct_keys(records.drop_last(), keys.take(n));
        if records.last().vendor.len() == 0 || found.contains(keys[n]) {
            found
        } else {
            found.push(keys[n])
        }
    }
}

/// Each record's vendor, lowercased.
pub open spec fn vendor_keys(records: Seq<PluginRecordView>) -> Seq<Seq<char>> {
    records.map_values(|r: PluginRecordView| unicode_lowercase(r.vendor))
}

/// Each record's plug-in format.
pub open spec fn formats_of(records: Seq<PluginRecordView>) -> Seq<Seq<char>> {
    records.map_values(|r: PluginRecordView| plugin_format(r.device_identifier))
}

/// The distinct lowercase non-empty vendors, in first-seen order.
pub open spec fn distinct_vendors(records: Seq<PluginRecordView>) -> Seq<Seq<char>> {
    distinct_keys(records, vendor_keys(records))
}

} // verus!

verus! {

/// The trimmed, non-empty `|`-separated subcategories of `subcategories`,
/// appended to `tags`.
fn push_subcategory_tags(tags: &mut Vec<String>, subcategories: &str)
    ensures
        strings_view(final(tags)@) == strings_view(old(tags)@) + subcategory_tags(subcategories@),
{
    let pieces = split_str(subcategories, '|');
    let ghost start = strings_view(tags@);
    let ghost trimmed = split_on(subcategories@, '|').map_values(|s: Seq<char>| trim(s));
    for k in 0..pieces.len()
        invariant
            strings_view(pieces@) == split_on(subcategories@, '|'),
            trimmed == split_on(subcategories@, '|').map_values(|s: Seq<char>| trim(s)),
            strings_view(tags@) == start + keep(trimmed.take(k as int), non_empty()),
    {
        proof {
            lemma_keep_step(trimmed, non_empty(), k as int);
            assert(trimmed[k as int] == trim(pieces@[k as int]@));
        }
        let piece = trim_string(pieces[k].as_str());
        if !piece.as_str().is_empty() {
            let ghost before = tags@;
            tags.push(piece);
            proof {
                assert(strings_view(tags@) =~= strings_view(before).push(piece@));
                assert(start + keep(trimmed.take(k as int), non_empty()).push(piece@) =~= start + keep(
                    trimmed.take(k as int),
                    non_empty(),
                ).push(piece@));
            }
        }
    }
    proof { assert(trimmed.take(trimmed.len() as int) == trimmed); }
}

/// Appends the vendor when it is not empty.
fn push_vendor(list: &mut Vec<String>, vendor: &String)
    ensures
        strings_view(final(list)@) == strings_view(old(list)@) + vendor_list(vendor@),
{
    if !vendor.as_str().is_empty() {
        let ghost before = list@;
        list.push(vendor.clone());
        proof { assert(strings_view(list@) =~= strings_view(before) + vendor_list(vendor@)); }
    } else {
        proof { assert(strings_view(list@) =~= strings_view(list@) + vendor_list(vendor@)); }
    }
}

/// The plug-in format of a device identifier.
fn format_of(device_identifier: &str) -> (format: String)
    ensures
        format@ == plugin_format(device_identifier@),
{
    proof {
        reveal_strlit("device:");
        reveal_strlit("plugin");
    }
    if starts_with(device_identifier, "device:") {
        let rest = skip_chars(device_identifier, 7);
        let first = before_first_str(rest.as_str(), ':');
        to_uppercase(first.as_str())
    } else {
        to_uppercase("plugin")
    }
}

/// The metadata object of one imported record whose plug-in format is
/// `format`.
fn metadata_of(schema_version: i64, record: &PluginRecord, format: &String) -> (metadata: serde_json::Value)
    ensures
        metadata == plugin_metadata(schema_version, record@, format@),
{
    let mut numbers: Vec<(String, i64)> = Vec::new();
    numbers.push((String::from_str("ableton_index_schema"), schema_version));
    let mut texts: Vec<(String, String)> = Vec::new();
    texts.push((String::from_str("device_identifier"), record.device_identifier.clone()));
    texts.push((String::from_str("vendor"), record.vendor.clone()));
    texts.push((String::from_str("version"), record.version.clone()));
    texts.push((String::from_str("sdk_version"), record.sdk_version.clone()));
    texts.push((String::from_str("subcategories"), record.subcategories.clone()));
    texts.push((String::from_str("module_path"), record.module_file.clone()));
    texts.push((String::from_str("plugin_format"), format.clone()));
    let mut flags: Vec<(String, bool)> = Vec::new();
    flags.push((String::from_str("browser_resolved"), false));
    proof {
        assert(numbers@.map_values(|m: (String, i64)| (m.0@, m.1)) =~= metadata_numbers(schema_version));
        assert(texts@.map_values(|m: (String, String)| (m.0@, m.1@)) =~= metadata_texts(record@, format@));
        assert(flags@.map_values(|m: (String, bool)| (m.0@, m.1)) =~= metadata_flags());
    }
    json_object(numbers, texts, flags)
}

/// The catalog entry of one imported record whose plug-in format is `format`.
fn plugin_catalog_item(schema_version: i64, record: &PluginRecord, format: &String) -> (item: CatalogItem)
    ensures
        item@ == plugin_item_with(schema_version, record@, format@),
{
    let instrument = contains_str(record.device_identifier.as_str(), ":instr:");
    let mut tags: Vec<String> = Vec::new();
    tags.push(format.clone());
    proof { assert(strings_view(tags@) =~= seq![format@]); }
    push_subcategory_tags(&mut tags, record.subcategories.as_str());
    push_vendor(&mut tags, &record.vendor);
    let mut categories: Vec<String> = Vec::new();
    categories.push(String::from_str("Plug-Ins"));
    if instrument {
        categories.push(String::from_str("Instruments"));
    } else {
        categories.push(String::from_str("Audio Effects"));
    }
    proof {
        assert(strings_view(categories@) =~= seq![
            "Plug-Ins"@,
            if instrument { "Instruments"@ } else { "Audio Effects"@ },
        ]);
    }
    push_vendor(&mut categories, &record.vendor);
    let mut compatible_tracks: Vec<TrackKind> = Vec::new();
    if instrument {
        compatible_tracks.push(TrackKind::Midi);
    } else {
        compatible_tracks.push(TrackKind::Audio);
        compatible_tracks.push(TrackKind::Midi);
        compatible_tracks.push(TrackKind::Return);
    }
    let mut id = String::from_str("live-plugin:");
    id.append(record.device_identifier.as_str());
    let metadata = metadata_of(schema_version, record, format);
    let item = CatalogItem {
        id,
        kind: ItemKind::Plugin,
        source: ItemSource::LiveDatabase,
        name: record.name.clone(),
        aliases: Vec::new(),
        categories,
        tags,
        browser_path: Vec::new(),
        compatible_tracks,
        favorite: false,
        pinned: false,
        usage_count: 0,
        last_used_at: None,
        metadata,
    };
    proof {
        assert(item@.aliases =~= Seq::<Seq<char>>::empty());
        assert(item@.browser_path =~= Seq::<Seq<char>>::empty());
        if instrument {
            assert(item@.compatible_tracks =~= seq![TrackKind::Midi]);
        } else {
            assert(item@.compatible_tracks =~= seq![TrackKind::Audio, TrackKind::Midi, TrackKind::Return]);
        }
    }
    item
}

fn record_goes_before(a: &PluginRecord, b: &PluginRecord) -> (before: bool)
    ensures
        before == by_name_then_identifier()(a@, b@),
{
    if nocase_before(a.name.as_str(), b.name.as_str()) {
        return true;
    }
    crate::text::eq_ignore_ascii_case(a.name.as_str(), b.name.as_str()) && binary_before(
        a.device_identifier.as_str(),
        b.device_identifier.as_str(),
    )
}

/// The importable records, in import order.
pub fn records_to_import(records: &Vec<PluginRecord>) -> (chosen: Vec<PluginRecord>)
    ensures
        views_of(chosen@) == imported_records(views_of(records@)),
{
    let ghost all = views_of(records@);
    let mut kept: Vec<PluginRecord> = Vec::new();
    for i in 0..records.len()
        invariant
            all == views_of(records@),
            views_of(kept@) == keep(all.take(i as int), importable()),
    {
        proof {
            lemma_keep_step(all, importable(), i as int);
            assert(all[i as int] == records@[i as int]@);
        }
        if records[i].enabled == 1 && records[i].scanstate == 1 {
            let ghost before = kept@;
            let r = records[i].duplicate();
            kept.push(r);
            proof { lemma_views_of_push(before, r); }
        }
    }
    proof { assert(all.take(all.len() as int) == all); }
    let ghost chosen = views_of(kept@);
    let mut sorted: Vec<PluginRecord> = Vec::new();
    for i in 0..kept.len()
        invariant
            chosen == views_of(kept@),
            views_of(sorted@) == sort_stable(chosen.take(i as int), by_name_then_identifier()),
    {
        let x = kept[i].duplicate();
        let mut j = sorted.len();
        while j > 0 && record_goes_before(&x, &sorted[j - 1])
            invariant
                j <= sorted@.len(),
                forall|k: int| j <= k < sorted@.len() ==> by_name_then_identifier()(x@, #[trigger] sorted@[k]@),
            decreases j,
        {
            j -= 1;
        }
        proof {
            let vs = views_of(sorted@);
            assert forall|k: int| j <= k < vs.len() implies by_name_then_identifier()(x@, #[trigger] vs[k]) by {
                assert(vs[k] == sorted@[k]@);
            }
            if j > 0 {
                assert(vs[j - 1] == sorted@[j - 1]@);
            }
            lemma_insert_stable_at(vs, x@, by_name_then_identifier(), j as int);
            assert(chosen.take(i + 1).drop_last() =~= chosen.take(i as int));
            assert(chosen.take(i + 1).last() == kept@[i as int]@);
        }
        let ghost before = sorted@;
        sorted.insert(j, x);
        proof { assert(views_of(sorted@) =~= views_of(before).insert(j as int, x@)); }
    }
    proof { assert(chosen.take(chosen.len() as int) == chosen); }
    sorted
}

fn contains_string(list: &Vec<String>, s: &str) -> (found: bool)
    ensures
        found == strings_view(list@).contains(s@),
{
    let ghost view = strings_view(list@);
    for i in 0..list.len()
        invariant
            view == strings_view(list@),
            forall|j: int| 0 <= j < i ==> view[j] != s@,
    {
        proof { assert(view[i as int] == list@[i as int]@); }
        if crate::text::str_equal(list[i].as_str(), s) {
            return true;
        }
    }
    false
}

/// The catalog items and the summary of an import of the chosen records,
/// `formats[i]` being the plug-in format of `chosen[i]` and `vendor_keys[i]`
/// its vendor in the form that vendors are counted by; `discovered` is the
/// index's whole plug-in count.
pub fn import_chosen(
    plugin_database: String,
    schema_version: i64,
    discovered: i64,
    chosen: &Vec<PluginRecord>,
    formats: &Vec<String>,
    vendor_keys: &Vec<String>,
) -> (imported: (Vec<CatalogItem>, LiveDatabaseImportSummary))
    requires
        discovered <= usize::MAX,
        formats@.len() == chosen@.len(),
        vendor_keys@.len() == chosen@.len(),
    ensures
        ({
            let recs = views_of(chosen@);
            let (items, summary) = imported;
            &&& items@.len() == recs.len()
            &&& forall|i: int| 0 <= i < items@.len() ==> (#[trigger] items@[i])@ == plugin_item_with(
                schema_version,
                recs[i],
                formats@[i]@,
            )
            &&& summary.plugin_database == plugin_database
            &&& summary.schema_version == schema_version
            &&& summary.discovered == (if discovered < 0 { 0 } else { discovered })
            &&& summary.imported == recs.len()
            &&& summary.instruments == instrument_count(recs)
            &&& summary.audio_effects == recs.len() - instrument_count(recs)
            &&& summary.vendors == distinct_keys(recs, strings_view(vendor_keys@)).len()
        }),
{
    let ghost recs = views_of(chosen@);
    let ghost keys = strings_view(vendor_keys@);
    let mut items: Vec<CatalogItem> = Vec::new();
    let mut instruments: usize = 0;
    let mut vendors: Vec<String> = Vec::new();
    for i in 0..chosen.len()
        invariant
            recs == views_of(chosen@),
            keys == strings_view(vendor_keys@),
            formats@.len() == chosen@.len(),
            vendor_keys@.len() == chosen@.len(),
            items@.len() == i,
            forall|k: int| 0 <= k < i ==> (#[trigger] items@[k])@ == plugin_item_with(
                schema_version,
                recs[k],
                formats@[k]@,
            ),
            instruments == instrument_count(recs.take(i as int)),
            instruments <= i,
            strings_view(vendors@) == distinct_keys(recs.take(i as int), keys.take(i as int)),
    {
        proof {
            assert(recs.take(i + 1).drop_last() =~= recs.take(i as int));
            assert(recs.take(i + 1).last() == chosen@[i as int]@);
            assert(recs[i as int] == chosen@[i as int]@);
            assert(keys.take(i + 1).take(i as int) =~= keys.take(i as int));
            assert(keys.take(i + 1)[i as int] == vendor_keys@[i as int]@);
        }
        let item = plugin_catalog_item(schema_version, &chosen[i], &formats[i]);
        items.push(item);
        if contains_str(chosen[i].device_identifier.as_str(), ":instr:") {
            instruments += 1;
        }
        if !chosen[i].vendor.as_str().is_empty() {
            if !contains_string(&vendors, vendor_keys[i].as_str()) {
                let ghost before = vendors@;
                vendors.push(vendor_keys[i].clone());
                proof { assert(strings_view(vendors@) =~= strings_view(before).push(vendor_keys@[i as int]@)); }
            }
        }
    }
    proof {
        assert(recs.take(recs.len() as int) == recs);
        assert(keys.take(recs.len() as int) == keys);
    }
    let count = if discovered < 0 { 0 } else { discovered as usize };
    let summary = LiveDatabaseImportSummary {
        plugin_database,
        schema_version,
        discovered: count,
        imported: items.len(),
        instruments,
        audio_effects: items.len() - instruments,
        vendors: vendors.len(),
    };
    (items, summary)
}

/// The catalog items and the summary of an import from Ableton's plug-in
/// index: enabled, successfully scanned records only, ordered by name
/// (`NOCASE`) then identifier, each made a plug-in item; `discovered` is the
/// index's whole plug-in count.
pub fn import_plugin_records(
    plugin_database: String,
    schema_version: i64,
    discovered: i64,
    records: &Vec<PluginRecord>,
) -> (imported: (Vec<CatalogItem>, LiveDatabaseImportSummary))
    requires
        discovered <= usize::MAX,
    ensures
        ({
            let chosen = imported_records(views_of(records@));
            let (items, summary) = imported;
            &&& items@.len() == chosen.len()
            &&& forall|i: int| 0 <= i < items@.len() ==> (#[trigger] items@[i])@ == plugin_item(schema_version, chosen[i])
            &&& summary.plugin_database == plugin_database
            &&& summary.schema_version == schema_version
            &&& summary.discovered == (if discovered < 0 { 0 } else { discovered })
            &&& summary.imported == chosen.len()
            &&& summary.instruments == instrument_count(chosen)
            &&& summary.audio_effects == chosen.len() - instrument_count(chosen)
            &&& summary.vendors == distinct_vendors(chosen).len()
        }),
{
    let chosen = records_to_import(records);
    let ghost recs = views_of(chosen@);
    let mut formats: Vec<String> = Vec::new();
    let mut keys: Vec<String> = Vec::new();
    for i in 0..chosen.len()
        invariant
            recs == views_of(chosen@),
            strings_view(formats@) == formats_of(recs).take(i as int),
            strings_view(keys@) == vendor_keys(recs).take(i as int),
    {
        proof { assert(recs[i as int] == chosen@[i as int]@); }
        let ghost formats_before = formats@;
        let ghost keys_before = keys@;
        let format = format_of(chosen[i].device_identifier.as_str());
        formats.push(format);
        let key = to_lowercase(chosen[i].vendor.as_str());
        keys.push(key);
        proof {
            assert(strings_view(formats@) =~= strings_view(formats_before).push(format@));
            assert(strings_view(formats@) =~= formats_of(recs).take(i + 1));
            assert(strings_view(keys@) =~= strings_view(keys_before).push(key@));
            assert(strings_view(keys@) =~= vendor_keys(recs).take(i + 1));
        }
    }
    proof {
        assert(formats_of(recs).take(recs.len() as int) =~= formats_of(recs));
        assert(vendor_keys(recs).take(recs.len() as int) =~= vendor_keys(recs));
    }
    let imported = import_chosen(plugin_database, schema_version, discovered, &chosen, &formats, &keys);
    proof {
        let items = imported.0;
        assert forall|i: int| 0 <= i < items@.len() implies (#[trigger] items@[i])@ == plugin_item(
            schema_version,
            recs[i],
        ) by {
            assert(formats@[i]@ == strings_view(formats@)[i]);
        }
    }
    imported
}

/// Exactly the enabled, successfully scanned records are imported: every
/// imported record has `enabled == 1` and `scanstate == 1`, and every
/// record with both is imported.
pub proof fn lemma_imports_enabled_scanned(records: Seq<PluginRecordView>)
    ensures
        forall|i: int|
            0 <= i < imported_records(records).len() ==> (#[trigger] imported_records(records)[i]).enabled == 1
                && imported_records(records)[i].scanstate == 1,
        forall|j: int|
            0 <= j < records.len() && (#[trigger] records[j]).enabled == 1 && records[j].scanstate == 1
                ==> imported_records(records).contains(records[j]),
{
    broadcast use vstd::seq_lib::group_to_multiset_ensures;

    let kept = keep(records, importable());
    let sorted = imported_records(records);
    crate::sorting::lemma_sort_stable_permutes(kept, by_name_then_identifier());
    crate::tables::lemma_keep_contents(records, importable());
    assert forall|i: int| 0 <= i < sorted.len() implies (#[trigger] sorted[i]).enabled == 1 && sorted[i].scanstate
        == 1 by {
        assert(sorted.to_multiset().count(sorted[i]) > 0);
        assert(kept.contains(sorted[i]));
        let k = choose|k: int| 0 <= k < kept.len() && kept[k] == sorted[i];
        assert(importable()(kept[k]));
    }
    assert forall|j: int| 0 <= j < records.len() && (#[trigger] records[j]).enabled == 1 && records[j].scanstate == 1
        implies sorted.contains(records[j]) by {
        assert(importable()(records[j]));
        assert(kept.contains(records[j]));
        assert(kept.to_multiset().count(records[j]) > 0);
    }
}

} // verus!
