//! Content groups of the command bar and which of them appear in search.
//! Loading and saving `ui-settings.json` is done by the program around the
//! library.

use vstd::prelude::*;
use crate::protocol::ItemKind;

verus! {

/// A heading under which search results are grouped.
#[derive(Debug, PartialEq, Eq, Structural, Clone, Copy)]
pub enum ContentGroup {
    Devices,
    Plugins,
    Presets,
    Racks,
    MaxForLive,
    Samples,
    Loops,
    Commands,
    Workflows,
    Other,
}

/// The group that holds items of a kind.
pub open spec fn group_for_kind(kind: ItemKind) -> ContentGroup {
    match kind {
        ItemKind::NativeDevice => ContentGroup::Devices,
        ItemKind::Plugin => ContentGroup::Plugins,
        ItemKind::Preset => ContentGroup::Presets,
        ItemKind::Rack => ContentGroup::Racks,
        ItemKind::MaxDevice => ContentGroup::MaxForLive,
        ItemKind::Sample => ContentGroup::Samples,
        ItemKind::Loop => ContentGroup::Loops,
        ItemKind::Command => ContentGroup::Commands,
        ItemKind::Workflow => ContentGroup::Workflows,
        ItemKind::Unknown => ContentGroup::Other,
    }
}

/// The heading shown for a group.
pub open spec fn group_label(group: ContentGroup) -> Seq<char> {
    match group {
        ContentGroup::Devices => "Devices"@,
        ContentGroup::Plugins => "Plug-ins"@,
        ContentGroup::Presets => "Presets"@,
        ContentGroup::Racks => "Racks"@,
        ContentGroup::MaxForLive => "Max for Live"@,
        ContentGroup::Samples => "Samples"@,
        ContentGroup::Loops => "Loops and clips"@,
        ContentGroup::Commands => "Commands"@,
        ContentGroup::Workflows => "Workflows"@,
        ContentGroup::Other => "Other"@,
    }
}

/// The position of a group among the result headings.
pub open spec fn group_order(group: ContentGroup) -> usize {
    match group {
        ContentGroup::Devices => 0,
        ContentGroup::Plugins => 1,
        ContentGroup::Presets => 2,
        ContentGroup::Racks => 3,
        ContentGroup::MaxForLive => 4,
        ContentGroup::Samples => 5,
        ContentGroup::Loops => 6,
        ContentGroup::Commands => 7,
        ContentGroup::Workflows => 8,
        ContentGroup::Other => 9,
    }
}

/// The groups that the settings view lists, in order: every group but `Other`.
pub open spec fn settings_groups() -> Seq<ContentGroup> {
    seq![
        ContentGroup::Devices,
        ContentGroup::Plugins,
        ContentGroup::Presets,
        ContentGroup::Racks,
        ContentGroup::MaxForLive,
        ContentGroup::Samples,
        ContentGroup::Loops,
        ContentGroup::Commands,
        ContentGroup::Workflows,
    ]
}

/// How many groups the settings view lists.
pub const SETTINGS_COUNT: usize = 9;

impl ContentGroup {
    /// The group that holds items of `kind`.
    pub fn for_kind(kind: &ItemKind) -> (group: ContentGroup)
        ensures
            group == group_for_kind(*kind),
    {
        match kind {
            ItemKind::NativeDevice => ContentGroup::Devices,
            ItemKind::Plugin => ContentGroup::Plugins,
            ItemKind::Preset => ContentGroup::Presets,
            ItemKind::Rack => ContentGroup::Racks,
            ItemKind::MaxDevice => ContentGroup::MaxForLive,
            ItemKind::Sample => ContentGroup::Samples,
            ItemKind::Loop => ContentGroup::Loops,
            ItemKind::Command => ContentGroup::Commands,
            ItemKind::Workflow => ContentGroup::Workflows,
            ItemKind::Unknown => ContentGroup::Other,
        }
    }

    /// The heading shown for the group.
    pub fn label(self) -> (label: &'static str)
        ensures
            label@ == group_label(self),
    {
        match self {
            ContentGroup::Devices => {
                proof { reveal_strlit("Devices"); }
                "Devices"
            },
            ContentGroup::Plugins => {
                proof { reveal_strlit("Plug-ins"); }
                "Plug-ins"
            },
            ContentGroup::Presets => {
                proof { reveal_strlit("Presets"); }
                "Presets"
            },
            ContentGroup::Racks => {
                proof { reveal_strlit("Racks"); }
                "Racks"
            },
            ContentGroup::MaxForLive => {
                proof { reveal_strlit("Max for Live"); }
                "Max for Live"
            },
            ContentGroup::Samples => {
                proof { reveal_strlit("Samples"); }
                "Samples"
            },
            ContentGroup::Loops => {
                proof { reveal_strlit("Loops and clips"); }
                "Loops and clips"
            },
            ContentGroup::Commands => {
                proof { reveal_strlit("Commands"); }
                "Commands"
            },
            ContentGroup::Workflows => {
                proof { reveal_strlit("Workflows"); }
                "Workflows"
            },
            ContentGroup::Other => {
                proof { reveal_strlit("Other"); }
                "Other"
            },
        }
    }

    /// The position of the group among the result headings.
    pub fn order(self) -> (order: usize)
        ensures
            order == group_order(self),
    {
        match self {
            ContentGroup::Devices => 0,
            ContentGroup::Plugins => 1,
            ContentGroup::Presets => 2,
            ContentGroup::Racks => 3,
            ContentGroup::MaxForLive => 4,
            ContentGroup::Samples => 5,
            ContentGroup::Loops => 6,
            ContentGroup::Commands => 7,
            ContentGroup::Workflows => 8,
            ContentGroup::Other => 9,
        }
    }

    /// The group listed at `index` in the settings view, if there is one.
    pub fn setting_at(index: usize) -> (group: Option<ContentGroup>)
        ensures
            index < SETTINGS_COUNT ==> group == Some(settings_groups()[index as int]),
            index >= SETTINGS_COUNT ==> group is None,
    {
        match index {
            0 => Some(ContentGroup::Devices),
            1 => Some(ContentGroup::Plugins),
            2 => Some(ContentGroup::Presets),
            3 => Some(ContentGroup::Racks),
            4 => Some(ContentGroup::MaxForLive),
            5 => Some(ContentGroup::Samples),
            6 => Some(ContentGroup::Loops),
            7 => Some(ContentGroup::Commands),
            8 => Some(ContentGroup::Workflows),
            _ => None,
        }
    }
}

/// Each group's order is its own: distinct groups have distinct positions,
/// and `Other` comes last.
pub proof fn lemma_group_order_injective(a: ContentGroup, b: ContentGroup)
    ensures
        group_order(a) == group_order(b) <==> a == b,
        group_order(a) <= group_order(ContentGroup::Other),
{
}

/// Whether each group appears in search.  `Other` always does.
#[derive(Debug, PartialEq, Eq, Structural, Clone, Copy)]
pub struct ContentVisibility {
    pub devices: bool,
    pub plugins: bool,
    pub presets: bool,
    pub racks: bool,
    pub max_for_live: bool,
    pub samples: bool,
    pub loops: bool,
    pub commands: bool,
    pub workflows: bool,
}

/// Whether `group` appears in search under `v`.
pub open spec fn visible(v: ContentVisibility, group: ContentGroup) -> bool {
    match group {
        ContentGroup::Devices => v.devices,
        ContentGroup::Plugins => v.plugins,
        ContentGroup::Presets => v.presets,
        ContentGroup::Racks => v.racks,
        ContentGroup::MaxForLive => v.max_for_live,
        ContentGroup::Samples => v.samples,
        ContentGroup::Loops => v.loops,
        ContentGroup::Commands => v.commands,
        ContentGroup::Workflows => v.workflows,
        ContentGroup::Other => true,
    }
}

/// `v` with the visibility of `group` flipped; `Other` cannot be hidden.
pub open spec fn toggled(v: ContentVisibility, group: ContentGroup) -> ContentVisibility {
    match group {
        ContentGroup::Devices => ContentVisibility { devices: !v.devices, ..v },
        ContentGroup::Plugins => ContentVisibility { plugins: !v.plugins, ..v },
        ContentGroup::Presets => ContentVisibility { presets: !v.presets, ..v },
        ContentGroup::Racks => ContentVisibility { racks: !v.racks, ..v },
        ContentGroup::MaxForLive => ContentVisibility { max_for_live: !v.max_for_live, ..v },
        ContentGroup::Samples => ContentVisibility { samples: !v.samples, ..v },
        ContentGroup::Loops => ContentVisibility { loops: !v.loops, ..v },
        ContentGroup::Commands => ContentVisibility { commands: !v.commands, ..v },
        ContentGroup::Workflows => ContentVisibility { workflows: !v.workflows, ..v },
        ContentGroup::Other => v,
    }
}

/// Every group shown.
pub open spec fn all_visible() -> ContentVisibility {
    ContentVisibility {
        devices: true,
        plugins: true,
        presets: true,
        racks: true,
        max_for_live: true,
        samples: true,
        loops: true,
        commands: true,
        workflows: true,
    }
}

impl Default for ContentVisibility {
    /// All groups are visible by default.
    fn default() -> (v: ContentVisibility)
        ensures
            v == all_visible(),
    {
        ContentVisibility {
            devices: true,
            plugins: true,
            presets: true,
            racks: true,
            max_for_live: true,
            samples: true,
            loops: true,
            commands: true,
            workflows: true,
        }
    }
}

impl ContentVisibility {
    /// Whether `group` appears in search.
    pub fn is_visible(&self, group: ContentGroup) -> (shown: bool)
        ensures
            shown == visible(*self, group),
    {
        match group {
            ContentGroup::Devices => self.devices,
            ContentGroup::Plugins => self.plugins,
            ContentGroup::Presets => self.presets,
            ContentGroup::Racks => self.racks,
            ContentGroup::MaxForLive => self.max_for_live,
            ContentGroup::Samples => self.samples,
            ContentGroup::Loops => self.loops,
            ContentGroup::Commands => self.commands,
            ContentGroup::Workflows => self.workflows,
            ContentGroup::Other => true,
        }
    }

    /// Shows a hidden group or hides a shown one; `Other` stays shown.
    pub fn toggle(&mut self, group: ContentGroup)
        ensures
            *final(self) == toggled(*old(self), group),
    {
        match group {
            ContentGroup::Devices => self.devices = !self.devices,
            ContentGroup::Plugins => self.plugins = !self.plugins,
            ContentGroup::Presets => self.presets = !self.presets,
            ContentGroup::Racks => self.racks = !self.racks,
            ContentGroup::MaxForLive => self.max_for_live = !self.max_for_live,
            ContentGroup::Samples => self.samples = !self.samples,
            ContentGroup::Loops => self.loops = !self.loops,
            ContentGroup::Commands => self.commands = !self.commands,
            ContentGroup::Workflows => self.workflows = !self.workflows,
            ContentGroup::Other => {},
        }
    }
}

/// Toggling a group twice restores the settings.
pub proof fn lemma_toggle_twice_restores(v: ContentVisibility, group: ContentGroup)
    ensures
        toggled(toggled(v, group), group) == v,
{
}

/// Toggling flips exactly the toggled group (unless it is `Other`, which
/// stays shown) and leaves every other group as it was.
pub proof fn lemma_toggle_flips_only_its_group(
    v: ContentVisibility,
    group: ContentGroup,
    other: ContentGroup,
)
    ensures
        group != ContentGroup::Other ==> visible(toggled(v, group), group) == !visible(v, group),
        visible(v, ContentGroup::Other),
        visible(toggled(v, group), ContentGroup::Other),
        other != group ==> visible(toggled(v, group), other) == visible(v, other),
{
}

/// The persisted preferences of the command bar.
#[derive(Debug, PartialEq, Eq, Structural, Clone, Copy)]
pub struct PaletteSettings {
    pub visibility: ContentVisibility,
}

impl Default for PaletteSettings {
    /// All groups visible.
    fn default() -> (settings: PaletteSettings)
        ensures
            settings.visibility == all_visible(),
    {
        PaletteSettings { visibility: ContentVisibility::default() }
    }
}

} // verus!
