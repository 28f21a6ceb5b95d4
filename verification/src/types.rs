use vstd::prelude::*;
use crate::numbers::{decimal_spec, push_decimal};
use crate::text::push_char;
use crate::text_map::TextMap;

verus! {

/// A screen resolution in pixels.
#[derive(Debug, Clone, Copy, PartialEq, Eq, Structural, Hash)]
pub struct Resolution {
    pub width: u32,
    pub height: u32,
}

/// One desktop icon: its name and its position on the desktop.
#[derive(Debug)]
pub struct IconEntry {
    pub name: String,
    pub x: i32,
    pub y: i32,
}

/// A saved desktop: the icons of the resolution it was saved in, and layouts for
/// other resolutions under the keys "WIDTHxHEIGHT".
pub struct DesktopProfile {
    pub profile_name: String,
    pub resolution: Resolution,
    pub timestamp_utc: u64,
    pub icons: Vec<IconEntry>,
    pub resolutions: TextMap<Vec<IconEntry>>,
}

/// The key of a resolution's layout: "WIDTHxHEIGHT" in decimal.
pub open spec fn resolution_key_spec(r: Resolution) -> Seq<char> {
    decimal_spec(r.width as nat) + seq!['x'] + decimal_spec(r.height as nat)
}

/// The key of a resolution's layout, such as "1920x1080".
pub fn resolution_key(r: Resolution) -> (key: String)
    ensures
        key@ == resolution_key_spec(r),
{
    let mut key = String::new();
    push_decimal(&mut key, r.width as u64);
    push_char(&mut key, 'x');
    push_decimal(&mut key, r.height as u64);
    key
}

impl IconEntry {
    /// A copy of the entry.
    pub fn duplicate(&self) -> (r: IconEntry)
        ensures
            r == *self,
    {
        IconEntry { name: self.name.clone(), x: self.x, y: self.y }
    }
}

/// A copy of a list of icons.
pub fn copy_icons(icons: &Vec<IconEntry>) -> (r: Vec<IconEntry>)
    ensures
        r@ == icons@,
{
    let mut r: Vec<IconEntry> = Vec::new();
    for i in 0..icons.len()
        invariant
            r@ == icons@.take(i as int),
    {
        r.push(icons[i].duplicate());
        assert(icons@.take(i + 1) == icons@.take(i as int).push(icons@[i as int]));
    }
    assert(icons@.take(icons@.len() as int) == icons@);
    r
}

impl DesktopProfile {
    /// The profile that a capture of the desktop makes: its icons, and no layout for other resolutions.
    pub fn captured(
        profile_name: &str,
        resolution: Resolution,
        timestamp_utc: u64,
        icons: Vec<IconEntry>,
    ) -> (p: DesktopProfile)
        ensures
            p.profile_name@ == profile_name@,
            p.resolution == resolution,
            p.timestamp_utc == timestamp_utc,
            p.icons@ == icons@,
            p.resolutions@ == Map::<Seq<char>, Seq<IconEntry>>::empty(),
    {
        DesktopProfile {
            profile_name: profile_name.to_owned(),
            resolution,
            timestamp_utc,
            icons,
            resolutions: TextMap::new(),
        }
    }

    /// The icons to restore at a resolution: the layout saved for it, else the profile's own icons.
    pub open spec fn layout_for_spec(&self, current: Resolution) -> Seq<IconEntry> {
        if self.resolutions@.contains_key(resolution_key_spec(current)) {
            self.resolutions@[resolution_key_spec(current)]
        } else {
            self.icons@
        }
    }

    /// The icons to restore at the given resolution.
    pub fn layout_for(&self, current: Resolution) -> (icons: &Vec<IconEntry>)
        ensures
            icons@ == self.layout_for_spec(current),
    {
        let key = resolution_key(current);
        match self.resolutions.get(key.as_str()) {
            Some(icons) => icons,
            None => &self.icons,
        }
    }
}

/// What `save` stores: the new capture, keeping the layouts of other resolutions that a
/// profile of the same name already held.
pub fn keep_layouts(captured: DesktopProfile, existing: Option<DesktopProfile>) -> (p: DesktopProfile)
    ensures
        p.profile_name == captured.profile_name,
        p.resolution == captured.resolution,
        p.timestamp_utc == captured.timestamp_utc,
        p.icons == captured.icons,
        p.resolutions@ == (match existing {
            Some(e) => e.resolutions@,
            None => captured.resolutions@,
        }),
{
    let mut p = captured;
    if let Some(e) = existing {
        p.resolutions = e.resolutions;
    }
    p
}

/// The profile that `save-res` adds a layout to: the one already saved, else the capture.
pub open spec fn base_profile(captured: DesktopProfile, existing: Option<DesktopProfile>) -> DesktopProfile {
    match existing {
        Some(e) => e,
        None => captured,
    }
}

/// What `save-res` stores: the profile already saved (or else the capture itself) with
/// the captured icons as the layout of `resolution`.
pub fn store_layout(
    captured: DesktopProfile,
    existing: Option<DesktopProfile>,
    resolution: Resolution,
) -> (p: DesktopProfile)
    ensures
        p.profile_name == base_profile(captured, existing).profile_name,
        p.resolution == base_profile(captured, existing).resolution,
        p.timestamp_utc == base_profile(captured, existing).timestamp_utc,
        p.icons@ == base_profile(captured, existing).icons@,
        p.resolutions@ == base_profile(captured, existing).resolutions@.insert(
            resolution_key_spec(resolution),
            captured.icons@,
        ),
{
    let key = resolution_key(resolution);
    match existing {
        Some(e) => {
            let mut p = e;
            p.resolutions.insert(key, captured.icons);
            p
        },
        None => {
            let mut p = captured;
            let icons = copy_icons(&p.icons);
            proof {
                assert(icons@ == captured.icons@);
            }
            p.resolutions.insert(key, icons);
            p
        },
    }
}

/// What `profile-update` stores: the saved profile with the new capture's resolution,
/// time and icons; the layout of the current resolution is replaced only where the
/// profile already had one.
pub fn update_profile(existing: DesktopProfile, captured: DesktopProfile, current: Resolution) -> (p:
    DesktopProfile)
    ensures
        p.profile_name == existing.profile_name,
        p.resolution == captured.resolution,
        p.timestamp_utc == captured.timestamp_utc,
        p.icons@ == captured.icons@,
        p.resolutions@ == (if existing.resolutions@.contains_key(resolution_key_spec(current)) {
            existing.resolutions@.insert(resolution_key_spec(current), captured.icons@)
        } else {
            existing.resolutions@
        }),
{
    let mut p = existing;
    p.resolution = captured.resolution;
    p.timestamp_utc = captured.timestamp_utc;
    p.icons = copy_icons(&captured.icons);
    let key = resolution_key(current);
    if p.resolutions.contains_key(key.as_str()) {
        p.resolutions.insert(key, captured.icons);
    }
    p
}

/// After `save-res`, restoring at that resolution gives the icons just captured.
pub proof fn lemma_stored_layout_restores(
    p: DesktopProfile,
    captured: DesktopProfile,
    existing: Option<DesktopProfile>,
    resolution: Resolution,
)
    requires
        p.resolutions@ == base_profile(captured, existing).resolutions@.insert(
            resolution_key_spec(resolution),
            captured.icons@,
        ),
    ensures
        p.layout_for_spec(resolution) == captured.icons@,
{
}

/// After `profile-update`, restoring at the resolution it ran in gives the icons just
/// captured, whether or not the profile had a layout for that resolution.
pub proof fn lemma_updated_profile_restores(
    p: DesktopProfile,
    existing: DesktopProfile,
    captured: DesktopProfile,
    current: Resolution,
)
    requires
        p.icons@ == captured.icons@,
        p.resolutions@ == (if existing.resolutions@.contains_key(resolution_key_spec(current)) {
            existing.resolutions@.insert(resolution_key_spec(current), captured.icons@)
        } else {
            existing.resolutions@
        }),
    ensures
        p.layout_for_spec(current) == captured.icons@,
{
}

} // verus!
