//! Resolving the icon of an application bundle, with a per-run cache that
//! remembers successful resolutions only.
use vstd::prelude::*;

use crate::manifest::{plist_string_entry, string_entry};
use crate::text::{chars_of, concat, same_chars, slice_of, string_of};

verus! {

/// The generic executable icon, used whenever a bundle gives no icon.
pub const DEFAULT_ICON: &'static str =
    "/System/Library/CoreServices/CoreTypes.bundle/Contents/Resources/ExecutableBinaryIcon.icns";

/// The cache key under which the default icon is seeded.
pub const DEFAULT_KEY: &'static str = "default";

/// The manifest key that names a bundle's icon file.
pub const ICON_KEY: &'static str = "CFBundleIconFile";

/// The first value stored under `key` in `entries` at or after index `i`.
pub open spec fn lookup_from(entries: Seq<(Seq<char>, Seq<char>)>, key: Seq<char>, i: int) -> Option<
    Seq<char>,
>
    decreases entries.len() - i,
{
    if i < 0 || i >= entries.len() {
        None
    } else if entries[i].0 == key {
        Some(entries[i].1)
    } else {
        lookup_from(entries, key, i + 1)
    }
}

/// The value cached under `key`.
pub open spec fn lookup(entries: Seq<(Seq<char>, Seq<char>)>, key: Seq<char>) -> Option<Seq<char>> {
    lookup_from(entries, key, 0)
}

/// `name` without a trailing `.icns`.
pub open spec fn strip_icns(name: Seq<char>) -> Seq<char> {
    if name.len() >= 5 && name.subrange(name.len() - 5, name.len() as int) == ".icns"@ {
        name.take(name.len() - 5)
    } else {
        name
    }
}

/// The icon file that a bundle's manifest entry `name` points to.
pub open spec fn icon_file(bundle: Seq<char>, name: Seq<char>) -> Seq<char> {
    bundle + "/Contents/Resources/"@ + strip_icns(name) + ".icns"@
}

/// Where a bundle keeps its manifest.
pub open spec fn manifest_file(bundle: Seq<char>) -> Seq<char> {
    bundle + "/Contents/Info.plist"@
}

/// Whether resolving `bundle` against `entries` needs the bundle's manifest.
pub open spec fn needs_manifest(entries: Seq<(Seq<char>, Seq<char>)>, bundle: Seq<char>) -> bool {
    bundle.len() > 0 && lookup(entries, bundle) is None
}

/// The icon resolved for `bundle` and the cache afterwards, given the cache
/// before and the manifest's bytes (`None` where it is missing or unreadable).
pub open spec fn resolution(
    entries: Seq<(Seq<char>, Seq<char>)>,
    bundle: Seq<char>,
    manifest: Option<Seq<u8>>,
) -> (Seq<char>, Seq<(Seq<char>, Seq<char>)>) {
    if bundle.len() == 0 {
        (DEFAULT_ICON@, entries)
    } else if let Some(cached) = lookup(entries, bundle) {
        (cached, entries)
    } else if let Some(bytes) = manifest {
        if let Some(name) = plist_string_entry(bytes, ICON_KEY@) {
            let path = icon_file(bundle, name);
            (path, entries.push((bundle, path)))
        } else {
            (DEFAULT_ICON@, entries)
        }
    } else {
        (DEFAULT_ICON@, entries)
    }
}

/// Whether resolving `bundle` reads a manifest that turns out to name no
/// icon or not to decode: the condition that the cache records.
pub open spec fn manifest_rejected(
    entries: Seq<(Seq<char>, Seq<char>)>,
    bundle: Seq<char>,
    manifest: Option<Seq<u8>>,
) -> bool {
    &&& needs_manifest(entries, bundle)
    &&& manifest is Some
    &&& plist_string_entry(manifest->0, ICON_KEY@) is None
}

/// `after` is `before` once `bundle` has been resolved to `icon`, given the
/// manifest's bytes.
pub open spec fn resolves(
    before: IconParser,
    after: IconParser,
    bundle: Seq<char>,
    manifest: Option<Seq<u8>>,
    icon: Seq<char>,
) -> bool {
    &&& after.wf()
    &&& (icon, after.entries()) == resolution(before.entries(), bundle, manifest)
    &&& after.rejected() == if manifest_rejected(before.entries(), bundle, manifest) {
        before.rejected().push(bundle)
    } else {
        before.rejected()
    }
}

/// The view of optional bytes.
pub open spec fn opt_bytes(m: Option<&[u8]>) -> Option<Seq<u8>> {
    match m {
        Some(b) => Some(b@),
        None => None,
    }
}

/// Looking up a key that was just added, and was absent before, finds it.
pub proof fn lemma_lookup_push(
    entries: Seq<(Seq<char>, Seq<char>)>,
    key: Seq<char>,
    value: Seq<char>,
    i: int,
)
    requires
        0 <= i <= entries.len(),
        lookup_from(entries, key, i) is None,
    ensures
        lookup_from(entries.push((key, value)), key, i) == Some(value),
    decreases entries.len() - i,
{
    if i < entries.len() {
        lemma_lookup_push(entries, key, value, i + 1);
    }
}

/// Once a bundle's icon has been resolved from its manifest, or was found in
/// the cache, resolving the same bundle again returns the same path, leaves
/// the cache as it is, reads no manifest and records no rejected one,
/// whatever manifest is offered.
pub proof fn lemma_resolution_idempotent(
    entries: Seq<(Seq<char>, Seq<char>)>,
    bundle: Seq<char>,
    first: Option<Seq<u8>>,
    again: Option<Seq<u8>>,
)
    requires
        bundle.len() > 0,
        lookup(resolution(entries, bundle, first).1, bundle) is Some,
    ensures
        !needs_manifest(resolution(entries, bundle, first).1, bundle),
        !manifest_rejected(resolution(entries, bundle, first).1, bundle, again),
        resolution(resolution(entries, bundle, first).1, bundle, again) == resolution(
            entries,
            bundle,
            first,
        ),
{
    let (path, after) = resolution(entries, bundle, first);
    if lookup(entries, bundle) is None {
        if after != entries {
            let name = plist_string_entry(first->0, ICON_KEY@)->0;
            lemma_lookup_push(entries, bundle, icon_file(bundle, name), 0);
        }
    }
}

/// The icon cache of one run.
pub struct IconParser {
    /// Bundle path and resolved icon path, in order of insertion.
    pub cached_icons: Vec<(String, String)>,
    /// The bundles, in order, whose manifest was read but named no icon or
    /// did not decode.
    pub rejected_manifests: Vec<String>,
}

impl IconParser {
    /// The cache as pairs of character sequences.
    pub open spec fn entries(&self) -> Seq<(Seq<char>, Seq<char>)> {
        self.cached_icons@.map_values(|e: (String, String)| (e.0@, e.1@))
    }

    /// The bundles whose manifest was rejected.
    pub open spec fn rejected(&self) -> Seq<Seq<char>> {
        self.rejected_manifests@.map_values(|b: String| b@)
    }

    /// The default icon is seeded under its own key, first.
    pub open spec fn wf(&self) -> bool {
        &&& self.entries().len() > 0
        &&& self.entries()[0] == (DEFAULT_KEY@, DEFAULT_ICON@)
    }

    /// A cache that holds the default icon alone.
    pub fn new() -> (r: Self)
        ensures
            r.wf(),
            r.entries() == seq![(DEFAULT_KEY@, DEFAULT_ICON@)],
            r.rejected().len() == 0,
    {
        let mut map: Vec<(String, String)> = Vec::new();
        map.push((DEFAULT_KEY.to_string(), DEFAULT_ICON.to_string()));
        let r = Self { cached_icons: map, rejected_manifests: Vec::new() };
        assert(r.entries() =~= seq![(DEFAULT_KEY@, DEFAULT_ICON@)]);
        r
    }

    /// The icon cached for `key`, if any.
    pub fn cached(&self, key: &Vec<char>) -> (r: Option<String>)
        ensures
            match r {
                Some(s) => lookup(self.entries(), key@) == Some(s@),
                None => lookup(self.entries(), key@) is None,
            },
    {
        let mut i: usize = 0;
        while i < self.cached_icons.len()
            invariant
                i <= self.cached_icons.len(),
                lookup(self.entries(), key@) == lookup_from(self.entries(), key@, i as int),
            decreases self.cached_icons.len() - i,
        {
            let k = chars_of(self.cached_icons[i].0.as_str());
            if same_chars(&k, key) {
                return Some(self.cached_icons[i].1.clone());
            }
            i = i + 1;
        }
        None
    }

    /// The manifest file to read before resolving `app_path`, or `None`
    /// where the result is known without it.
    pub fn manifest_to_read(&self, app_path: &str) -> (r: Option<String>)
        ensures
            match r {
                Some(m) => needs_manifest(self.entries(), app_path@) && m@ == manifest_file(
                    app_path@,
                ),
                None => !needs_manifest(self.entries(), app_path@),
            },
    {
        let bundle = chars_of(app_path);
        if bundle.len() == 0 {
            return None;
        }
        if self.cached(&bundle).is_some() {
            return None;
        }
        let suffix = chars_of("/Contents/Info.plist");
        Some(string_of(&concat(&bundle, &suffix)))
    }

    /// The icon path for the bundle at `app_path`: the default icon for an
    /// empty path, else the cached icon, else the icon that the manifest
    /// names, which is then cached; the default icon, not cached, where the
    /// manifest is missing, or names no icon or does not decode, which is
    /// recorded.
    pub fn get_app_icon_path(&mut self, app_path: &str, manifest: Option<&[u8]>) -> (r: String)
        requires
            old(self).wf(),
        ensures
            resolves(*old(self), *final(self), app_path@, opt_bytes(manifest), r@),
    {
        let bundle = chars_of(app_path);
        if bundle.len() == 0 {
            return DEFAULT_ICON.to_string();
        }
        if let Some(icon) = self.cached(&bundle) {
            return icon;
        }
        let bytes = match manifest {
            Some(b) => b,
            None => return DEFAULT_ICON.to_string(),
        };
        match string_entry(bytes, ICON_KEY) {
            Some(name) => {
                let name = chars_of(name.as_str());
                let icon = string_of(&icon_path_of(&bundle, &name));
                let ghost before = self.entries();
                self.cached_icons.push((app_path.to_string(), icon.clone()));
                assert(self.entries() =~= before.push((app_path@, icon@)));
                icon
            },
            None => {
                let ghost before = self.rejected();
                self.rejected_manifests.push(app_path.to_string());
                assert(self.rejected() =~= before.push(app_path@));
                DEFAULT_ICON.to_string()
            },
        }
    }
}

/// `name` without a trailing `.icns`.
pub fn strip_icns_exec(name: &Vec<char>) -> (r: Vec<char>)
    ensures
        r@ == strip_icns(name@),
{
    let ext = chars_of(".icns");
    proof {
        reveal_strlit(".icns");
    }
    if name.len() >= 5 && crate::text::occurs_at_exec(name, &ext, name.len() - 5) {
        slice_of(name, 0, name.len() - 5)
    } else {
        let r = slice_of(name, 0, name.len());
        assert(r@ =~= name@);
        r
    }
}

/// The icon file that a bundle's manifest entry `name` points to.
pub fn icon_path_of(bundle: &Vec<char>, name: &Vec<char>) -> (r: Vec<char>)
    ensures
        r@ == icon_file(bundle@, name@),
{
    let dir = chars_of("/Contents/Resources/");
    let ext = chars_of(".icns");
    concat(&concat(&concat(bundle, &dir), &strip_icns_exec(name)), &ext)
}

} // verus!
