//! The versions of the game that can be installed.
use vstd::prelude::*;

use crate::error::LauncherError;
use crate::text::same_text;

verus! {

/// Where the list of versions is.
pub const MOJANG_MANIFEST_URL: &'static str =
    "https://piston-meta.mojang.com/mc/game/version_manifest_v2.json";

/// A version in the list of versions.
#[derive(Debug)]
pub struct MojangVersionEntry {
    pub id: String,
    pub version_type: String,
    pub release_time: String,
    pub url: String,
}

/// What a [`MojangVersionEntry`] holds.
pub struct VersionEntryModel {
    pub id: Seq<char>,
    pub version_type: Seq<char>,
    pub release_time: Seq<char>,
    pub url: Seq<char>,
}

impl DeepView for MojangVersionEntry {
    type V = VersionEntryModel;

    open spec fn deep_view(&self) -> VersionEntryModel {
        VersionEntryModel {
            id: self.id@,
            version_type: self.version_type@,
            release_time: self.release_time@,
            url: self.url@,
        }
    }
}

/// A version as the player sees it.
#[derive(Debug)]
pub struct MinecraftVersion {
    pub id: String,
    pub version_type: String,
    pub release_time: String,
}

/// What a [`MinecraftVersion`] holds.
pub struct MinecraftVersionModel {
    pub id: Seq<char>,
    pub version_type: Seq<char>,
    pub release_time: Seq<char>,
}

impl DeepView for MinecraftVersion {
    type V = MinecraftVersionModel;

    open spec fn deep_view(&self) -> MinecraftVersionModel {
        MinecraftVersionModel {
            id: self.id@,
            version_type: self.version_type@,
            release_time: self.release_time@,
        }
    }
}

/// A version as the player sees it.
pub open spec fn shown_version(entry: VersionEntryModel) -> MinecraftVersionModel {
    MinecraftVersionModel {
        id: entry.id,
        version_type: entry.version_type,
        release_time: entry.release_time,
    }
}

/// The versions as the player sees them, in the order of the list.
pub fn versions_list_minecraft(versions: Vec<MojangVersionEntry>) -> (shown: Vec<MinecraftVersion>)
    ensures
        shown.deep_view() == versions.deep_view().map_values(
            |entry: VersionEntryModel| shown_version(entry),
        ),
{
    let ghost all = versions.deep_view();
    let ghost wanted = all.map_values(|entry: VersionEntryModel| shown_version(entry));
    let mut shown: Vec<MinecraftVersion> = Vec::new();
    for entry in it: versions
        invariant
            it.seq() == versions@,
            all == versions.deep_view(),
            wanted == all.map_values(|entry: VersionEntryModel| shown_version(entry)),
            shown.deep_view() == wanted.take(it.index() as int),
    {
        let ghost before = shown.deep_view();
        assert(all[it.index() as int] == entry.deep_view());
        shown.push(
            MinecraftVersion {
                id: entry.id,
                version_type: entry.version_type,
                release_time: entry.release_time,
            },
        );
        assert(shown.deep_view() =~= before.push(wanted[it.index() as int]));
        assert(wanted.take(it.index() + 1) =~= before.push(wanted[it.index() as int]));
    }
    assert(wanted.take(wanted.len() as int) =~= wanted);
    shown
}

/// The first version in the list with this name; an unknown version is refused.
pub fn find_version(versions: Vec<MojangVersionEntry>, id: &str) -> (found: Result<
    MojangVersionEntry,
    LauncherError,
>)
    ensures
        match found {
            Ok(entry) => exists|i: int|
                {
                    &&& 0 <= i < versions.deep_view().len()
                    &&& #[trigger] versions.deep_view()[i] == entry.deep_view()
                    &&& entry.id@ == id@
                    &&& forall|k: int| 0 <= k < i ==> (#[trigger] versions.deep_view()[k]).id != id@
                },
            Err(error) => {
                &&& error is UnknownVersion
                &&& forall|k: int|
                    0 <= k < versions.deep_view().len() ==> (#[trigger] versions.deep_view()[k]).id
                        != id@
            },
        },
{
    let ghost all = versions.deep_view();
    for entry in it: versions
        invariant
            it.seq() == versions@,
            all == versions.deep_view(),
            forall|k: int| 0 <= k < it.index() ==> (#[trigger] all[k]).id != id@,
    {
        assert(all[it.index() as int] == entry.deep_view());
        if same_text(entry.id.as_str(), id) {
            return Ok(entry);
        }
    }
    Err(LauncherError::UnknownVersion)
}

// ---------------------------------------------------------------------------
// Laws
// ---------------------------------------------------------------------------


/// A version is shown with the name, the kind and the time that the list gives it.
pub proof fn law_version_is_shown_as_listed(entry: VersionEntryModel)
    ensures
        shown_version(entry).id == entry.id,
        shown_version(entry).version_type == entry.version_type,
        shown_version(entry).release_time == entry.release_time,
{
}

/// Every version of the list is shown, in its place, with what the list says of it.
pub proof fn law_every_version_is_shown(
    versions: Vec<MojangVersionEntry>,
    shown: Vec<MinecraftVersion>,
    i: int,
)
    requires
        call_ensures(versions_list_minecraft, (versions,), shown),
    ensures
        shown.deep_view().len() == versions.deep_view().len(),
        0 <= i < versions.deep_view().len() ==> {
            &&& shown.deep_view()[i].id == versions.deep_view()[i].id
            &&& shown.deep_view()[i].version_type == versions.deep_view()[i].version_type
            &&& shown.deep_view()[i].release_time == versions.deep_view()[i].release_time
        },
{
}

/// A version that is found is one of the list, and has the name that was asked for.
pub proof fn law_found_version_is_listed(
    versions: Vec<MojangVersionEntry>,
    id: &str,
    found: Result<MojangVersionEntry, LauncherError>,
)
    requires
        call_ensures(find_version, (versions, id), found),
    ensures
        found matches Ok(entry) ==> entry.id@ == id@ && versions.deep_view().contains(
            entry.deep_view(),
        ),
        found matches Err(error) ==> error is UnknownVersion,
{
}

} // verus!
