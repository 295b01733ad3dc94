//! Mod loaders: which versions there are, and where the metadata of one comes from.
use vstd::prelude::*;

use crate::error::LauncherError;
use crate::json::{member, members_in, text_in, text_of_json, Json, JsonModel};
use crate::order::{lemma_push_contains, sorted_unique, strictly_sorted};
use crate::paths::{forge_installer, forge_installer_path, AppPath};
use crate::profile::{LoaderType, Profile, ProfileModel};
use crate::text::{
    concat2, is_blank, is_white_space, law_blank_is_all_white_space, starts_with, trim_text,
};

verus! {

/// Where the versions of Forge are listed.
pub const FORGE_PROMOTIONS_URL: &'static str =
    "https://files.minecraftforge.net/net/minecraftforge/forge/promotions_slim.json";

/// The loader versions that a player can choose from.
#[derive(Debug)]
pub struct LoaderOptions {
    pub fabric: Vec<String>,
    pub forge: Vec<String>,
}

/// How a loader is named.
pub open spec fn loader_label(loader: LoaderType) -> Seq<char> {
    match loader {
        LoaderType::Vanilla => "vanilla"@,
        LoaderType::Fabric => "fabric"@,
        LoaderType::Forge => "forge"@,
    }
}

/// How a loader is named.
pub fn loader_name(loader: LoaderType) -> (name: &'static str)
    ensures
        name@ == loader_label(loader),
{
    match loader {
        LoaderType::Vanilla => "vanilla",
        LoaderType::Fabric => "fabric",
        LoaderType::Forge => "forge",
    }
}

// ---------------------------------------------------------------------------
// Versions of a loader
// ---------------------------------------------------------------------------

/// Where the versions of Fabric for a game version are listed.
pub fn fabric_versions_url(mc_version: &str) -> (url: String)
    ensures
        url@ == "https://meta.fabricmc.net/v2/versions/loader/"@ + mc_version@,
{
    concat2("https://meta.fabricmc.net/v2/versions/loader/", mc_version)
}

/// The loader version that an item of the Fabric list names.
pub open spec fn fabric_version(item: JsonModel) -> Option<Seq<char>> {
    match member(item, "loader"@) {
        Some(loader) => text_in(member(loader, "version"@)),
        None => None,
    }
}

/// The loader versions that the items of the Fabric list name, in order.
pub open spec fn named_fabric_versions(items: Seq<JsonModel>) -> Seq<Seq<char>>
    decreases items.len(),
{
    if items.len() == 0 {
        Seq::empty()
    } else {
        let before = named_fabric_versions(items.drop_last());
        match fabric_version(items.last()) {
            Some(version) => before.push(version),
            None => before,
        }
    }
}

/// The first 20 of a list.
pub open spec fn first_twenty(all: Seq<Seq<char>>) -> Seq<Seq<char>> {
    if all.len() <= 20 {
        all
    } else {
        all.take(20)
    }
}

fn fabric_version_in(item: &Json) -> (version: Option<String>)
    ensures
        version.deep_view() == fabric_version(item.deep_view()),
{
    match item.member("loader") {
        Some(loader) => text_of_json(loader.member("version")),
        None => None,
    }
}

proof fn lemma_named_grow(items: Seq<JsonModel>, n: int)
    requires
        0 <= n <= items.len(),
    ensures
        named_fabric_versions(items.take(n)).is_prefix_of(named_fabric_versions(items)),
    decreases items.len(),
{
    if n == items.len() {
        assert(items.take(n) =~= items);
    } else {
        let init = items.drop_last();
        lemma_named_grow(init, n);
        assert(init.take(n) =~= items.take(n));
    }
}

/// The loader versions to offer from the Fabric list: the first 20 that it names.
pub fn fabric_versions(items: &Vec<Json>) -> (versions: Vec<String>)
    ensures
        versions.deep_view() == first_twenty(named_fabric_versions(items.deep_view())),
{
    let mut versions: Vec<String> = Vec::new();
    let mut i: usize = 0;
    let ghost all = items.deep_view();
    assert(all.take(0) =~= Seq::empty());
    assert(versions.deep_view() =~= Seq::empty());
    while i < items.len() && versions.len() < 20
        invariant
            i <= items@.len(),
            all == items.deep_view(),
            versions@.len() <= 20,
            versions.deep_view() == named_fabric_versions(all.take(i as int)),
        decreases items@.len() - i,
    {
        let ghost before = versions.deep_view();
        assert(all.take(i + 1).drop_last() =~= all.take(i as int));
        assert(all[i as int] == items@[i as int].deep_view());
        if let Some(version) = fabric_version_in(&items[i]) {
            versions.push(version);
            assert(versions.deep_view() =~= before.push(version@));
        }
        i = i + 1;
    }
    proof {
        lemma_named_grow(all, i as int);
        assert(versions.deep_view().len() == versions@.len());
        let named = named_fabric_versions(all);
        if i == items@.len() {
            assert(all.take(i as int) =~= all);
            assert(named.len() <= 20);
        } else {
            assert(named.take(20) =~= versions.deep_view());
            if named.len() <= 20 {
                assert(named =~= named.take(20));
            }
        }
    }
    versions
}

/// The loader version of a promotion, if it is one for this game version.
pub open spec fn forge_version(promotion: (Seq<char>, JsonModel), mc_version: Seq<char>) -> Option<
    Seq<char>,
> {
    if mc_version.is_prefix_of(promotion.0) {
        text_in(Some(promotion.1))
    } else {
        None
    }
}

/// Whether a loader version is promoted for this game version.
pub open spec fn is_promoted(json: JsonModel, mc_version: Seq<char>, version: Seq<char>) -> bool {
    let promotions = members_in(member(json, "promos"@));
    exists|i: int|
        0 <= i < promotions.len() && forge_version(#[trigger] promotions[i], mc_version) == Some(
            version,
        )
}

/// The loader versions to offer from the Forge promotions: those whose name begins with the game
/// version, each once, in order.
pub fn forge_versions(json: &Json, mc_version: &str) -> (versions: Vec<String>)
    ensures
        strictly_sorted(versions.deep_view()),
        forall|version: Seq<char>| #[trigger]
            versions.deep_view().contains(version) <==> is_promoted(
                json.deep_view(),
                mc_version@,
                version,
            ),
{
    let mut found: Vec<String> = Vec::new();
    let ghost promotions = members_in(member(json.deep_view(), "promos"@));
    assert(found.deep_view() =~= Seq::empty());
    let promos = match json.member("promos") {
        Some(promos) => promos.as_members(),
        None => None,
    };
    if let Some(members) = promos {
        assert(members.deep_view() == promotions);
        let mut i: usize = 0;
        while i < members.len()
            invariant
                i <= members@.len(),
                members.deep_view() == promotions,
                forall|version: Seq<char>| #[trigger]
                    found.deep_view().contains(version) <==> exists|k: int|
                        0 <= k < i && forge_version(#[trigger] promotions[k], mc_version@) == Some(
                            version,
                        ),
            decreases members@.len() - i,
        {
            let ghost before = found.deep_view();
            assert(promotions[i as int] == (
                members@[i as int].0@,
                members@[i as int].1.deep_view(),
            ));
            let ghost promotion = promotions[i as int];
            let mut added = false;
            if starts_with(members[i].0.as_str(), mc_version) {
                if let Some(version) = members[i].1.as_text() {
                    found.push(version.clone());
                    added = true;
                    assert(forge_version(promotion, mc_version@) == Some(version@));
                    assert(found.deep_view() =~= before.push(version@));
                }
            }
            assert forall|version: Seq<char>| #[trigger]
                found.deep_view().contains(version) <==> exists|k: int|
                    0 <= k < i + 1 && forge_version(#[trigger] promotions[k], mc_version@) == Some(
                        version,
                    ) by {
                if added {
                    lemma_push_contains(before, forge_version(promotion, mc_version@)->Some_0, version);
                }
                if before.contains(version) {
                    let k = choose|k: int|
                        0 <= k < i && forge_version(#[trigger] promotions[k], mc_version@) == Some(
                            version,
                        );
                    assert(forge_version(promotions[k], mc_version@) == Some(version));
                }
                if forge_version(promotion, mc_version@) == Some(version) {
                    assert(forge_version(promotions[i as int], mc_version@) == Some(version));
                }
            }
            i = i + 1;
        }
    }
    sorted_unique(found)
}

/// The loader versions to offer, from the Fabric list and the Forge promotions.
pub fn loader_options(fabric: &Vec<Json>, forge: &Json, mc_version: &str) -> (options: LoaderOptions)
    ensures
        options.fabric.deep_view() == first_twenty(named_fabric_versions(fabric.deep_view())),
        strictly_sorted(options.forge.deep_view()),
        forall|version: Seq<char>| #[trigger]
            options.forge.deep_view().contains(version) <==> is_promoted(
                forge.deep_view(),
                mc_version@,
                version,
            ),
{
    LoaderOptions { fabric: fabric_versions(fabric), forge: forge_versions(forge, mc_version) }
}

// ---------------------------------------------------------------------------
// Metadata of a loader version
// ---------------------------------------------------------------------------

/// Where the metadata of a loader comes from.
#[derive(Debug)]
pub enum LoaderSource {
    /// There is no loader.
    Nothing,
    /// The metadata itself is at `url`.
    Metadata { url: String },
    /// The metadata is in the installer at `url`, which is kept at `path`.
    Installer { url: String, path: AppPath },
}

/// The loader version that a profile has chosen; one of white space is none.
pub open spec fn chosen_loader_version(profile: ProfileModel) -> Option<Seq<char>> {
    match profile.loader_version {
        Some(version) => if trim_text(version).len() == 0 {
            None
        } else {
            Some(version)
        },
        None => None,
    }
}

/// Where the metadata of a Fabric version is.
pub open spec fn fabric_metadata_url(mc_version: Seq<char>, version: Seq<char>) -> Seq<char> {
    "https://meta.fabricmc.net/v2/versions/loader/"@ + mc_version + "/"@ + version
        + "/profile/json"@
}

/// Where the installer of a Forge version is.
pub open spec fn forge_installer_url(version: Seq<char>) -> Seq<char> {
    "https://maven.minecraftforge.net/net/minecraftforge/forge/"@ + version + "/forge-"@ + version
        + "-installer.jar"@
}

/// Where the metadata of the loader of a profile comes from. A loader without a version is refused.
pub fn fetch_loader_version_json(profile: &Profile) -> (source: Result<LoaderSource, LauncherError>)
    ensures
        match profile.loader {
            LoaderType::Vanilla => source matches Ok(LoaderSource::Nothing),
            LoaderType::Fabric => match chosen_loader_version(profile.deep_view()) {
                Some(version) => source matches Ok(LoaderSource::Metadata { url }) && url@
                    == fabric_metadata_url(profile.minecraft_version@, version),
                None => source matches Err(LauncherError::FabricVersionNotSelected),
            },
            LoaderType::Forge => match chosen_loader_version(profile.deep_view()) {
                Some(version) => source matches Ok(LoaderSource::Installer { url, path }) && url@
                    == forge_installer_url(version) && path@ == forge_installer(version),
                None => source matches Err(LauncherError::ForgeVersionNotSelected),
            },
        },
{
    let mut chosen: Option<&String> = None;
    if let Some(version) = &profile.loader_version {
        if !is_blank(version.as_str()) {
            chosen = Some(version);
        }
    }
    match profile.loader {
        LoaderType::Vanilla => Ok(LoaderSource::Nothing),
        LoaderType::Fabric => match chosen {
            Some(version) => {
                let mut url = "https://meta.fabricmc.net/v2/versions/loader/".to_owned();
                url.append(profile.minecraft_version.as_str());
                url.append("/");
                url.append(version.as_str());
                url.append("/profile/json");
                Ok(LoaderSource::Metadata { url })
            },
            None => Err(LauncherError::FabricVersionNotSelected),
        },
        LoaderType::Forge => match chosen {
            Some(version) => {
                let mut url =
                    "https://maven.minecraftforge.net/net/minecraftforge/forge/".to_owned();
                url.append(version.as_str());
                url.append("/forge-");
                url.append(version.as_str());
                url.append("-installer.jar");
                Ok(LoaderSource::Installer { url, path: forge_installer_path(version.as_str()) })
            },
            None => Err(LauncherError::ForgeVersionNotSelected),
        },
    }
}

/// The metadata in a Forge installer: its `version.json`, else what its `install_profile.json`
/// holds as version information. An installer with neither is refused.
pub fn forge_metadata(version_json: Option<Json>, version_info: Option<Json>) -> (metadata: Result<
    Json,
    LauncherError,
>)
    ensures
        match version_json {
            Some(json) => metadata == Ok::<Json, LauncherError>(json),
            None => match version_info {
                Some(json) => metadata == Ok::<Json, LauncherError>(json),
                None => metadata matches Err(LauncherError::ForgeMetadataMissing),
            },
        },
{
    match version_json {
        Some(json) => Ok(json),
        None => match version_info {
            Some(json) => Ok(json),
            None => Err(LauncherError::ForgeMetadataMissing),
        },
    }
}

// ---------------------------------------------------------------------------
// Laws
// ---------------------------------------------------------------------------


/// How the loaders are named: each by a word of its own.
pub proof fn law_names_of_the_loaders()
    ensures
        loader_label(LoaderType::Vanilla) == "vanilla"@,
        loader_label(LoaderType::Fabric) == "fabric"@,
        loader_label(LoaderType::Forge) == "forge"@,
{
}

/// An item of the Fabric list names the version of its loader, where it has one as text.
pub proof fn law_version_that_an_item_names(item: JsonModel, loader: JsonModel, version: Seq<char>)
    ensures
        member(item, "loader"@) is None ==> fabric_version(item) is None,
        member(item, "loader"@) == Some(loader) && member(loader, "version"@) == Some(
            JsonModel::Text(version),
        ) ==> fabric_version(item) == Some(version),
        member(item, "loader"@) == Some(loader) && !(member(loader, "version"@) matches Some(
            JsonModel::Text(_),
        )) ==> fabric_version(item) is None,
{
}

/// The versions follow the items of the Fabric list: those of two lists one after the other are
/// theirs one after the other; an item gives the version that it names, or nothing.
pub proof fn law_fabric_versions_follow_the_list(
    first: Seq<JsonModel>,
    second: Seq<JsonModel>,
    item: JsonModel,
)
    ensures
        named_fabric_versions(first + second) == named_fabric_versions(first)
            + named_fabric_versions(second),
        named_fabric_versions(Seq::empty()).len() == 0,
        fabric_version(item) matches Some(version) ==> named_fabric_versions(seq![item]) == seq![
            version,
        ],
        fabric_version(item) is None ==> named_fabric_versions(seq![item]).len() == 0,
    decreases second.len(),
{
    let one = seq![item];
    assert(one.drop_last() =~= Seq::empty());
    assert(one.last() == item);
    assert(named_fabric_versions(one.drop_last()) =~= Seq::empty());
    if second.len() == 0 {
        assert(first + second =~= first);
        assert(named_fabric_versions(first) + named_fabric_versions(second)
            =~= named_fabric_versions(first));
    } else {
        let init = second.drop_last();
        law_fabric_versions_follow_the_list(first, init, item);
        assert((first + second).drop_last() =~= first + init);
        assert((first + second).last() == second.last());
        assert(named_fabric_versions(first + second) =~= named_fabric_versions(first)
            + named_fabric_versions(second));
    }
}

/// As many versions are offered as there are, but no more than 20, and they are the first ones.
pub proof fn law_the_first_versions_are_offered(all: Seq<Seq<char>>)
    ensures
        all.len() <= 20 ==> first_twenty(all).len() == all.len(),
        all.len() > 20 ==> first_twenty(all).len() == 20,
        forall|i: int|
            0 <= i < all.len() && i < 20 ==> #[trigger] first_twenty(all)[i] == all[i],
{
}

/// A Forge version is promoted for a game version exactly if a promotion whose name begins with the
/// game version gives it as text.
pub proof fn law_which_versions_are_promoted(
    json: JsonModel,
    promotions: Seq<(Seq<char>, JsonModel)>,
    mc_version: Seq<char>,
    version: Seq<char>,
)
    ensures
        member(json, "promos"@) == Some(JsonModel::Object(promotions)) ==> (is_promoted(
            json,
            mc_version,
            version,
        ) <==> exists|i: int|
            0 <= i < promotions.len() && mc_version.is_prefix_of((#[trigger] promotions[i]).0)
                && promotions[i].1 == JsonModel::Text(version)),
        !(member(json, "promos"@) matches Some(JsonModel::Object(_))) ==> !is_promoted(
            json,
            mc_version,
            version,
        ),
{
    if member(json, "promos"@) == Some(JsonModel::Object(promotions)) {
        if is_promoted(json, mc_version, version) {
            let i = choose|i: int|
                0 <= i < promotions.len() && forge_version(#[trigger] promotions[i], mc_version)
                    == Some(version);
            assert(mc_version.is_prefix_of(promotions[i].0));
            assert(promotions[i].1 == JsonModel::Text(version));
        }
        if exists|i: int|
            0 <= i < promotions.len() && mc_version.is_prefix_of((#[trigger] promotions[i]).0)
                && promotions[i].1 == JsonModel::Text(version) {
            let i = choose|i: int|
                0 <= i < promotions.len() && mc_version.is_prefix_of((#[trigger] promotions[i]).0)
                    && promotions[i].1 == JsonModel::Text(version);
            assert(forge_version(promotions[i], mc_version) == Some(version));
        }
    }
}

/// A profile has chosen the loader version that it names, as it is written, unless that is nothing
/// but white space.
pub proof fn law_chosen_loader_version_is_the_named_one(profile: ProfileModel, version: Seq<char>)
    ensures
        profile.loader_version is None ==> chosen_loader_version(profile) is None,
        profile.loader_version == Some(version) && (forall|k: int|
            0 <= k < version.len() ==> is_white_space(#[trigger] version[k]))
            ==> chosen_loader_version(profile) is None,
        profile.loader_version == Some(version) && !(forall|k: int|
            0 <= k < version.len() ==> is_white_space(#[trigger] version[k]))
            ==> chosen_loader_version(profile) == Some(version),
{
    law_blank_is_all_white_space(version);
}

/// The addresses that the metadata of a loader comes from.
pub proof fn law_addresses_of_the_loaders(mc_version: Seq<char>, version: Seq<char>)
    ensures
        fabric_metadata_url(mc_version, version) == "https://meta.fabricmc.net/v2/versions/loader/"@
            + (mc_version + "/"@ + version + "/profile/json"@),
        forge_installer_url(version) == "https://maven.minecraftforge.net/net/minecraftforge/forge/"@
            + (version + "/"@ + ("forge-"@ + version + "-installer.jar"@)),
{
    reveal_strlit("/forge-");
    reveal_strlit("/");
    reveal_strlit("forge-");
    assert(fabric_metadata_url(mc_version, version)
        =~= "https://meta.fabricmc.net/v2/versions/loader/"@ + (mc_version + "/"@ + version
        + "/profile/json"@));
    assert("/forge-"@ =~= "/"@ + "forge-"@);
    assert(forge_installer_url(version)
        =~= "https://maven.minecraftforge.net/net/minecraftforge/forge/"@ + (version + "/"@ + (
    "forge-"@ + version + "-installer.jar"@)));
}

/// Where the metadata of a loader comes from: nowhere without a loader; else it takes a version that
/// is more than white space, and without one each loader is refused with its own words.
pub proof fn law_source_of_the_metadata(
    profile: &Profile,
    source: Result<LoaderSource, LauncherError>,
    version: Seq<char>,
)
    requires
        call_ensures(fetch_loader_version_json, (profile,), source),
        profile.loader_version.deep_view() == Some(version),
    ensures
        profile.loader == LoaderType::Vanilla ==> source matches Ok(LoaderSource::Nothing),
        profile.loader != LoaderType::Vanilla ==> (source is Err <==> forall|k: int|
            0 <= k < version.len() ==> is_white_space(#[trigger] version[k])),
        profile.loader == LoaderType::Fabric ==> match source {
            Ok(LoaderSource::Metadata { url }) => url@
                == "https://meta.fabricmc.net/v2/versions/loader/"@ + (profile.minecraft_version@
                + "/"@ + version + "/profile/json"@),
            Ok(_) => false,
            Err(error) => error is FabricVersionNotSelected,
        },
        profile.loader == LoaderType::Forge ==> match source {
            Ok(LoaderSource::Installer { url, path }) => url@
                == "https://maven.minecraftforge.net/net/minecraftforge/forge/"@ + (version + "/"@ + (
            "forge-"@ + version + "-installer.jar"@)) && path@[2] == "forge-"@ + version
                + "-installer.jar"@,
            Ok(_) => false,
            Err(error) => error is ForgeVersionNotSelected,
        },
{
    law_chosen_loader_version_is_the_named_one(profile.deep_view(), version);
    law_addresses_of_the_loaders(profile.minecraft_version@, version);
}

/// The metadata of a Forge installer is its own file where it has one, else the older form; without
/// either it is refused.
pub proof fn law_metadata_of_an_installer(
    version_json: Option<Json>,
    version_info: Option<Json>,
    metadata: Result<Json, LauncherError>,
)
    requires
        call_ensures(forge_metadata, (version_json, version_info), metadata),
    ensures
        metadata is Err <==> version_json is None && version_info is None,
        version_json matches Some(json) ==> metadata == Ok::<Json, LauncherError>(json),
        version_json is None ==> (version_info matches Some(json) ==> metadata == Ok::<
            Json,
            LauncherError,
        >(json)),
{
}

} // verus!
