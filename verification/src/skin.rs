//! Skins: the one that a profile wears, and the mod that shows it in the game.
use vstd::prelude::*;

use crate::error::LauncherError;
use crate::modrinth::{
    choose_file, chosen_file, fetch_modrinth_version, law_chosen_file_is_listed,
    version_list_address, ModrinthVersion, VersionRequest,
};
use crate::paths::{
    content_dir, content_dir_path, law_where_content_lies, AppPath, ContentKind,
};
use crate::profile::{LoaderType, Profile, ProfileModel};
use crate::text::concat2;

verus! {

/// What came of setting a skin.
#[derive(Debug)]
pub struct SkinState {
    pub profile_id: String,
    pub skin_path: String,
    pub applied_with_csl: bool,
    pub warning: Option<String>,
}

/// The profile with another skin. A skin that is not there is refused.
pub fn wear_skin(profile: Profile, exists: bool, skin_path: &str) -> (worn: Result<
    Profile,
    LauncherError,
>)
    ensures
        match worn {
            Ok(worn) => exists && worn.deep_view() == (ProfileModel {
                skin_path: Some(skin_path@),
                ..profile.deep_view()
            }),
            Err(error) => !exists && error is SkinNotFound,
        },
{
    if !exists {
        return Err(LauncherError::SkinNotFound);
    }
    let mut worn = profile;
    worn.skin_path = Some(skin_path.to_owned());
    Ok(worn)
}

/// How the mod that shows skins is asked for; a profile without a loader does not take it.
pub fn skin_loader_request(profile: &Profile) -> (request: Option<VersionRequest>)
    ensures
        profile.loader == LoaderType::Vanilla <==> request is None,
        request matches Some(request) ==> (request matches VersionRequest::List { url } && url@
            == version_list_address(
            "customskinloader"@,
            profile.minecraft_version@,
            ContentKind::Mod,
            profile.loader,
        )),
{
    if profile.loader == LoaderType::Vanilla {
        return None;
    }
    proof {
        reveal_strlit("");
        assert(crate::text::trim_text(""@).len() == 0);
    }
    Some(
        fetch_modrinth_version(
            "customskinloader",
            "",
            profile.minecraft_version.as_str(),
            ContentKind::Mod,
            profile.loader,
        ),
    )
}

/// Where the mod that shows skins comes from and where it goes. A version without files is refused.
pub fn try_install_custom_skin_loader(profile_id: &str, version: &ModrinthVersion) -> (download:
    Result<(String, AppPath), LauncherError>)
    ensures
        match download {
            Ok((url, path)) => {
                &&& chosen_file(version.files.deep_view()) matches Some(file)
                &&& url@ == file.url
                &&& path@ == content_dir_path(profile_id@, ContentKind::Mod).push(file.filename)
            },
            Err(error) => chosen_file(version.files.deep_view()) is None
                && error is NoSkinLoaderFiles,
        },
{
    match choose_file(version) {
        Some(file) => Ok(
            (
                file.url.clone(),
                content_dir(profile_id, ContentKind::Mod).join(file.filename.as_str()),
            ),
        ),
        None => Err(LauncherError::NoSkinLoaderFiles),
    }
}

/// Whether a skin is shown by the mod: it is there, and putting it there did not fail.
pub open spec fn is_applied(loader: LoaderType, failure: Option<Seq<char>>) -> bool {
    loader != LoaderType::Vanilla && failure is None
}

/// What the player is warned of.
pub open spec fn skin_warning(loader: LoaderType, failure: Option<Seq<char>>) -> Option<Seq<char>> {
    match loader {
        LoaderType::Vanilla => Some("Skin application may not work in vanilla."@),
        _ => match failure {
            Some(error) => Some(
                "Failed to install CustomSkinLoader automatically: "@ + error,
            ),
            None => None,
        },
    }
}

/// What came of setting a skin, where `failure` says what went wrong with the mod, if anything did.
pub fn skin_state(
    profile_id: &str,
    skin_path: &str,
    loader: LoaderType,
    failure: Option<&str>,
) -> (state: SkinState)
    ensures
        state.profile_id@ == profile_id@,
        state.skin_path@ == skin_path@,
        state.applied_with_csl == is_applied(loader, failure.deep_view()),
        state.warning.deep_view() == skin_warning(loader, failure.deep_view()),
{
    let (applied_with_csl, warning) = match loader {
        LoaderType::Vanilla => (
            false,
            Some("Skin application may not work in vanilla.".to_owned()),
        ),
        _ => match failure {
            Some(error) => (
                false,
                Some(concat2("Failed to install CustomSkinLoader automatically: ", error)),
            ),
            None => (true, None),
        },
    };
    SkinState {
        profile_id: profile_id.to_owned(),
        skin_path: skin_path.to_owned(),
        applied_with_csl,
        warning,
    }
}

// ---------------------------------------------------------------------------
// Laws
// ---------------------------------------------------------------------------

/// The player is warned exactly when the skin is not shown by the mod.
pub proof fn law_warned_unless_applied(loader: LoaderType, failure: Option<Seq<char>>)
    ensures
        skin_warning(loader, failure) is None <==> is_applied(loader, failure),
{
}

/// When a skin is shown by the mod, and what the player is told otherwise.
pub proof fn law_what_is_said_of_a_skin(failure: Seq<char>)
    ensures
        !is_applied(LoaderType::Vanilla, None),
        !is_applied(LoaderType::Vanilla, Some(failure)),
        is_applied(LoaderType::Fabric, None),
        is_applied(LoaderType::Forge, None),
        !is_applied(LoaderType::Fabric, Some(failure)),
        !is_applied(LoaderType::Forge, Some(failure)),
        skin_warning(LoaderType::Vanilla, None) == Some("Skin application may not work in vanilla."@),
        skin_warning(LoaderType::Vanilla, Some(failure)) == Some(
            "Skin application may not work in vanilla."@,
        ),
        skin_warning(LoaderType::Fabric, Some(failure)) == Some(
            "Failed to install CustomSkinLoader automatically: "@ + failure,
        ),
        skin_warning(LoaderType::Forge, Some(failure)) == Some(
            "Failed to install CustomSkinLoader automatically: "@ + failure,
        ),
        skin_warning(LoaderType::Fabric, None) is None,
        skin_warning(LoaderType::Forge, None) is None,
{
}

/// Wearing a skin changes nothing of a profile but the skin; a skin that is not there is refused.
pub proof fn law_wearing_changes_only_the_skin(
    profile: Profile,
    exists: bool,
    skin_path: &str,
    worn: Result<Profile, LauncherError>,
)
    requires
        call_ensures(wear_skin, (profile, exists, skin_path), worn),
    ensures
        worn is Ok <==> exists,
        worn matches Err(error) ==> error is SkinNotFound,
        worn matches Ok(worn) ==> {
            &&& worn.skin_path.deep_view() == Some(skin_path@)
            &&& worn.id@ == profile.id@
            &&& worn.name@ == profile.name@
            &&& worn.minecraft_version@ == profile.minecraft_version@
            &&& worn.loader == profile.loader
            &&& worn.loader_version.deep_view() == profile.loader_version.deep_view()
            &&& worn.nickname@ == profile.nickname@
            &&& worn.ram_mb == profile.ram_mb
            &&& worn.java_path.deep_view() == profile.java_path.deep_view()
            &&& worn.jvm_args.deep_view() == profile.jvm_args.deep_view()
            &&& worn.created_at@ == profile.created_at@
        },
{
    if let Ok(result) = worn {
        let after = result.deep_view();
        let before = profile.deep_view();
        assert(after == (ProfileModel { skin_path: Some(skin_path@), ..before }));
    }
}

/// The mod that shows skins is the first primary file of its version, and goes to the mods of the
/// profile under its own name.
pub proof fn law_where_the_skin_mod_goes(
    profile_id: &str,
    version: &ModrinthVersion,
    download: Result<(String, AppPath), LauncherError>,
)
    requires
        call_ensures(try_install_custom_skin_loader, (profile_id, version), download),
    ensures
        download is Ok <==> version.files.deep_view().len() > 0,
        download matches Ok((url, path)) ==> exists|i: int|
            {
                &&& 0 <= i < version.files.deep_view().len()
                &&& url@ == (#[trigger] version.files.deep_view()[i]).url
                &&& path@ == seq!["profiles"@, profile_id@, "instance"@, "mods"@].push(
                    version.files.deep_view()[i].filename,
                )
            },
{
    let files = version.files.deep_view();
    law_chosen_file_is_listed(files);
    law_where_content_lies(profile_id@);
    if let Ok((url, path)) = download {
        let file = chosen_file(files)->Some_0;
        let i = choose|i: int| 0 <= i < files.len() && files[i] == file;
        assert(files[i].url == url@);
    }
}

} // verus!
