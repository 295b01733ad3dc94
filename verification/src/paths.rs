//! Where the launcher keeps its data.
//!
//! An [`AppPath`] is a list of steps down from the launcher's data directory. Each step is one
//! relative path to join, so a file system path comes out of it by joining the steps in order.
use vstd::prelude::*;

use crate::number::{decimal, decimal_text};
use crate::profile::Profile;
use crate::text::{concat2, concat3};

verus! {

/// A place below the launcher's data directory.
#[derive(Debug)]
pub struct AppPath {
    pub steps: Vec<String>,
}

impl View for AppPath {
    type V = Seq<Seq<char>>;

    open spec fn view(&self) -> Seq<Seq<char>> {
        self.steps.deep_view()
    }
}

impl DeepView for AppPath {
    type V = Seq<Seq<char>>;

    open spec fn deep_view(&self) -> Seq<Seq<char>> {
        self.view()
    }
}

impl AppPath {
    /// The place one step down.
    pub fn join(self, step: &str) -> (path: AppPath)
        ensures
            path@ == self@.push(step@),
    {
        let mut steps = self.steps;
        steps.push(step.to_owned());
        let path = AppPath { steps };
        assert(path@ =~= self@.push(step@));
        path
    }
}

/// The directory the data directory is joined to.
#[derive(Clone, Copy, Debug, PartialEq, Eq, Structural)]
pub enum RootBase {
    /// The user's application data directory.
    AppData,
    /// The working directory.
    CurrentDir,
    /// The relative path `.`.
    Dot,
}

/// The data directory: `RoundStudioLauncher` in the application data directory, or
/// `.round-studio-launcher` in the working directory when there is no application data directory.
pub fn app_root(has_app_data: bool, has_current_dir: bool) -> (root: (RootBase, String))
    ensures
        has_app_data ==> root.0 == RootBase::AppData && root.1@ == "RoundStudioLauncher"@,
        !has_app_data ==> root.1@ == ".round-studio-launcher"@ && root.0 == (if has_current_dir {
            RootBase::CurrentDir
        } else {
            RootBase::Dot
        }),
{
    if has_app_data {
        (RootBase::AppData, "RoundStudioLauncher".to_owned())
    } else if has_current_dir {
        (RootBase::CurrentDir, ".round-studio-launcher".to_owned())
    } else {
        (RootBase::Dot, ".round-studio-launcher".to_owned())
    }
}

// ---------------------------------------------------------------------------
// Profiles
// ---------------------------------------------------------------------------

/// The directory that holds every profile.
pub open spec fn profiles_root_path() -> Seq<Seq<char>> {
    seq!["profiles"@]
}

/// The directory of one profile.
pub open spec fn profile_root_path(id: Seq<char>) -> Seq<Seq<char>> {
    profiles_root_path().push(id)
}

/// The file that holds a profile.
pub open spec fn profile_json(id: Seq<char>) -> Seq<Seq<char>> {
    profile_root_path(id).push("profile.json"@)
}

/// The file that lists the content of a profile.
pub open spec fn manifest_lock(id: Seq<char>) -> Seq<Seq<char>> {
    profile_root_path(id).push("manifest-lock.json"@)
}

/// The game directory of a profile.
pub open spec fn instance_path(id: Seq<char>) -> Seq<Seq<char>> {
    profile_root_path(id).push("instance"@)
}

/// A directory in the game directory of a profile.
pub open spec fn instance_dir_path(id: Seq<char>, dir: Seq<char>) -> Seq<Seq<char>> {
    instance_path(id).push(dir)
}

/// The directory that holds every profile.
pub fn profiles_root() -> (path: AppPath)
    ensures
        path@ == profiles_root_path(),
{
    let root = AppPath { steps: Vec::new() };
    let path = root.join("profiles");
    assert(path@ =~= profiles_root_path());
    path
}

/// The directory of one profile.
pub fn profile_root(profile_id: &str) -> (path: AppPath)
    ensures
        path@ == profile_root_path(profile_id@),
{
    profiles_root().join(profile_id)
}

/// The file that holds a profile.
pub fn profile_json_path(profile_id: &str) -> (path: AppPath)
    ensures
        path@ == profile_json(profile_id@),
{
    profile_root(profile_id).join("profile.json")
}

/// The file that lists the content of a profile.
pub fn manifest_lock_path(profile_id: &str) -> (path: AppPath)
    ensures
        path@ == manifest_lock(profile_id@),
{
    profile_root(profile_id).join("manifest-lock.json")
}

/// The game directory of a profile.
pub fn instance_root(profile_id: &str) -> (path: AppPath)
    ensures
        path@ == instance_path(profile_id@),
{
    profile_root(profile_id).join("instance")
}

/// A directory in the game directory of a profile.
pub fn instance_dir(profile_id: &str, dir: &str) -> (path: AppPath)
    ensures
        path@ == instance_dir_path(profile_id@, dir@),
{
    instance_root(profile_id).join(dir)
}

/// The directories that a profile needs.
pub open spec fn profile_dir_paths(id: Seq<char>) -> Seq<Seq<Seq<char>>> {
    seq![
        instance_path(id),
        instance_dir_path(id, "mods"@),
        instance_dir_path(id, "textures"@),
        instance_dir_path(id, "shaders"@),
        instance_dir_path(id, "resourcepacks"@),
        instance_dir_path(id, "shaderpacks"@),
        instance_dir_path(id, "versions"@),
        instance_dir_path(id, "libraries"@),
        instance_dir_path(id, "assets"@),
        instance_dir_path(id, "natives"@),
        instance_dir_path(id, "skin"@),
    ]
}

/// The directories that a profile needs, in the order in which they are made.
pub fn profile_dirs(profile_id: &str) -> (dirs: Vec<AppPath>)
    ensures
        dirs.deep_view() == profile_dir_paths(profile_id@),
{
    let mut dirs: Vec<AppPath> = Vec::new();
    dirs.push(instance_root(profile_id));
    dirs.push(instance_dir(profile_id, "mods"));
    dirs.push(instance_dir(profile_id, "textures"));
    dirs.push(instance_dir(profile_id, "shaders"));
    dirs.push(instance_dir(profile_id, "resourcepacks"));
    dirs.push(instance_dir(profile_id, "shaderpacks"));
    dirs.push(instance_dir(profile_id, "versions"));
    dirs.push(instance_dir(profile_id, "libraries"));
    dirs.push(instance_dir(profile_id, "assets"));
    dirs.push(instance_dir(profile_id, "natives"));
    dirs.push(instance_dir(profile_id, "skin"));
    assert(dirs.deep_view() =~= profile_dir_paths(profile_id@));
    dirs
}

// ---------------------------------------------------------------------------
// Content
// ---------------------------------------------------------------------------

/// What a piece of content is.
#[derive(Clone, Copy, Debug, PartialEq, Eq, Structural)]
pub enum ContentKind {
    Mod,
    Resourcepack,
    Shaderpack,
}

/// The directory that content of this kind is kept in.
pub open spec fn content_dir_path(id: Seq<char>, kind: ContentKind) -> Seq<Seq<char>> {
    match kind {
        ContentKind::Mod => instance_dir_path(id, "mods"@),
        ContentKind::Resourcepack => instance_dir_path(id, "textures"@),
        ContentKind::Shaderpack => instance_dir_path(id, "shaders"@),
    }
}

/// The directory that the game itself reads content of this kind from, when it is another one.
pub open spec fn compat_content_dir_path(id: Seq<char>, kind: ContentKind) -> Option<
    Seq<Seq<char>>,
> {
    match kind {
        ContentKind::Mod => None,
        ContentKind::Resourcepack => Some(instance_dir_path(id, "resourcepacks"@)),
        ContentKind::Shaderpack => Some(instance_dir_path(id, "shaderpacks"@)),
    }
}

/// The directory that content of this kind is kept in.
pub fn content_dir(profile_id: &str, kind: ContentKind) -> (path: AppPath)
    ensures
        path@ == content_dir_path(profile_id@, kind),
{
    match kind {
        ContentKind::Mod => instance_dir(profile_id, "mods"),
        ContentKind::Resourcepack => instance_dir(profile_id, "textures"),
        ContentKind::Shaderpack => instance_dir(profile_id, "shaders"),
    }
}

/// The directory that the game itself reads content of this kind from, when it is another one.
pub fn compat_content_dir(profile_id: &str, kind: ContentKind) -> (path: Option<AppPath>)
    ensures
        path.deep_view() == compat_content_dir_path(profile_id@, kind),
{
    match kind {
        ContentKind::Mod => None,
        ContentKind::Resourcepack => Some(instance_dir(profile_id, "resourcepacks")),
        ContentKind::Shaderpack => Some(instance_dir(profile_id, "shaderpacks")),
    }
}

// ---------------------------------------------------------------------------
// Versions, assets, caches
// ---------------------------------------------------------------------------

/// A file of the installed version, `extension` with its dot.
pub open spec fn version_file_path(
    id: Seq<char>,
    version: Seq<char>,
    extension: Seq<char>,
) -> Seq<Seq<char>> {
    instance_dir_path(id, "versions"@).push(version).push(version + extension)
}

fn version_file(profile: &Profile, extension: &str) -> (path: AppPath)
    ensures
        path@ == version_file_path(profile.id@, profile.minecraft_version@, extension@),
{
    let version = profile.minecraft_version.as_str();
    let name = concat2(version, extension);
    instance_dir(profile.id.as_str(), "versions").join(version).join(name.as_str())
}

/// The metadata of the version that the profile has installed.
pub fn version_meta_path(profile: &Profile) -> (path: AppPath)
    ensures
        path@ == version_file_path(profile.id@, profile.minecraft_version@, ".json"@),
{
    version_file(profile, ".json")
}

/// The game client that the profile has installed.
pub fn client_jar_path(profile: &Profile) -> (path: AppPath)
    ensures
        path@ == version_file_path(profile.id@, profile.minecraft_version@, ".jar"@),
{
    version_file(profile, ".jar")
}

/// The index of the assets `asset_id`.
pub fn asset_index_path(profile_id: &str, asset_id: &str) -> (path: AppPath)
    ensures
        path@ == instance_dir_path(profile_id@, "assets"@).push("indexes"@).push(
            asset_id@ + ".json"@,
        ),
{
    let name = concat2(asset_id, ".json");
    instance_dir(profile_id, "assets").join("indexes").join(name.as_str())
}

/// The skin that the profile wears.
pub fn skin_file_path(profile_id: &str) -> (path: AppPath)
    ensures
        path@ == instance_dir_path(profile_id@, "skin"@).push("current.png"@),
{
    instance_dir(profile_id, "skin").join("current.png")
}

/// A program of the Java runtime that comes with the launcher.
pub open spec fn bundled_java(major: u8, program: Seq<char>) -> Seq<Seq<char>> {
    seq!["java"@, "jdk-"@ + decimal_text(major as nat), "bin"@, program]
}

/// A program of the Java runtime that comes with the launcher.
pub fn bundled_java_path(major: u8, program: &str) -> (path: AppPath)
    ensures
        path@ == bundled_java(major, program@),
{
    let root = AppPath { steps: Vec::new() };
    let digits = decimal(major as u64);
    let jdk = concat2("jdk-", digits.as_str());
    let path = root.join("java").join(jdk.as_str()).join("bin").join(program);
    assert(path@ =~= bundled_java(major, program@));
    path
}

/// Where the installer of a Forge version is kept.
pub open spec fn forge_installer(version: Seq<char>) -> Seq<Seq<char>> {
    seq!["cache"@, "forge"@, "forge-"@ + version + "-installer.jar"@]
}

/// Where the installer of a Forge version is kept.
pub fn forge_installer_path(version: &str) -> (path: AppPath)
    ensures
        path@ == forge_installer(version@),
{
    let root = AppPath { steps: Vec::new() };
    let name = concat3("forge-", version, "-installer.jar");
    let path = root.join("cache").join("forge").join(name.as_str());
    assert(path@ =~= forge_installer(version@));
    path
}

// ---------------------------------------------------------------------------
// Saving
// ---------------------------------------------------------------------------

/// A file is saved by writing `temporary` and renaming it to `target`.
#[derive(Debug)]
pub struct AtomicWrite {
    pub temporary: AppPath,
    pub target: AppPath,
}

/// How a profile is saved.
pub fn save_profile(profile: &Profile) -> (write: AtomicWrite)
    ensures
        write.target@ == profile_json(profile.id@),
        write.temporary@ == profile_root_path(profile.id@).push("profile.tmp"@),
{
    AtomicWrite {
        temporary: profile_root(profile.id.as_str()).join("profile.tmp"),
        target: profile_json_path(profile.id.as_str()),
    }
}

/// How the list of the content of a profile is saved.
pub fn save_lock(profile_id: &str) -> (write: AtomicWrite)
    ensures
        write.target@ == manifest_lock(profile_id@),
        write.temporary@ == profile_root_path(profile_id@).push("manifest-lock.tmp"@),
{
    AtomicWrite {
        temporary: profile_root(profile_id).join("manifest-lock.tmp"),
        target: manifest_lock_path(profile_id),
    }
}

// ---------------------------------------------------------------------------
// Laws
// ---------------------------------------------------------------------------

/// Everything that belongs to a profile lies below the directory of that profile.
pub proof fn law_profile_files_below_its_root(
    id: Seq<char>,
    kind: ContentKind,
    version: Seq<char>,
    extension: Seq<char>,
)
    ensures
        profile_root_path(id).is_prefix_of(profile_json(id)),
        profile_root_path(id).is_prefix_of(manifest_lock(id)),
        profile_root_path(id).is_prefix_of(content_dir_path(id, kind)),
        compat_content_dir_path(id, kind) matches Some(path) ==> profile_root_path(id).is_prefix_of(
            path,
        ),
        profile_root_path(id).is_prefix_of(version_file_path(id, version, extension)),
        forall|i: int|
            0 <= i < profile_dir_paths(id).len() ==> profile_root_path(id).is_prefix_of(
                #[trigger] profile_dir_paths(id)[i],
            ),
{
}

/// The directories of different profiles have nothing in common: no path lies below both.
pub proof fn law_profiles_are_separate(a: Seq<char>, b: Seq<char>, path: Seq<Seq<char>>)
    requires
        a != b,
    ensures
        !(profile_root_path(a).is_prefix_of(path) && profile_root_path(b).is_prefix_of(path)),
{
    if profile_root_path(a).is_prefix_of(path) && profile_root_path(b).is_prefix_of(path) {
        assert(profile_root_path(a)[1] == path[1]);
        assert(profile_root_path(b)[1] == path[1]);
    }
}

/// The directories that content goes to are among those that a profile is set up with.
pub proof fn law_content_dirs_are_set_up(id: Seq<char>, kind: ContentKind)
    ensures
        profile_dir_paths(id).contains(content_dir_path(id, kind)),
        compat_content_dir_path(id, kind) matches Some(path) ==> profile_dir_paths(id).contains(
            path,
        ),
{
    let dirs = profile_dir_paths(id);
    assert(dirs[1] == content_dir_path(id, ContentKind::Mod));
    assert(dirs[2] == content_dir_path(id, ContentKind::Resourcepack));
    assert(dirs[3] == content_dir_path(id, ContentKind::Shaderpack));
    assert(Some(dirs[4]) == compat_content_dir_path(id, ContentKind::Resourcepack));
    assert(Some(dirs[5]) == compat_content_dir_path(id, ContentKind::Shaderpack));
}

/// Content of different kinds goes to different directories.
pub proof fn law_content_dirs_differ(id: Seq<char>, a: ContentKind, b: ContentKind)
    requires
        a != b,
    ensures
        content_dir_path(id, a) != content_dir_path(id, b),
{
    reveal_strlit("mods");
    reveal_strlit("textures");
    reveal_strlit("shaders");
    assert("mods"@.len() == 4 && "textures"@.len() == 8 && "shaders"@.len() == 7);
    assert(content_dir_path(id, a)[3] != content_dir_path(id, b)[3]);
}

/// A file is first written under another name in the directory it is renamed within.
pub proof fn law_saving_stays_in_the_directory(id: Seq<char>)
    ensures
        profile_json(id).drop_last() == profile_root_path(id).push("profile.tmp"@).drop_last(),
        profile_json(id) != profile_root_path(id).push("profile.tmp"@),
        manifest_lock(id).drop_last() == profile_root_path(id).push(
            "manifest-lock.tmp"@,
        ).drop_last(),
        manifest_lock(id) != profile_root_path(id).push("manifest-lock.tmp"@),
{
    reveal_strlit("profile.json");
    reveal_strlit("profile.tmp");
    reveal_strlit("manifest-lock.json");
    reveal_strlit("manifest-lock.tmp");
    let root = profile_root_path(id);
    assert(root.push("profile.json"@).drop_last() =~= root);
    assert(root.push("profile.tmp"@).drop_last() =~= root);
    assert(root.push("manifest-lock.json"@).drop_last() =~= root);
    assert(root.push("manifest-lock.tmp"@).drop_last() =~= root);
    assert("profile.json"@.len() != "profile.tmp"@.len());
    assert(profile_json(id).last() != root.push("profile.tmp"@).last());
    assert("manifest-lock.json"@.len() != "manifest-lock.tmp"@.len());
    assert(manifest_lock(id).last() != root.push("manifest-lock.tmp"@).last());
}

/// Where everything lies, step by step from the data directory.
pub proof fn law_where_a_profile_lies(
    id: Seq<char>,
    dir: Seq<char>,
    version: Seq<char>,
    extension: Seq<char>,
)
    ensures
        profiles_root_path() == seq!["profiles"@],
        profile_root_path(id) == seq!["profiles"@, id],
        profile_json(id) == seq!["profiles"@, id, "profile.json"@],
        manifest_lock(id) == seq!["profiles"@, id, "manifest-lock.json"@],
        instance_path(id) == seq!["profiles"@, id, "instance"@],
        instance_dir_path(id, dir) == seq!["profiles"@, id, "instance"@, dir],
        version_file_path(id, version, extension) == seq!["profiles"@, id, "instance"@, "versions"@]
            + seq![version, version + extension],
{
    assert(profile_root_path(id) =~= seq!["profiles"@, id]);
    assert(profile_json(id) =~= seq!["profiles"@, id, "profile.json"@]);
    assert(manifest_lock(id) =~= seq!["profiles"@, id, "manifest-lock.json"@]);
    assert(instance_path(id) =~= seq!["profiles"@, id, "instance"@]);
    assert(instance_dir_path(id, dir) =~= seq!["profiles"@, id, "instance"@, dir]);
    assert(version_file_path(id, version, extension) =~= seq![
        "profiles"@,
        id,
        "instance"@,
        "versions"@,
    ] + seq![version, version + extension]);
}

/// Where content of each kind is kept, and where the game itself reads it.
pub proof fn law_where_content_lies(id: Seq<char>)
    ensures
        content_dir_path(id, ContentKind::Mod) == seq!["profiles"@, id, "instance"@, "mods"@],
        content_dir_path(id, ContentKind::Resourcepack) == seq![
            "profiles"@,
            id,
            "instance"@,
            "textures"@,
        ],
        content_dir_path(id, ContentKind::Shaderpack) == seq![
            "profiles"@,
            id,
            "instance"@,
            "shaders"@,
        ],
        compat_content_dir_path(id, ContentKind::Mod) is None,
        compat_content_dir_path(id, ContentKind::Resourcepack) == Some(
            seq!["profiles"@, id, "instance"@, "resourcepacks"@],
        ),
        compat_content_dir_path(id, ContentKind::Shaderpack) == Some(
            seq!["profiles"@, id, "instance"@, "shaderpacks"@],
        ),
{
    assert(instance_dir_path(id, "mods"@) =~= seq!["profiles"@, id, "instance"@, "mods"@]);
    assert(instance_dir_path(id, "textures"@) =~= seq!["profiles"@, id, "instance"@, "textures"@]);
    assert(instance_dir_path(id, "shaders"@) =~= seq!["profiles"@, id, "instance"@, "shaders"@]);
    assert(instance_dir_path(id, "resourcepacks"@) =~= seq![
        "profiles"@,
        id,
        "instance"@,
        "resourcepacks"@,
    ]);
    assert(instance_dir_path(id, "shaderpacks"@) =~= seq![
        "profiles"@,
        id,
        "instance"@,
        "shaderpacks"@,
    ]);
}

/// The directories that a profile is set up with: the game directory, and ten in it.
pub proof fn law_directories_of_a_profile(id: Seq<char>)
    ensures
        profile_dir_paths(id).len() == 11,
        profile_dir_paths(id)[0] == instance_path(id),
        profile_dir_paths(id)[1] == instance_dir_path(id, "mods"@),
        profile_dir_paths(id)[2] == instance_dir_path(id, "textures"@),
        profile_dir_paths(id)[3] == instance_dir_path(id, "shaders"@),
        profile_dir_paths(id)[4] == instance_dir_path(id, "resourcepacks"@),
        profile_dir_paths(id)[5] == instance_dir_path(id, "shaderpacks"@),
        profile_dir_paths(id)[6] == instance_dir_path(id, "versions"@),
        profile_dir_paths(id)[7] == instance_dir_path(id, "libraries"@),
        profile_dir_paths(id)[8] == instance_dir_path(id, "assets"@),
        profile_dir_paths(id)[9] == instance_dir_path(id, "natives"@),
        profile_dir_paths(id)[10] == instance_dir_path(id, "skin"@),
{
}

/// Where a bundled runtime and a kept installer lie: each version has a place of its own.
pub proof fn law_where_runtimes_and_installers_lie(major: u8, program: Seq<char>, version: Seq<char>)
    ensures
        bundled_java(major, program).len() == 4,
        bundled_java(major, program)[0] == "java"@,
        bundled_java(major, program)[1] == "jdk-"@ + decimal_text(major as nat),
        bundled_java(major, program)[2] == "bin"@,
        bundled_java(major, program)[3] == program,
        forge_installer(version).len() == 3,
        forge_installer(version)[0] == "cache"@,
        forge_installer(version)[1] == "forge"@,
        forge_installer(version)[2] == "forge-"@ + version + "-installer.jar"@,
{
}

/// The metadata and the client of a version lie beside each other, in the directory of the version,
/// under its name.
pub proof fn law_metadata_lies_beside_the_client(profile: &Profile, meta: AppPath, client: AppPath)
    requires
        call_ensures(version_meta_path, (profile,), meta),
        call_ensures(client_jar_path, (profile,), client),
    ensures
        meta@ == seq!["profiles"@, profile.id@, "instance"@, "versions"@] + seq![
            profile.minecraft_version@,
            profile.minecraft_version@ + ".json"@,
        ],
        client@ == seq!["profiles"@, profile.id@, "instance"@, "versions"@] + seq![
            profile.minecraft_version@,
            profile.minecraft_version@ + ".jar"@,
        ],
        meta@.drop_last() == client@.drop_last(),
{
    let id = profile.id@;
    let version = profile.minecraft_version@;
    law_where_a_profile_lies(id, id, version, ".json"@);
    law_where_a_profile_lies(id, id, version, ".jar"@);
    assert(meta@.drop_last() =~= client@.drop_last());
}

/// Where the index of assets and the skin of a profile lie.
pub proof fn law_where_index_and_skin_lie(
    profile_id: &str,
    asset_id: &str,
    index: AppPath,
    skin: AppPath,
)
    requires
        call_ensures(asset_index_path, (profile_id, asset_id), index),
        call_ensures(skin_file_path, (profile_id,), skin),
    ensures
        index@ == seq!["profiles"@, profile_id@, "instance"@, "assets"@] + seq![
            "indexes"@,
            asset_id@ + ".json"@,
        ],
        skin@ == seq!["profiles"@, profile_id@, "instance"@, "skin"@] + seq!["current.png"@],
{
    let id = profile_id@;
    law_where_a_profile_lies(id, "assets"@, id, id);
    law_where_a_profile_lies(id, "skin"@, id, id);
    assert(index@ =~= seq!["profiles"@, id, "instance"@, "assets"@] + seq![
        "indexes"@,
        asset_id@ + ".json"@,
    ]);
    assert(skin@ =~= seq!["profiles"@, id, "instance"@, "skin"@] + seq!["current.png"@]);
}

/// The data directory: in the application data where there is any, else in the working directory, or
/// in `.` where that is not known.
pub proof fn law_data_directory(has_app_data: bool, has_current_dir: bool, root: (RootBase, String))
    requires
        call_ensures(app_root, (has_app_data, has_current_dir), root),
    ensures
        root.0 == RootBase::AppData <==> has_app_data,
        root.0 == RootBase::CurrentDir <==> !has_app_data && has_current_dir,
        root.0 == RootBase::Dot <==> !has_app_data && !has_current_dir,
        has_app_data ==> root.1@ == "RoundStudioLauncher"@,
        !has_app_data ==> root.1@ == ".round-studio-launcher"@,
{
}

} // verus!
