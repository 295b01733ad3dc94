//! Content of a profile: mods, resource packs and shader packs.
use vstd::prelude::*;

use crate::error::LauncherError;
use crate::external::{file_name_of, is_uuid_text};
use crate::filename::{
    has_name, is_portable_path, law_portable_path_has_one_name, may_be_name, name_in, PathStyle,
};
use crate::identity::{fresh_id, now_rfc3339, timestamp_text};
use crate::modrinth::{choose_file, chosen_file, law_chosen_file_is_listed, ModrinthVersion};
use crate::paths::{
    compat_content_dir, compat_content_dir_path, content_dir, content_dir_path, AppPath,
    ContentKind,
};

verus! {

/// A piece of content that a profile has.
#[derive(Debug)]
pub struct ContentItem {
    pub id: String,
    pub file_name: String,
    pub kind: ContentKind,
    pub source: String,
    pub added_at: String,
}

/// What a [`ContentItem`] holds.
pub struct ItemModel {
    pub id: Seq<char>,
    pub file_name: Seq<char>,
    pub kind: ContentKind,
    pub source: Seq<char>,
    pub added_at: Seq<char>,
}

impl DeepView for ContentItem {
    type V = ItemModel;

    open spec fn deep_view(&self) -> ItemModel {
        ItemModel {
            id: self.id@,
            file_name: self.file_name@,
            kind: self.kind,
            source: self.source@,
            added_at: self.added_at@,
        }
    }
}

// ---------------------------------------------------------------------------
// The list of content
// ---------------------------------------------------------------------------

/// What was found where the list of the content of a profile is kept.
#[derive(Debug)]
pub enum StoredLock {
    /// Nothing is there.
    Missing,
    /// It cannot be read, for this reason.
    Unreadable(String),
    Items(Vec<ContentItem>),
}

/// What a [`StoredLock`] holds.
pub enum LockModel {
    Missing,
    Unreadable(Seq<char>),
    Items(Seq<ItemModel>),
}

impl DeepView for StoredLock {
    type V = LockModel;

    open spec fn deep_view(&self) -> LockModel {
        match self {
            StoredLock::Missing => LockModel::Missing,
            StoredLock::Unreadable(reason) => LockModel::Unreadable(reason@),
            StoredLock::Items(items) => LockModel::Items(items.deep_view()),
        }
    }
}

/// The content that is listed: none where there is no list yet.
pub open spec fn listed_items(stored: LockModel) -> Result<Seq<ItemModel>, Seq<char>> {
    match stored {
        LockModel::Missing => Ok(Seq::empty()),
        LockModel::Unreadable(reason) => Err(reason),
        LockModel::Items(items) => Ok(items),
    }
}

/// The content that is listed.
pub fn load_lock(stored: StoredLock) -> (items: Result<Vec<ContentItem>, String>)
    ensures
        match items {
            Ok(items) => listed_items(stored.deep_view()) == Ok::<Seq<ItemModel>, Seq<char>>(
                items.deep_view(),
            ),
            Err(reason) => listed_items(stored.deep_view()) == Err::<Seq<ItemModel>, Seq<char>>(
                reason@,
            ),
        },
{
    match stored {
        StoredLock::Missing => {
            let none: Vec<ContentItem> = Vec::new();
            assert(none.deep_view() =~= Seq::empty());
            Ok(none)
        },
        StoredLock::Unreadable(reason) => Err(reason),
        StoredLock::Items(items) => Ok(items),
    }
}

/// The list to write so that an item is listed too: behind what is listed. Where the list cannot be
/// read there is none, and nothing is written.
pub open spec fn appended_items(stored: LockModel, item: ItemModel) -> Result<
    Seq<ItemModel>,
    Seq<char>,
> {
    match listed_items(stored) {
        Ok(items) => Ok(items.push(item)),
        Err(reason) => Err(reason),
    }
}

/// The list to write so that an item is listed too.
pub fn append_lock_item(stored: StoredLock, item: ContentItem) -> (appended: Result<
    Vec<ContentItem>,
    String,
>)
    ensures
        match appended {
            Ok(items) => appended_items(stored.deep_view(), item.deep_view()) == Ok::<
                Seq<ItemModel>,
                Seq<char>,
            >(items.deep_view()),
            Err(reason) => appended_items(stored.deep_view(), item.deep_view()) == Err::<
                Seq<ItemModel>,
                Seq<char>,
            >(reason@),
        },
{
    match load_lock(stored) {
        Ok(listed) => {
            let mut items = listed;
            items.push(item);
            assert(items.deep_view() =~= listed.deep_view().push(item.deep_view()));
            Ok(items)
        },
        Err(reason) => Err(reason),
    }
}

// ---------------------------------------------------------------------------
// Adding content
// ---------------------------------------------------------------------------

/// The files that a piece of content is written to: one in the directory of its kind, and one more
/// where the game itself reads another directory.
pub open spec fn target_paths(
    profile_id: Seq<char>,
    kind: ContentKind,
    file_name: Seq<char>,
) -> Seq<Seq<Seq<char>>> {
    let first = seq![content_dir_path(profile_id, kind).push(file_name)];
    match compat_content_dir_path(profile_id, kind) {
        Some(dir) => first.push(dir.push(file_name)),
        None => first,
    }
}

/// The files that a piece of content is written to.
pub fn content_targets(profile_id: &str, kind: ContentKind, file_name: &str) -> (targets: Vec<
    AppPath,
>)
    ensures
        targets.deep_view() == target_paths(profile_id@, kind, file_name@),
{
    let mut targets: Vec<AppPath> = Vec::new();
    targets.push(content_dir(profile_id, kind).join(file_name));
    if let Some(dir) = compat_content_dir(profile_id, kind) {
        targets.push(dir.join(file_name));
    }
    assert(targets.deep_view() =~= target_paths(profile_id@, kind, file_name@));
    targets
}

/// How a piece of content is added: the files to write, and the item to list.
#[derive(Debug)]
pub struct ContentPlan {
    pub targets: Vec<AppPath>,
    pub item: ContentItem,
}

/// Whether a plan adds the content `file_name` under the identifier `id`.
pub open spec fn adds_content(
    plan: ContentPlan,
    profile_id: Seq<char>,
    kind: ContentKind,
    source: Seq<char>,
    file_name: Seq<char>,
    id: Seq<char>,
    since_epoch: Option<u64>,
) -> bool {
    &&& plan.targets.deep_view() == target_paths(profile_id, kind, file_name)
    &&& plan.item.deep_view() == ItemModel {
        id,
        file_name,
        kind,
        source,
        added_at: timestamp_text(since_epoch),
    }
}

fn plan_content(
    profile_id: &str,
    kind: ContentKind,
    source: &str,
    file_name: String,
    id: String,
    since_epoch: Option<u64>,
) -> (plan: ContentPlan)
    ensures
        adds_content(plan, profile_id@, kind, source@, file_name@, id@, since_epoch),
{
    ContentPlan {
        targets: content_targets(profile_id, kind, file_name.as_str()),
        item: ContentItem {
            id,
            file_name,
            kind,
            source: source.to_owned(),
            added_at: now_rfc3339(since_epoch),
        },
    }
}

// ---------------------------------------------------------------------------
// Files of the player
// ---------------------------------------------------------------------------

/// How a file of the player is added under the identifier `id`. One that is not there, or that has
/// no usable name, is refused.
pub fn import_file(
    profile_id: &str,
    kind: ContentKind,
    exists: bool,
    file_name: Option<String>,
    id: String,
    since_epoch: Option<u64>,
) -> (plan: Result<ContentPlan, LauncherError>)
    ensures
        match plan {
            Ok(plan) => exists && file_name is Some && adds_content(
                plan,
                profile_id@,
                kind,
                "local"@,
                file_name->Some_0@,
                id@,
                since_epoch,
            ),
            Err(LauncherError::FileNotFound) => !exists,
            Err(LauncherError::InvalidFileName) => exists && file_name is None,
            Err(_) => false,
        },
{
    if !exists {
        return Err(LauncherError::FileNotFound);
    }
    match file_name {
        Some(name) => Ok(plan_content(profile_id, kind, "local", name, id, since_epoch)),
        None => Err(LauncherError::InvalidFileName),
    }
}

/// How the file at `file_path` is added under its own name and a new identifier.
pub fn content_import_local(
    profile_id: &str,
    kind: ContentKind,
    file_path: &str,
    exists: bool,
    since_epoch: Option<u64>,
) -> (plan: Result<ContentPlan, LauncherError>)
    ensures
        match plan {
            Ok(plan) => {
                &&& exists
                &&& is_uuid_text(plan.item.id@, '4')
                &&& may_be_name(file_path@, Some(plan.item.file_name@))
                &&& adds_content(
                    plan,
                    profile_id@,
                    kind,
                    "local"@,
                    plan.item.file_name@,
                    plan.item.id@,
                    since_epoch,
                )
            },
            Err(LauncherError::FileNotFound) => !exists,
            Err(LauncherError::InvalidFileName) => exists && may_be_name(file_path@, None),
            Err(_) => false,
        },
        exists && has_name(file_path@) ==> plan is Ok,
        exists && is_portable_path(file_path@) ==> match name_in(file_path@, PathStyle::Unix) {
            Some(name) => plan is Ok && plan->Ok_0.item.file_name@ == name,
            None => plan is Err,
        },
{
    proof {
        if is_portable_path(file_path@) {
            law_portable_path_has_one_name(file_path@);
        }
    }
    let file_name = file_name_of(file_path);
    import_file(profile_id, kind, exists, file_name, fresh_id(), since_epoch)
}

// ---------------------------------------------------------------------------
// Files from Modrinth
// ---------------------------------------------------------------------------

/// How a version from Modrinth is added: where the file comes from, and the plan.
#[derive(Debug)]
pub struct DownloadPlan {
    pub url: String,
    pub content: ContentPlan,
}

/// How a version from Modrinth is added under the identifier `id`. One without files is refused.
pub fn install_version(
    profile_id: &str,
    kind: ContentKind,
    version: &ModrinthVersion,
    id: String,
    since_epoch: Option<u64>,
) -> (plan: Result<DownloadPlan, LauncherError>)
    ensures
        match plan {
            Ok(plan) => {
                &&& chosen_file(version.files.deep_view()) matches Some(file)
                &&& plan.url@ == file.url
                &&& adds_content(
                    plan.content,
                    profile_id@,
                    kind,
                    "modrinth"@,
                    file.filename,
                    id@,
                    since_epoch,
                )
            },
            Err(error) => chosen_file(version.files.deep_view()) is None && error is NoVersionFiles,
        },
{
    match choose_file(version) {
        Some(file) => {
            let name = file.filename.clone();
            Ok(
                DownloadPlan {
                    url: file.url.clone(),
                    content: plan_content(profile_id, kind, "modrinth", name, id, since_epoch),
                },
            )
        },
        None => Err(LauncherError::NoVersionFiles),
    }
}

/// How a version from Modrinth is added under a new identifier.
pub fn content_install_modrinth(
    profile_id: &str,
    kind: ContentKind,
    version: &ModrinthVersion,
    since_epoch: Option<u64>,
) -> (plan: Result<DownloadPlan, LauncherError>)
    ensures
        match plan {
            Ok(plan) => {
                &&& chosen_file(version.files.deep_view()) matches Some(file)
                &&& plan.url@ == file.url
                &&& is_uuid_text(plan.content.item.id@, '4')
                &&& adds_content(
                    plan.content,
                    profile_id@,
                    kind,
                    "modrinth"@,
                    file.filename,
                    plan.content.item.id@,
                    since_epoch,
                )
            },
            Err(error) => chosen_file(version.files.deep_view()) is None && error is NoVersionFiles,
        },
{
    install_version(profile_id, kind, version, fresh_id(), since_epoch)
}

// ---------------------------------------------------------------------------
// Laws
// ---------------------------------------------------------------------------

/// What was appended is read back: what was listed before it, in the same order, then the item. An
/// unreadable list is never written, and a readable one always can be.
pub proof fn law_appended_item_is_read_back(stored: LockModel, item: ItemModel)
    ensures
        appended_items(stored, item) is Err <==> listed_items(stored) is Err,
        appended_items(stored, item) matches Ok(items) ==> listed_items(LockModel::Items(items))
            == Ok::<Seq<ItemModel>, Seq<char>>(listed_items(stored)->Ok_0.push(item)),
{
}

/// Content is written under its own name, into directories that the profile is set up with.
pub proof fn law_content_goes_to_set_up_directories(
    profile_id: Seq<char>,
    kind: ContentKind,
    file_name: Seq<char>,
    i: int,
)
    requires
        0 <= i < target_paths(profile_id, kind, file_name).len(),
    ensures
        target_paths(profile_id, kind, file_name)[i].last() == file_name,
        crate::paths::profile_dir_paths(profile_id).contains(
            target_paths(profile_id, kind, file_name)[i].drop_last(),
        ),
{
    crate::paths::law_content_dirs_are_set_up(profile_id, kind);
    let dir = content_dir_path(profile_id, kind);
    assert(dir.push(file_name).drop_last() =~= dir);
    if let Some(other) = compat_content_dir_path(profile_id, kind) {
        assert(other.push(file_name).drop_last() =~= other);
    }
}

/// What is listed: nothing where there is no list, the items where there is one; an unreadable list
/// is refused with its reason. An item that is appended comes last, and the others stay as they are.
pub proof fn law_list_of_content(items: Seq<ItemModel>, item: ItemModel, reason: Seq<char>)
    ensures
        listed_items(LockModel::Missing) == Ok::<Seq<ItemModel>, Seq<char>>(Seq::empty()),
        listed_items(LockModel::Items(items)) == Ok::<Seq<ItemModel>, Seq<char>>(items),
        listed_items(LockModel::Unreadable(reason)) == Err::<Seq<ItemModel>, Seq<char>>(reason),
        appended_items(LockModel::Missing, item) == Ok::<Seq<ItemModel>, Seq<char>>(seq![item]),
        appended_items(LockModel::Items(items), item) == Ok::<Seq<ItemModel>, Seq<char>>(
            items + seq![item],
        ),
        appended_items(LockModel::Unreadable(reason), item) == Err::<Seq<ItemModel>, Seq<char>>(
            reason,
        ),
{
    assert(Seq::<ItemModel>::empty().push(item) =~= seq![item]);
    assert(items.push(item) =~= items + seq![item]);
}

/// The files that content is written to: a mod to one place, a resource pack and a shader pack to
/// two, each under its own name.
pub proof fn law_places_of_content(id: Seq<char>, name: Seq<char>)
    ensures
        target_paths(id, ContentKind::Mod, name) == seq![
            seq!["profiles"@, id, "instance"@, "mods"@, name],
        ],
        target_paths(id, ContentKind::Resourcepack, name) == seq![
            seq!["profiles"@, id, "instance"@, "textures"@, name],
            seq!["profiles"@, id, "instance"@, "resourcepacks"@, name],
        ],
        target_paths(id, ContentKind::Shaderpack, name) == seq![
            seq!["profiles"@, id, "instance"@, "shaders"@, name],
            seq!["profiles"@, id, "instance"@, "shaderpacks"@, name],
        ],
{
    crate::paths::law_where_content_lies(id);
    let below = |dir: Seq<char>| seq!["profiles"@, id, "instance"@, dir, name];
    assert(seq!["profiles"@, id, "instance"@, "mods"@].push(name) =~= below("mods"@));
    assert(seq!["profiles"@, id, "instance"@, "textures"@].push(name) =~= below("textures"@));
    assert(seq!["profiles"@, id, "instance"@, "shaders"@].push(name) =~= below("shaders"@));
    assert(seq!["profiles"@, id, "instance"@, "resourcepacks"@].push(name) =~= below(
        "resourcepacks"@,
    ));
    assert(seq!["profiles"@, id, "instance"@, "shaderpacks"@].push(name) =~= below("shaderpacks"@));
    assert(target_paths(id, ContentKind::Mod, name) =~= seq![below("mods"@)]);
    assert(target_paths(id, ContentKind::Resourcepack, name) =~= seq![
        below("textures"@),
        below("resourcepacks"@),
    ]);
    assert(target_paths(id, ContentKind::Shaderpack, name) =~= seq![
        below("shaders"@),
        below("shaderpacks"@),
    ]);
}

/// A plan that adds content lists it with its identifier, its name, its kind, its source and the
/// time, and writes it to its places.
pub proof fn law_plan_lists_what_it_adds(
    plan: ContentPlan,
    profile_id: Seq<char>,
    kind: ContentKind,
    source: Seq<char>,
    file_name: Seq<char>,
    id: Seq<char>,
    since_epoch: Option<u64>,
)
    requires
        adds_content(plan, profile_id, kind, source, file_name, id, since_epoch),
    ensures
        plan.item.id@ == id,
        plan.item.file_name@ == file_name,
        plan.item.kind == kind,
        plan.item.source@ == source,
        plan.item.added_at@ == timestamp_text(since_epoch),
        plan.targets.deep_view() == target_paths(profile_id, kind, file_name),
{
    assert(plan.item.deep_view().id == id);
}

/// A file of the player is added under its own name where it is there and has one; a file that is
/// not there is refused before one without a name.
pub proof fn law_imported_file(
    profile_id: &str,
    kind: ContentKind,
    exists: bool,
    file_name: Option<String>,
    id: String,
    since_epoch: Option<u64>,
    plan: Result<ContentPlan, LauncherError>,
)
    requires
        call_ensures(import_file, (profile_id, kind, exists, file_name, id, since_epoch), plan),
    ensures
        plan is Ok <==> exists && file_name is Some,
        plan matches Err(error) ==> (error is FileNotFound <==> !exists),
        plan matches Err(error) ==> (error is InvalidFileName <==> exists),
        plan matches Ok(plan) ==> {
            &&& file_name matches Some(name) ==> plan.item.file_name@ == name@
            &&& plan.item.id@ == id@
            &&& plan.item.kind == kind
            &&& plan.item.source@ == "local"@
        },
{
    if let Ok(result) = plan {
        let item = result.item.deep_view();
        law_plan_lists_what_it_adds(
            result,
            profile_id@,
            kind,
            "local"@,
            file_name->Some_0@,
            id@,
            since_epoch,
        );
        assert(item.id == id@);
    }
}

/// A version from Modrinth is added from one of its files, under the name of that file.
pub proof fn law_installed_version(
    profile_id: &str,
    kind: ContentKind,
    version: &ModrinthVersion,
    id: String,
    since_epoch: Option<u64>,
    plan: Result<DownloadPlan, LauncherError>,
)
    requires
        call_ensures(install_version, (profile_id, kind, version, id, since_epoch), plan),
    ensures
        plan is Ok <==> version.files.deep_view().len() > 0,
        plan matches Err(error) ==> error is NoVersionFiles,
        plan matches Ok(plan) ==> exists|i: int|
            {
                &&& 0 <= i < version.files.deep_view().len()
                &&& plan.url@ == (#[trigger] version.files.deep_view()[i]).url
                &&& plan.content.item.file_name@ == version.files.deep_view()[i].filename
                &&& plan.content.item.source@ == "modrinth"@
                &&& plan.content.item.kind == kind
                &&& plan.content.item.id@ == id@
            },
{
    let files = version.files.deep_view();
    law_chosen_file_is_listed(files);
    if let Ok(result) = plan {
        let file = chosen_file(files)->Some_0;
        let i = choose|i: int| 0 <= i < files.len() && files[i] == file;
        law_plan_lists_what_it_adds(
            result.content,
            profile_id@,
            kind,
            "modrinth"@,
            file.filename,
            id@,
            since_epoch,
        );
        assert(files[i].url == result.url@);
    }
}

} // verus!
