//! Profiles: what a player sets up, creates, edits, copies and lists.
use vstd::prelude::*;

use crate::error::LauncherError;
use crate::external::{is_nickname, is_uuid_text};
use crate::identity::{fresh_id, now_rfc3339, require_valid_nick, timestamp_text};
use crate::order::{
    before, law_before_irreflexive, law_before_total, law_before_transitive, text_before,
};
use crate::text::{
    concat2, is_blank, is_white_space, law_blank_is_all_white_space,
    law_trim_leaves_what_is_between, trim, trim_text,
};

verus! {

/// The mod loader of a profile.
#[derive(Clone, Copy, Debug, PartialEq, Eq, Structural)]
pub enum LoaderType {
    Vanilla,
    Fabric,
    Forge,
}

/// A profile as it is stored.
#[derive(Debug)]
pub struct Profile {
    pub id: String,
    pub name: String,
    pub minecraft_version: String,
    pub loader: LoaderType,
    pub loader_version: Option<String>,
    pub nickname: String,
    pub ram_mb: u32,
    pub java_path: Option<String>,
    pub jvm_args: Vec<String>,
    pub skin_path: Option<String>,
    pub created_at: String,
}

/// What a profile holds, as mathematical values.
pub struct ProfileModel {
    pub id: Seq<char>,
    pub name: Seq<char>,
    pub minecraft_version: Seq<char>,
    pub loader: LoaderType,
    pub loader_version: Option<Seq<char>>,
    pub nickname: Seq<char>,
    pub ram_mb: u32,
    pub java_path: Option<Seq<char>>,
    pub jvm_args: Seq<Seq<char>>,
    pub skin_path: Option<Seq<char>>,
    pub created_at: Seq<char>,
}

impl DeepView for Profile {
    type V = ProfileModel;

    open spec fn deep_view(&self) -> ProfileModel {
        ProfileModel {
            id: self.id@,
            name: self.name@,
            minecraft_version: self.minecraft_version@,
            loader: self.loader,
            loader_version: self.loader_version.deep_view(),
            nickname: self.nickname@,
            ram_mb: self.ram_mb,
            java_path: self.java_path.deep_view(),
            jvm_args: self.jvm_args.deep_view(),
            skin_path: self.skin_path.deep_view(),
            created_at: self.created_at@,
        }
    }
}

// ---------------------------------------------------------------------------
// Creating
// ---------------------------------------------------------------------------

/// What a player gives to create a profile.
#[derive(Debug)]
pub struct CreateProfileInput {
    pub name: String,
    pub minecraft_version: String,
    pub loader: LoaderType,
    pub loader_version: Option<String>,
    pub nickname: String,
    pub ram_mb: Option<u32>,
    pub java_path: Option<String>,
    pub jvm_args: Option<Vec<String>>,
}

/// What a [`CreateProfileInput`] holds.
pub struct CreateInputModel {
    pub name: Seq<char>,
    pub minecraft_version: Seq<char>,
    pub loader: LoaderType,
    pub loader_version: Option<Seq<char>>,
    pub nickname: Seq<char>,
    pub ram_mb: Option<u32>,
    pub java_path: Option<Seq<char>>,
    pub jvm_args: Option<Seq<Seq<char>>>,
}

impl DeepView for CreateProfileInput {
    type V = CreateInputModel;

    open spec fn deep_view(&self) -> CreateInputModel {
        CreateInputModel {
            name: self.name@,
            minecraft_version: self.minecraft_version@,
            loader: self.loader,
            loader_version: self.loader_version.deep_view(),
            nickname: self.nickname@,
            ram_mb: self.ram_mb,
            java_path: self.java_path.deep_view(),
            jvm_args: self.jvm_args.deep_view(),
        }
    }
}

/// A new profile: 4096 megabytes of memory and no arguments where nothing is given, and no skin.
pub open spec fn created(
    input: CreateInputModel,
    id: Seq<char>,
    created_at: Seq<char>,
) -> ProfileModel {
    ProfileModel {
        id,
        name: input.name,
        minecraft_version: input.minecraft_version,
        loader: input.loader,
        loader_version: input.loader_version,
        nickname: input.nickname,
        ram_mb: match input.ram_mb {
            Some(ram) => ram,
            None => 4096,
        },
        java_path: input.java_path,
        jvm_args: match input.jvm_args {
            Some(args) => args,
            None => Seq::empty(),
        },
        skin_path: None,
        created_at,
    }
}

/// A new profile under the identifier `id`. One without a proper nickname is refused.
pub fn create_profile(input: CreateProfileInput, id: String, since_epoch: Option<u64>) -> (profile:
    Result<Profile, LauncherError>)
    ensures
        match profile {
            Ok(profile) => is_nickname(input.nickname@) && profile.deep_view() == created(
                input.deep_view(),
                id@,
                timestamp_text(since_epoch),
            ),
            Err(error) => !is_nickname(input.nickname@) && error is InvalidNickname,
        },
{
    if require_valid_nick(input.nickname.as_str()).is_err() {
        return Err(LauncherError::InvalidNickname);
    }
    let ram_mb: u32 = match input.ram_mb {
        Some(ram) => ram,
        None => 4096,
    };
    let jvm_args = match input.jvm_args {
        Some(args) => args,
        None => {
            let none: Vec<String> = Vec::new();
            assert(none.deep_view() =~= Seq::empty());
            none
        },
    };
    Ok(
        Profile {
            id,
            name: input.name,
            minecraft_version: input.minecraft_version,
            loader: input.loader,
            loader_version: input.loader_version,
            nickname: input.nickname,
            ram_mb,
            java_path: input.java_path,
            jvm_args,
            skin_path: None,
            created_at: now_rfc3339(since_epoch),
        },
    )
}

/// A new profile under a new identifier. One without a proper nickname is refused.
pub fn profiles_create(input: CreateProfileInput, since_epoch: Option<u64>) -> (profile: Result<
    Profile,
    LauncherError,
>)
    ensures
        match profile {
            Ok(profile) => {
                &&& is_nickname(input.nickname@)
                &&& is_uuid_text(profile.id@, '4')
                &&& profile.deep_view() == created(
                    input.deep_view(),
                    profile.id@,
                    timestamp_text(since_epoch),
                )
            },
            Err(error) => !is_nickname(input.nickname@) && error is InvalidNickname,
        },
{
    create_profile(input, fresh_id(), since_epoch)
}

// ---------------------------------------------------------------------------
// Copying
// ---------------------------------------------------------------------------

/// The name of a copy: the one that is given, without white space around it, else the name of the
/// source with a mark behind it.
pub open spec fn copy_name(name: Seq<char>, given: Option<Seq<char>>) -> Seq<char> {
    match given {
        Some(given) => if trim_text(given).len() == 0 {
            name + " Copy"@
        } else {
            trim_text(given)
        },
        None => name + " Copy"@,
    }
}

/// A copy of a profile: it has another identifier, another name and another date, all else is the
/// same.
pub open spec fn copied(
    profile: ProfileModel,
    given: Option<Seq<char>>,
    id: Seq<char>,
    created_at: Seq<char>,
) -> ProfileModel {
    ProfileModel { id, name: copy_name(profile.name, given), created_at, ..profile }
}

/// A copy of a profile under the identifier `id`.
pub fn copy_profile(
    profile: Profile,
    name: Option<String>,
    id: String,
    since_epoch: Option<u64>,
) -> (copy: Profile)
    ensures
        copy.deep_view() == copied(
            profile.deep_view(),
            name.deep_view(),
            id@,
            timestamp_text(since_epoch),
        ),
{
    let mut copy = profile;
    let trimmed = match &name {
        Some(given) => trim(given.as_str()),
        None => String::new(),
    };
    copy.id = id;
    copy.name = if trimmed.as_str().is_empty() {
        concat2(copy.name.as_str(), " Copy")
    } else {
        trimmed
    };
    copy.created_at = now_rfc3339(since_epoch);
    copy
}

/// A copy of a profile under a new identifier.
pub fn profiles_clone(profile: Profile, name: Option<String>, since_epoch: Option<u64>) -> (copy:
    Profile)
    ensures
        is_uuid_text(copy.id@, '4'),
        copy.deep_view() == copied(
            profile.deep_view(),
            name.deep_view(),
            copy.id@,
            timestamp_text(since_epoch),
        ),
{
    copy_profile(profile, name, fresh_id(), since_epoch)
}

// ---------------------------------------------------------------------------
// Editing
// ---------------------------------------------------------------------------

/// What a player changes of a profile.
#[derive(Debug)]
pub struct ProfilePatch {
    pub name: Option<String>,
    pub minecraft_version: Option<String>,
    pub loader: Option<LoaderType>,
    pub loader_version: Option<String>,
    pub nickname: Option<String>,
    pub ram_mb: Option<u32>,
    pub java_path: Option<String>,
    pub jvm_args: Option<Vec<String>>,
}

/// What a [`ProfilePatch`] holds.
pub struct PatchModel {
    pub name: Option<Seq<char>>,
    pub minecraft_version: Option<Seq<char>>,
    pub loader: Option<LoaderType>,
    pub loader_version: Option<Seq<char>>,
    pub nickname: Option<Seq<char>>,
    pub ram_mb: Option<u32>,
    pub java_path: Option<Seq<char>>,
    pub jvm_args: Option<Seq<Seq<char>>>,
}

impl DeepView for ProfilePatch {
    type V = PatchModel;

    open spec fn deep_view(&self) -> PatchModel {
        PatchModel {
            name: self.name.deep_view(),
            minecraft_version: self.minecraft_version.deep_view(),
            loader: self.loader,
            loader_version: self.loader_version.deep_view(),
            nickname: self.nickname.deep_view(),
            ram_mb: self.ram_mb,
            java_path: self.java_path.deep_view(),
            jvm_args: self.jvm_args.deep_view(),
        }
    }
}

/// The new value where there is one, else the old value.
pub open spec fn changed<T>(old_value: T, new_value: Option<T>) -> T {
    match new_value {
        Some(value) => value,
        None => old_value,
    }
}

/// A text that was given; one of white space is none.
pub open spec fn given_text(text: Seq<char>) -> Option<Seq<char>> {
    if trim_text(text).len() == 0 {
        None
    } else {
        Some(text)
    }
}

/// A profile with the changes made. Giving up the loader gives up its version, memory stays at 1024
/// megabytes or more, and a loader version or a runtime of white space is none.
pub open spec fn patched(profile: ProfileModel, patch: PatchModel) -> ProfileModel {
    ProfileModel {
        id: profile.id,
        name: changed(profile.name, patch.name),
        minecraft_version: changed(profile.minecraft_version, patch.minecraft_version),
        loader: changed(profile.loader, patch.loader),
        loader_version: match patch.loader_version {
            Some(version) => given_text(version),
            None => if patch.loader == Some(LoaderType::Vanilla) {
                None
            } else {
                profile.loader_version
            },
        },
        nickname: changed(profile.nickname, patch.nickname),
        ram_mb: match patch.ram_mb {
            Some(ram) => if ram < 1024 {
                1024
            } else {
                ram
            },
            None => profile.ram_mb,
        },
        java_path: match patch.java_path {
            Some(path) => given_text(path),
            None => profile.java_path,
        },
        jvm_args: changed(profile.jvm_args, patch.jvm_args),
        skin_path: profile.skin_path,
        created_at: profile.created_at,
    }
}

fn given(text: String) -> (kept: Option<String>)
    ensures
        kept.deep_view() == given_text(text@),
{
    if is_blank(text.as_str()) {
        None
    } else {
        Some(text)
    }
}

/// A profile with the changes made. A change to something that is not a nickname is refused.
pub fn profiles_update(profile: Profile, patch: ProfilePatch) -> (updated: Result<
    Profile,
    LauncherError,
>)
    ensures
        match updated {
            Ok(updated) => {
                &&& patch.nickname matches Some(nickname) ==> is_nickname(nickname@)
                &&& updated.deep_view() == patched(profile.deep_view(), patch.deep_view())
            },
            Err(error) => {
                &&& patch.nickname matches Some(nickname) && !is_nickname(nickname@)
                &&& error is InvalidNickname
            },
        },
{
    let mut updated = profile;
    if let Some(name) = patch.name {
        updated.name = name;
    }
    if let Some(version) = patch.minecraft_version {
        updated.minecraft_version = version;
    }
    if let Some(loader) = patch.loader {
        updated.loader = loader;
        if loader == LoaderType::Vanilla {
            updated.loader_version = None;
        }
    }
    if let Some(version) = patch.loader_version {
        updated.loader_version = given(version);
    }
    if let Some(nickname) = patch.nickname {
        if require_valid_nick(nickname.as_str()).is_err() {
            return Err(LauncherError::InvalidNickname);
        }
        updated.nickname = nickname;
    }
    if let Some(ram) = patch.ram_mb {
        updated.ram_mb = if ram < 1024 {
            1024
        } else {
            ram
        };
    }
    if let Some(path) = patch.java_path {
        updated.java_path = given(path);
    }
    if let Some(args) = patch.jvm_args {
        updated.jvm_args = args;
    }
    Ok(updated)
}

// ---------------------------------------------------------------------------
// Listing
// ---------------------------------------------------------------------------

/// A profile as it stands in the list of profiles.
#[derive(Debug)]
pub struct ProfileSummary {
    pub id: String,
    pub name: String,
    pub minecraft_version: String,
    pub loader: LoaderType,
    pub loader_version: Option<String>,
    pub nickname: String,
}

/// What a [`ProfileSummary`] holds.
pub struct SummaryModel {
    pub id: Seq<char>,
    pub name: Seq<char>,
    pub minecraft_version: Seq<char>,
    pub loader: LoaderType,
    pub loader_version: Option<Seq<char>>,
    pub nickname: Seq<char>,
}

impl DeepView for ProfileSummary {
    type V = SummaryModel;

    open spec fn deep_view(&self) -> SummaryModel {
        SummaryModel {
            id: self.id@,
            name: self.name@,
            minecraft_version: self.minecraft_version@,
            loader: self.loader,
            loader_version: self.loader_version.deep_view(),
            nickname: self.nickname@,
        }
    }
}

/// A profile as it stands in the list of profiles.
pub open spec fn summary(profile: ProfileModel) -> SummaryModel {
    SummaryModel {
        id: profile.id,
        name: profile.name,
        minecraft_version: profile.minecraft_version,
        loader: profile.loader,
        loader_version: profile.loader_version,
        nickname: profile.nickname,
    }
}

/// Profiles as they stand in the list of profiles.
pub open spec fn summaries(profiles: Seq<ProfileModel>) -> Seq<SummaryModel> {
    profiles.map_values(|profile: ProfileModel| summary(profile))
}

/// Whether a list is in the order of the names.
pub open spec fn sorted_by_name(list: Seq<SummaryModel>) -> bool {
    forall|i: int, j: int|
        0 <= i < j < list.len() ==> !text_before((#[trigger] list[j]).name, (#[trigger] list[i]).name)
}

/// The entries of a list with this name, in order.
pub open spec fn with_name(list: Seq<SummaryModel>, name: Seq<char>) -> Seq<SummaryModel> {
    list.filter(|entry: SummaryModel| entry.name == name)
}

proof fn lemma_insert_in_order(
    list: Seq<SummaryModel>,
    at: int,
    entry: SummaryModel,
    name: Seq<char>,
)
    requires
        0 <= at <= list.len(),
        forall|k: int| at <= k < list.len() ==> (#[trigger] list[k]).name != entry.name,
    ensures
        with_name(list.insert(at, entry), name) == with_name(list.push(entry), name),
{
    let has_name = |e: SummaryModel| e.name == name;
    let front = list.take(at);
    let back = list.skip(at);
    assert(list =~= front + back);
    assert(list.insert(at, entry) =~= front + seq![entry] + back);
    assert(list.push(entry) =~= front + back + seq![entry]);
    Seq::filter_distributes_over_add(front, back, has_name);
    Seq::filter_distributes_over_add(front + seq![entry], back, has_name);
    Seq::filter_distributes_over_add(front, seq![entry], has_name);
    Seq::filter_distributes_over_add(front + back, seq![entry], has_name);
    if entry.name == name {
        lemma_filter_none(back, has_name);
        assert(front.filter(has_name) + seq![entry].filter(has_name) + Seq::<SummaryModel>::empty()
            =~= front.filter(has_name) + Seq::<SummaryModel>::empty() + seq![entry].filter(has_name));
    } else {
        lemma_filter_none(seq![entry], has_name);
        assert(front.filter(has_name) + Seq::<SummaryModel>::empty() + back.filter(has_name)
            =~= front.filter(has_name) + back.filter(has_name) + Seq::<SummaryModel>::empty());
    }
}

proof fn lemma_filter_none(list: Seq<SummaryModel>, wanted: spec_fn(SummaryModel) -> bool)
    requires
        forall|k: int| 0 <= k < list.len() ==> !wanted(#[trigger] list[k]),
    ensures
        list.filter(wanted) == Seq::<SummaryModel>::empty(),
    decreases list.len(),
{
    reveal(Seq::filter);
    if list.len() > 0 {
        let init = list.drop_last();
        assert forall|k: int| 0 <= k < init.len() implies !wanted(#[trigger] init[k]) by {
            assert(init[k] == list[k]);
        }
        lemma_filter_none(init, wanted);
        assert(!wanted(list[list.len() - 1]));
    }
}

/// Puts an entry in its place: behind every entry whose name does not come after its own.
fn insert_by_name(list: &mut Vec<ProfileSummary>, entry: ProfileSummary)
    requires
        sorted_by_name(old(list).deep_view()),
    ensures
        sorted_by_name(final(list).deep_view()),
        forall|name: Seq<char>| #[trigger]
            with_name(final(list).deep_view(), name) == with_name(
                old(list).deep_view().push(entry.deep_view()),
                name,
            ),
{
    let ghost all = list.deep_view();
    let ghost model = entry.deep_view();
    let mut at: usize = 0;
    while at < list.len() && !before(entry.name.as_str(), list[at].name.as_str())
        invariant
            at <= list@.len(),
            all == list.deep_view(),
            model == entry.deep_view(),
            forall|k: int| 0 <= k < at ==> !text_before(model.name, (#[trigger] all[k]).name),
        decreases list@.len() - at,
    {
        assert(all[at as int] == list@[at as int].deep_view());
        at = at + 1;
    }
    proof {
        if at < list@.len() {
            assert(all[at as int] == list@[at as int].deep_view());
            assert(text_before(model.name, all[at as int].name));
        }
        assert forall|k: int| at <= k < all.len() implies text_before(
            model.name,
            (#[trigger] all[k]).name,
        ) by {
            if k > at {
                assert(!text_before(all[k].name, all[at as int].name));
                if all[at as int].name != all[k].name {
                    law_before_total(all[at as int].name, all[k].name);
                    law_before_transitive(model.name, all[at as int].name, all[k].name);
                }
            }
        }
    }
    list.insert(at, entry);
    let ghost now = list.deep_view();
    assert(now =~= all.insert(at as int, model));
    proof {
        assert forall|i: int, j: int| 0 <= i < j < now.len() implies !text_before(
            (#[trigger] now[j]).name,
            (#[trigger] now[i]).name,
        ) by {
            if i == at {
                assert(now[j] == all[j - 1]);
                if text_before(all[j - 1].name, model.name) {
                    law_before_transitive(model.name, all[j - 1].name, model.name);
                    law_before_irreflexive(model.name);
                }
            } else if j == at {
                assert(now[i] == all[i]);
            } else {
                let a = if i < at { i } else { i - 1 };
                let b = if j < at { j } else { j - 1 };
                assert(now[i] == all[a]);
                assert(now[j] == all[b]);
            }
        }
        assert forall|k: int| at <= k < all.len() implies (#[trigger] all[k]).name != model.name by {
            law_before_irreflexive(model.name);
        }
        assert forall|name: Seq<char>| #[trigger]
            with_name(now, name) == with_name(all.push(model), name) by {
            lemma_insert_in_order(all, at as int, model, name);
        }
    }
}

/// The list of profiles: in the order of their names, and those with the same name in the order in
/// which they were found.
pub fn profiles_list(profiles: Vec<Profile>) -> (list: Vec<ProfileSummary>)
    ensures
        sorted_by_name(list.deep_view()),
        forall|name: Seq<char>| #[trigger]
            with_name(list.deep_view(), name) == with_name(summaries(profiles.deep_view()), name),
{
    let ghost wanted = summaries(profiles.deep_view());
    let ghost all = profiles.deep_view();
    let mut list: Vec<ProfileSummary> = Vec::new();
    assert(list.deep_view() =~= Seq::empty());
    assert(wanted.take(0) =~= Seq::empty());
    for profile in it: profiles
        invariant
            it.seq() == profiles@,
            all == profiles.deep_view(),
            wanted == summaries(all),
            sorted_by_name(list.deep_view()),
            forall|name: Seq<char>| #[trigger]
                with_name(list.deep_view(), name) == with_name(
                    wanted.take(it.index() as int),
                    name,
                ),
    {
        let ghost i = it.index() as int;
        let ghost earlier = list.deep_view();
        assert(all[i] == profile.deep_view());
        let entry = ProfileSummary {
            id: profile.id,
            name: profile.name,
            minecraft_version: profile.minecraft_version,
            loader: profile.loader,
            loader_version: profile.loader_version,
            nickname: profile.nickname,
        };
        let ghost model = entry.deep_view();
        assert(wanted[i] == model);
        insert_by_name(&mut list, entry);
        proof {
            assert(wanted.take(i + 1) =~= wanted.take(i).push(model));
            assert forall|name: Seq<char>| #[trigger]
                with_name(list.deep_view(), name) == with_name(wanted.take(i + 1), name) by {
                let has_name = |e: SummaryModel| e.name == name;
                assert(with_name(earlier, name) == with_name(wanted.take(i), name));
                assert(earlier.push(model) =~= earlier + seq![model]);
                assert(wanted.take(i).push(model) =~= wanted.take(i) + seq![model]);
                Seq::filter_distributes_over_add(earlier, seq![model], has_name);
                Seq::filter_distributes_over_add(wanted.take(i), seq![model], has_name);
            }
        }
    }
    assert(wanted.take(wanted.len() as int) =~= wanted);
    list
}

// ---------------------------------------------------------------------------
// Laws
// ---------------------------------------------------------------------------

proof fn lemma_with_name_first(list: Seq<SummaryModel>, name: Seq<char>)
    requires
        list.len() > 0,
    ensures
        with_name(list, name) == (if list[0].name == name {
            seq![list[0]] + with_name(list.skip(1), name)
        } else {
            with_name(list.skip(1), name)
        }),
{
    let has_name = |e: SummaryModel| e.name == name;
    let first = seq![list[0]];
    assert(list =~= first + list.skip(1));
    Seq::filter_distributes_over_add(first, list.skip(1), has_name);
    if list[0].name == name {
        reveal(Seq::filter);
        assert(first.drop_last() =~= Seq::empty());
        assert(first.filter(has_name) =~= first);
    } else {
        lemma_filter_none(first, has_name);
        assert(Seq::<SummaryModel>::empty() + with_name(list.skip(1), name) =~= with_name(
            list.skip(1),
            name,
        ));
    }
}

proof fn lemma_name_is_there(list: Seq<SummaryModel>, name: Seq<char>)
    requires
        with_name(list, name).len() > 0,
    ensures
        exists|i: int| 0 <= i < list.len() && (#[trigger] list[i]).name == name,
{
    if forall|i: int| 0 <= i < list.len() ==> (#[trigger] list[i]).name != name {
        lemma_filter_none(list, |e: SummaryModel| e.name == name);
    }
}

/// There is one list of profiles only: the order of the names, and the order of the profiles with
/// the same name, leave no choice.
pub proof fn law_list_is_unique(a: Seq<SummaryModel>, b: Seq<SummaryModel>)
    requires
        sorted_by_name(a),
        sorted_by_name(b),
        forall|name: Seq<char>| #[trigger] with_name(a, name) == with_name(b, name),
    ensures
        a == b,
    decreases a.len(),
{
    if a.len() == 0 {
        if b.len() > 0 {
            assert(with_name(a, b[0].name) == with_name(b, b[0].name));
            lemma_with_name_first(b, b[0].name);
            lemma_name_is_there(a, b[0].name);
        }
        assert(a =~= b);
    } else {
        let n = a[0].name;
        assert(with_name(a, n) == with_name(b, n));
        lemma_with_name_first(a, n);
        lemma_name_is_there(b, n);
        let m = b[0].name;
        assert(with_name(a, m) == with_name(b, m));
        lemma_with_name_first(b, m);
        lemma_name_is_there(a, m);
        let j = choose|j: int| 0 <= j < b.len() && (#[trigger] b[j]).name == n;
        let i = choose|i: int| 0 <= i < a.len() && (#[trigger] a[i]).name == m;
        if n != m {
            law_before_total(n, m);
            assert(j != 0 && i != 0);
            assert(!text_before(b[j].name, b[0].name));
            assert(!text_before(a[i].name, a[0].name));
        }
        assert(with_name(a, n)[0] == a[0]);
        assert(with_name(b, n)[0] == b[0]);
        let rest_a = a.skip(1);
        let rest_b = b.skip(1);
        assert forall|name: Seq<char>| #[trigger]
            with_name(rest_a, name) == with_name(rest_b, name) by {
            assert(with_name(a, name) == with_name(b, name));
            lemma_with_name_first(a, name);
            lemma_with_name_first(b, name);
            if a[0].name == name {
                assert(with_name(rest_a, name) =~= with_name(a, name).skip(1));
                assert(with_name(rest_b, name) =~= with_name(b, name).skip(1));
            }
        }
        assert forall|p: int, q: int| 0 <= p < q < rest_a.len() implies !text_before(
            (#[trigger] rest_a[q]).name,
            (#[trigger] rest_a[p]).name,
        ) by {
            assert(rest_a[q] == a[q + 1] && rest_a[p] == a[p + 1]);
        }
        assert forall|p: int, q: int| 0 <= p < q < rest_b.len() implies !text_before(
            (#[trigger] rest_b[q]).name,
            (#[trigger] rest_b[p]).name,
        ) by {
            assert(rest_b[q] == b[q + 1] && rest_b[p] == b[p + 1]);
        }
        law_list_is_unique(rest_a, rest_b);
        assert(a =~= seq![a[0]] + rest_a);
        assert(b =~= seq![b[0]] + rest_b);
    }
}

/// A patch without changes leaves a profile as it is.
pub proof fn law_empty_patch_changes_nothing(profile: ProfileModel)
    ensures
        patched(
            profile,
            (PatchModel {
                name: None,
                minecraft_version: None,
                loader: None,
                loader_version: None,
                nickname: None,
                ram_mb: None,
                java_path: None,
                jvm_args: None,
            }),
        ) == profile,
{
}

/// Making the same changes again changes nothing more.
pub proof fn law_patching_is_idempotent(profile: ProfileModel, patch: PatchModel)
    ensures
        patched(patched(profile, patch), patch) == patched(profile, patch),
{
}

/// A patch never touches the identifier, the skin and the date of a profile.
pub proof fn law_patch_keeps_identity(profile: ProfileModel, patch: PatchModel)
    ensures
        patched(profile, patch).id == profile.id,
        patched(profile, patch).skin_path == profile.skin_path,
        patched(profile, patch).created_at == profile.created_at,
{
}

/// A profile that has a nickname when it is created still has one after any change that is made,
/// and after it is copied.
pub proof fn law_nickname_stays_valid(
    input: CreateInputModel,
    profile: ProfileModel,
    patch: PatchModel,
    given: Option<Seq<char>>,
    id: Seq<char>,
    created_at: Seq<char>,
)
    requires
        patch.nickname matches Some(nickname) ==> is_nickname(nickname),
    ensures
        is_nickname(input.nickname) ==> is_nickname(created(input, id, created_at).nickname),
        is_nickname(profile.nickname) ==> is_nickname(patched(profile, patch).nickname),
        is_nickname(profile.nickname) ==> is_nickname(
            copied(profile, given, id, created_at).nickname,
        ),
{
}

/// Giving up the loader gives up its version, unless the same change names one.
pub proof fn law_vanilla_has_no_loader_version(profile: ProfileModel, patch: PatchModel)
    requires
        patch.loader == Some(LoaderType::Vanilla),
        patch.loader_version is None,
    ensures
        patched(profile, patch).loader == LoaderType::Vanilla,
        patched(profile, patch).loader_version is None,
{
}

/// A copy always has a name.
pub proof fn law_copy_has_a_name(name: Seq<char>, given: Option<Seq<char>>)
    ensures
        copy_name(name, given).len() > 0,
{
    reveal_strlit(" Copy");
}

/// What a patch names is what the profile has afterwards, field by field: the name, the game
/// version, the loader, the nickname and the arguments as they are given.
pub proof fn law_patch_sets_what_it_names(profile: ProfileModel, patch: PatchModel)
    ensures
        patch.name matches Some(name) ==> patched(profile, patch).name == name,
        patch.minecraft_version matches Some(version) ==> patched(profile, patch).minecraft_version
            == version,
        patch.loader matches Some(loader) ==> patched(profile, patch).loader == loader,
        patch.nickname matches Some(nickname) ==> patched(profile, patch).nickname == nickname,
        patch.jvm_args matches Some(args) ==> {
            &&& patched(profile, patch).jvm_args.len() == args.len()
            &&& forall|i: int|
                0 <= i < args.len() ==> #[trigger] patched(profile, patch).jvm_args[i] == args[i]
        },
{
}

/// What a patch does not name stays as it was, field by field.
pub proof fn law_patch_keeps_what_it_does_not_name(profile: ProfileModel, patch: PatchModel)
    ensures
        patch.name is None ==> patched(profile, patch).name == profile.name,
        patch.minecraft_version is None ==> patched(profile, patch).minecraft_version
            == profile.minecraft_version,
        patch.loader is None ==> patched(profile, patch).loader == profile.loader,
        patch.loader_version is None && patch.loader != Some(LoaderType::Vanilla) ==> patched(
            profile,
            patch,
        ).loader_version == profile.loader_version,
        patch.nickname is None ==> patched(profile, patch).nickname == profile.nickname,
        patch.ram_mb is None ==> patched(profile, patch).ram_mb == profile.ram_mb,
        patch.java_path is None ==> patched(profile, patch).java_path == profile.java_path,
        patch.jvm_args is None ==> patched(profile, patch).jvm_args == profile.jvm_args,
{
}

/// The memory that a patch names is what the profile gets, but never less than 1024 megabytes.
pub proof fn law_patch_sets_memory(profile: ProfileModel, patch: PatchModel, ram: u32)
    requires
        patch.ram_mb == Some(ram),
    ensures
        ram >= 1024 ==> patched(profile, patch).ram_mb == ram,
        ram < 1024 ==> patched(profile, patch).ram_mb == 1024,
{
}

/// A loader version or a runtime that a patch names is what the profile gets, as it is written; one
/// of nothing but white space takes away what there was.
pub proof fn law_patch_sets_optional_texts(profile: ProfileModel, patch: PatchModel, text: Seq<char>)
    ensures
        patch.loader_version == Some(text) ==> patched(profile, patch).loader_version == (if forall|
            k: int,
        |
            0 <= k < text.len() ==> is_white_space(#[trigger] text[k]) {
            None
        } else {
            Some(text)
        }),
        patch.java_path == Some(text) ==> patched(profile, patch).java_path == (if forall|k: int|
            0 <= k < text.len() ==> is_white_space(#[trigger] text[k]) {
            None
        } else {
            Some(text)
        }),
{
    law_blank_is_all_white_space(text);
}

/// A new profile has what it was given, field by field; without a word on memory 4096 megabytes,
/// without a word on arguments none; and no skin.
pub proof fn law_new_profile_has_what_it_was_given(
    input: CreateInputModel,
    id: Seq<char>,
    created_at: Seq<char>,
)
    ensures
        created(input, id, created_at).id == id,
        created(input, id, created_at).name == input.name,
        created(input, id, created_at).minecraft_version == input.minecraft_version,
        created(input, id, created_at).loader == input.loader,
        created(input, id, created_at).loader_version == input.loader_version,
        created(input, id, created_at).nickname == input.nickname,
        input.ram_mb matches Some(ram) ==> created(input, id, created_at).ram_mb == ram,
        input.ram_mb is None ==> created(input, id, created_at).ram_mb == 4096,
        created(input, id, created_at).java_path == input.java_path,
        input.jvm_args matches Some(args) ==> created(input, id, created_at).jvm_args == args,
        input.jvm_args is None ==> created(input, id, created_at).jvm_args.len() == 0,
        created(input, id, created_at).skin_path is None,
        created(input, id, created_at).created_at == created_at,
{
}

/// A copy has its own identifier and date, and all else of its source but the name.
pub proof fn law_copy_has_what_its_source_has(
    profile: ProfileModel,
    given: Option<Seq<char>>,
    id: Seq<char>,
    created_at: Seq<char>,
)
    ensures
        copied(profile, given, id, created_at).id == id,
        copied(profile, given, id, created_at).created_at == created_at,
        copied(profile, given, id, created_at).minecraft_version == profile.minecraft_version,
        copied(profile, given, id, created_at).loader == profile.loader,
        copied(profile, given, id, created_at).loader_version == profile.loader_version,
        copied(profile, given, id, created_at).nickname == profile.nickname,
        copied(profile, given, id, created_at).ram_mb == profile.ram_mb,
        copied(profile, given, id, created_at).java_path == profile.java_path,
        copied(profile, given, id, created_at).jvm_args == profile.jvm_args,
        copied(profile, given, id, created_at).skin_path == profile.skin_path,
{
}

/// The name of a copy: what was given where it is more than white space, without the white space
/// around it; else the name of the source with a mark behind it.
pub proof fn law_name_of_a_copy(
    profile: ProfileModel,
    before: Seq<char>,
    name: Seq<char>,
    after: Seq<char>,
    id: Seq<char>,
    created_at: Seq<char>,
)
    requires
        forall|k: int| 0 <= k < before.len() ==> is_white_space(#[trigger] before[k]),
        forall|k: int| 0 <= k < after.len() ==> is_white_space(#[trigger] after[k]),
        name.len() > 0 ==> !is_white_space(name[0]) && !is_white_space(name[name.len() - 1]),
    ensures
        copied(profile, None, id, created_at).name == profile.name + " Copy"@,
        name.len() == 0 ==> copied(profile, Some(before + name + after), id, created_at).name
            == profile.name + " Copy"@,
        name.len() > 0 ==> copied(profile, Some(before + name + after), id, created_at).name == name,
{
    law_trim_leaves_what_is_between(before, name, after);
}

/// The entry of a profile in the list has what the profile has, field by field.
pub proof fn law_entry_has_what_the_profile_has(profiles: Seq<ProfileModel>, i: int)
    requires
        0 <= i < profiles.len(),
    ensures
        summaries(profiles).len() == profiles.len(),
        summaries(profiles)[i].id == profiles[i].id,
        summaries(profiles)[i].name == profiles[i].name,
        summaries(profiles)[i].minecraft_version == profiles[i].minecraft_version,
        summaries(profiles)[i].loader == profiles[i].loader,
        summaries(profiles)[i].loader_version == profiles[i].loader_version,
        summaries(profiles)[i].nickname == profiles[i].nickname,
{
}

/// A list that is in the order of its names, and has for every name the entries that `all` has, has
/// every entry of `all`, and no others; of two neighbours the later one's name comes no earlier.
pub proof fn law_list_has_every_profile(list: Seq<SummaryModel>, all: Seq<SummaryModel>)
    requires
        sorted_by_name(list),
        forall|name: Seq<char>| #[trigger] with_name(list, name) == with_name(all, name),
    ensures
        forall|i: int| 0 <= i < all.len() ==> list.contains(#[trigger] all[i]),
        forall|i: int| 0 <= i < list.len() ==> all.contains(#[trigger] list[i]),
        forall|i: int, j: int|
            0 <= i < j < list.len() ==> !text_before(
                (#[trigger] list[j]).name,
                (#[trigger] list[i]).name,
            ),
{
    assert forall|i: int| 0 <= i < all.len() implies list.contains(#[trigger] all[i]) by {
        lemma_same_name_same_entries(all, list, i);
    }
    assert forall|i: int| 0 <= i < list.len() implies all.contains(#[trigger] list[i]) by {
        assert(with_name(list, list[i].name) == with_name(all, list[i].name));
        lemma_same_name_same_entries(list, all, i);
    }
}

proof fn lemma_same_name_same_entries(a: Seq<SummaryModel>, b: Seq<SummaryModel>, i: int)
    requires
        0 <= i < a.len(),
        with_name(b, a[i].name) == with_name(a, a[i].name),
    ensures
        b.contains(a[i]),
{
    let name = a[i].name;
    let has_name = |e: SummaryModel| e.name == name;
    lemma_filter_keeps(a, has_name, i);
    b.lemma_filter_contains_rev(has_name, a[i]);
}

proof fn lemma_filter_keeps(list: Seq<SummaryModel>, wanted: spec_fn(SummaryModel) -> bool, i: int)
    requires
        0 <= i < list.len(),
        wanted(list[i]),
    ensures
        list.filter(wanted).contains(list[i]),
    decreases list.len(),
{
    reveal(Seq::filter);
    let init = list.drop_last();
    let kept = list.filter(wanted);
    if i < init.len() {
        lemma_filter_keeps(init, wanted, i);
        let k = choose|k: int| 0 <= k < init.filter(wanted).len() && init.filter(wanted)[k] == list[i];
        assert(kept[k] == list[i]);
    } else {
        assert(kept[kept.len() - 1] == list[i]);
    }
}

/// What an update gives back, field by field: what the patch names, as it is given, and otherwise
/// what the profile had.
pub proof fn law_updated_profile(
    profile: Profile,
    patch: ProfilePatch,
    updated: Result<Profile, LauncherError>,
)
    requires
        call_ensures(profiles_update, (profile, patch), updated),
    ensures
        updated matches Ok(updated) ==> {
            &&& patch.name matches Some(name) ==> updated.name@ == name@
            &&& patch.minecraft_version matches Some(version) ==> updated.minecraft_version@
                == version@
            &&& patch.loader matches Some(loader) ==> updated.loader == loader
            &&& patch.nickname matches Some(nickname) ==> updated.nickname@ == nickname@
            &&& patch.jvm_args matches Some(args) ==> updated.jvm_args.deep_view()
                == args.deep_view()
        },
{
    if let Ok(result) = updated {
        let after = result.deep_view();
        assert(after == patched(profile.deep_view(), patch.deep_view()));
        law_patch_sets_what_it_names(profile.deep_view(), patch.deep_view());
    }
}

/// What creating a profile gives back: what was given, field by field, under the given identifier.
pub proof fn law_created_profile(
    input: CreateProfileInput,
    id: String,
    since_epoch: Option<u64>,
    profile: Result<Profile, LauncherError>,
)
    requires
        call_ensures(create_profile, (input, id, since_epoch), profile),
    ensures
        profile is Ok <==> is_nickname(input.nickname@),
        profile matches Ok(profile) ==> {
            &&& profile.id@ == id@
            &&& profile.name@ == input.name@
            &&& profile.minecraft_version@ == input.minecraft_version@
            &&& profile.loader == input.loader
            &&& profile.loader_version.deep_view() == input.loader_version.deep_view()
            &&& profile.nickname@ == input.nickname@
            &&& input.ram_mb matches Some(ram) ==> profile.ram_mb == ram
            &&& input.ram_mb is None ==> profile.ram_mb == 4096
            &&& profile.java_path.deep_view() == input.java_path.deep_view()
            &&& input.jvm_args matches Some(args) ==> profile.jvm_args.deep_view()
                == args.deep_view()
            &&& input.jvm_args is None ==> profile.jvm_args.deep_view().len() == 0
            &&& profile.skin_path is None
        },
{
    if let Ok(result) = profile {
        let after = result.deep_view();
        law_new_profile_has_what_it_was_given(input.deep_view(), id@, timestamp_text(since_epoch));
        assert(after == created(input.deep_view(), id@, timestamp_text(since_epoch)));
    }
}

/// What copying a profile gives back: the source, under another identifier and another name.
pub proof fn law_copied_profile(
    profile: Profile,
    name: Option<String>,
    id: String,
    since_epoch: Option<u64>,
    copy: Profile,
)
    requires
        call_ensures(copy_profile, (profile, name, id, since_epoch), copy),
    ensures
        copy.id@ == id@,
        name is None ==> copy.name@ == profile.name@ + " Copy"@,
        copy.minecraft_version@ == profile.minecraft_version@,
        copy.loader == profile.loader,
        copy.loader_version.deep_view() == profile.loader_version.deep_view(),
        copy.nickname@ == profile.nickname@,
        copy.ram_mb == profile.ram_mb,
        copy.java_path.deep_view() == profile.java_path.deep_view(),
        copy.jvm_args.deep_view() == profile.jvm_args.deep_view(),
        copy.skin_path.deep_view() == profile.skin_path.deep_view(),
{
    let after = copy.deep_view();
    let time = timestamp_text(since_epoch);
    law_copy_has_what_its_source_has(profile.deep_view(), name.deep_view(), id@, time);
    assert(after == copied(profile.deep_view(), name.deep_view(), id@, time));
}

/// The list that is given back has an entry for every profile and no other, in the order of the
/// names.
pub proof fn law_listed_profiles(profiles: Vec<Profile>, list: Vec<ProfileSummary>, i: int)
    requires
        call_ensures(profiles_list, (profiles,), list),
        0 <= i < profiles.deep_view().len(),
    ensures
        exists|k: int|
            {
                &&& 0 <= k < list.deep_view().len()
                &&& (#[trigger] list.deep_view()[k]).id == profiles.deep_view()[i].id
                &&& list.deep_view()[k].name == profiles.deep_view()[i].name
                &&& list.deep_view()[k].nickname == profiles.deep_view()[i].nickname
                &&& list.deep_view()[k].loader == profiles.deep_view()[i].loader
                &&& list.deep_view()[k].loader_version == profiles.deep_view()[i].loader_version
                &&& list.deep_view()[k].minecraft_version
                    == profiles.deep_view()[i].minecraft_version
            },
        forall|a: int, b: int|
            0 <= a < b < list.deep_view().len() ==> !text_before(
                (#[trigger] list.deep_view()[b]).name,
                (#[trigger] list.deep_view()[a]).name,
            ),
{
    let all = summaries(profiles.deep_view());
    law_list_has_every_profile(list.deep_view(), all);
    law_entry_has_what_the_profile_has(profiles.deep_view(), i);
    assert(list.deep_view().contains(all[i]));
    let k = choose|k: int| 0 <= k < list.deep_view().len() && list.deep_view()[k] == all[i];
    assert(list.deep_view()[k].id == profiles.deep_view()[i].id);
}

} // verus!
