//! The command line that a game is launched with.
use vstd::prelude::*;

use crate::error::LauncherError;
use crate::identity::{offline_id, offline_uuid};
use crate::java::{effective_ram_mb, kept_jvm_args, ram_for, sanitized_jvm_args, JavaResolution};
use crate::library::{
    allowed_by, library_allowed, library_path, resolve_library_relative_path, rules_permit, HostOs,
    LibraryModel, MojangLibrary, MojangLibraryRule, RuleModel,
};
use crate::number::{decimal, decimal_text};
use crate::pairs::{get, lookup};
use crate::paths::{
    client_jar_path, instance_dir, instance_dir_path, instance_path, instance_root,
    law_where_a_profile_lies, version_file_path, AppPath,
};
use crate::profile::{Profile, ProfileModel};
use crate::text::{
    concat2, concat3, join, join_text, law_join_puts_separators_between, replace, replace_text,
    same_text, starts_with, words, words_text,
};

verus! {

// ---------------------------------------------------------------------------
// Version metadata
// ---------------------------------------------------------------------------

/// Where the index of the assets of a game version is.
#[derive(Debug)]
pub struct MojangAssetIndex {
    pub id: String,
    pub url: String,
}

/// What a [`MojangAssetIndex`] holds.
pub struct AssetIndexModel {
    pub id: Seq<char>,
    pub url: Seq<char>,
}

impl DeepView for MojangAssetIndex {
    type V = AssetIndexModel;

    open spec fn deep_view(&self) -> AssetIndexModel {
        AssetIndexModel { id: self.id@, url: self.url@ }
    }
}

/// The Java version that a game version asks for.
#[derive(Clone, Copy, Debug)]
pub struct LaunchJavaVersion {
    pub major_version: u8,
}

/// The text of a conditional argument: one argument or several.
#[derive(Debug)]
pub enum LaunchArgumentValue {
    One(String),
    Many(Vec<String>),
}

/// What a [`LaunchArgumentValue`] holds.
pub enum ArgumentValueModel {
    One(Seq<char>),
    Many(Seq<Seq<char>>),
}

impl DeepView for LaunchArgumentValue {
    type V = ArgumentValueModel;

    open spec fn deep_view(&self) -> ArgumentValueModel {
        match self {
            LaunchArgumentValue::One(text) => ArgumentValueModel::One(text@),
            LaunchArgumentValue::Many(texts) => ArgumentValueModel::Many(texts.deep_view()),
        }
    }
}

/// An argument template.
#[derive(Debug)]
pub enum LaunchArgumentItem {
    Plain(String),
    Conditional { rules: Option<Vec<MojangLibraryRule>>, value: LaunchArgumentValue },
}

/// What a [`LaunchArgumentItem`] holds.
pub enum ArgumentItemModel {
    Plain(Seq<char>),
    Conditional { rules: Option<Seq<RuleModel>>, value: ArgumentValueModel },
}

impl DeepView for LaunchArgumentItem {
    type V = ArgumentItemModel;

    open spec fn deep_view(&self) -> ArgumentItemModel {
        match self {
            LaunchArgumentItem::Plain(text) => ArgumentItemModel::Plain(text@),
            LaunchArgumentItem::Conditional { rules, value } => ArgumentItemModel::Conditional {
                rules: rules.deep_view(),
                value: value.deep_view(),
            },
        }
    }
}

/// The argument templates of a game version.
#[derive(Debug)]
pub struct LaunchArguments {
    pub game: Vec<LaunchArgumentItem>,
    pub jvm: Vec<LaunchArgumentItem>,
}

/// What [`LaunchArguments`] hold.
pub struct ArgumentsModel {
    pub game: Seq<ArgumentItemModel>,
    pub jvm: Seq<ArgumentItemModel>,
}

impl DeepView for LaunchArguments {
    type V = ArgumentsModel;

    open spec fn deep_view(&self) -> ArgumentsModel {
        ArgumentsModel { game: self.game.deep_view(), jvm: self.jvm.deep_view() }
    }
}

/// What the launcher reads of the metadata of an installed version.
#[derive(Debug)]
pub struct LaunchVersionMeta {
    pub id: String,
    pub main_class: String,
    pub version_type: Option<String>,
    pub libraries: Vec<MojangLibrary>,
    pub asset_index: Option<MojangAssetIndex>,
    pub minecraft_arguments: Option<String>,
    pub arguments: Option<LaunchArguments>,
    pub java_version: Option<LaunchJavaVersion>,
}

/// What [`LaunchVersionMeta`] holds.
pub struct VersionMetaModel {
    pub id: Seq<char>,
    pub main_class: Seq<char>,
    pub version_type: Option<Seq<char>>,
    pub libraries: Seq<LibraryModel>,
    pub asset_index: Option<AssetIndexModel>,
    pub minecraft_arguments: Option<Seq<char>>,
    pub arguments: Option<ArgumentsModel>,
    pub java_version: Option<LaunchJavaVersion>,
}

impl DeepView for LaunchVersionMeta {
    type V = VersionMetaModel;

    open spec fn deep_view(&self) -> VersionMetaModel {
        VersionMetaModel {
            id: self.id@,
            main_class: self.main_class@,
            version_type: self.version_type.deep_view(),
            libraries: self.libraries.deep_view(),
            asset_index: self.asset_index.deep_view(),
            minecraft_arguments: self.minecraft_arguments.deep_view(),
            arguments: self.arguments.deep_view(),
            java_version: self.java_version,
        }
    }
}

/// The Java version that installed metadata asks for.
pub fn required_java_major_from_installed_meta(meta: Option<&LaunchVersionMeta>) -> (major: Option<
    u8,
>)
    ensures
        major == (match meta {
            Some(meta) => match meta.java_version {
                Some(java) => Some(java.major_version),
                None => None,
            },
            None => None,
        }),
{
    match meta {
        Some(meta) => match meta.java_version {
            Some(java) => Some(java.major_version),
            None => None,
        },
        None => None,
    }
}

/// The name of the assets: that of their index, else the game version.
pub open spec fn asset_index_name(meta: VersionMetaModel, profile: ProfileModel) -> Seq<char> {
    match meta.asset_index {
        Some(index) => index.id,
        None => profile.minecraft_version,
    }
}

/// The name of the assets.
pub fn asset_name(meta: &LaunchVersionMeta, profile: &Profile) -> (name: String)
    ensures
        name@ == asset_index_name(meta.deep_view(), profile.deep_view()),
{
    match &meta.asset_index {
        Some(index) => index.id.clone(),
        None => profile.minecraft_version.clone(),
    }
}

// ---------------------------------------------------------------------------
// Placeholders
// ---------------------------------------------------------------------------

/// How the place of a value is written in a template.
pub open spec fn placeholder(key: Seq<char>) -> Seq<char> {
    "${"@ + key + "}"@
}

/// A template with its placeholders replaced, one value after the other.
pub open spec fn filled_in(template: Seq<char>, values: Seq<(Seq<char>, Seq<char>)>) -> Seq<char>
    decreases values.len(),
{
    if values.len() == 0 {
        template
    } else {
        replace_text(
            filled_in(template, values.drop_last()),
            placeholder(values.last().0),
            values.last().1,
        )
    }
}

/// A template with its placeholders replaced, one value after the other in the order of `values`.
pub fn replace_placeholders(input: &str, values: &Vec<(String, String)>) -> (out: String)
    ensures
        out@ == filled_in(input@, values.deep_view()),
{
    let mut out = input.to_owned();
    let mut i: usize = 0;
    let ghost all = values.deep_view();
    assert(all.take(0) =~= Seq::empty());
    while i < values.len()
        invariant
            i <= values@.len(),
            all == values.deep_view(),
            out@ == filled_in(input@, all.take(i as int)),
        decreases values@.len() - i,
    {
        assert(all.take(i + 1).drop_last() =~= all.take(i as int));
        let pattern = concat3("${", values[i].0.as_str(), "}");
        proof {
            reveal_strlit("${");
        }
        out = replace(out.as_str(), pattern.as_str(), values[i].1.as_str());
        i = i + 1;
    }
    assert(all.take(i as int) =~= all);
    out
}

/// Templates with their placeholders replaced.
pub open spec fn all_filled_in(
    templates: Seq<Seq<char>>,
    values: Seq<(Seq<char>, Seq<char>)>,
) -> Seq<Seq<char>> {
    templates.map_values(|template: Seq<char>| filled_in(template, values))
}

fn replace_all_placeholders(templates: &Vec<String>, values: &Vec<(String, String)>) -> (out: Vec<
    String,
>)
    ensures
        out.deep_view() == all_filled_in(templates.deep_view(), values.deep_view()),
{
    let ghost wanted = all_filled_in(templates.deep_view(), values.deep_view());
    let mut out: Vec<String> = Vec::new();
    let mut i: usize = 0;
    while i < templates.len()
        invariant
            i <= templates@.len(),
            wanted == all_filled_in(templates.deep_view(), values.deep_view()),
            out.deep_view() == wanted.take(i as int),
        decreases templates@.len() - i,
    {
        let ghost old_out = out.deep_view();
        let text = replace_placeholders(templates[i].as_str(), values);
        assert(text@ == wanted[i as int]);
        out.push(text);
        assert(out.deep_view() =~= old_out.push(wanted[i as int]));
        assert(wanted.take(i + 1) =~= wanted.take(i as int).push(wanted[i as int]));
        i = i + 1;
    }
    assert(wanted.take(i as int) =~= wanted);
    out
}

/// The arguments that one template gives.
pub open spec fn expanded_item(
    item: ArgumentItemModel,
    values: Seq<(Seq<char>, Seq<char>)>,
    host: HostOs,
) -> Seq<Seq<char>> {
    match item {
        ArgumentItemModel::Plain(text) => seq![filled_in(text, values)],
        ArgumentItemModel::Conditional { rules, value } => if allowed_by(rules, host) {
            match value {
                ArgumentValueModel::One(text) => seq![filled_in(text, values)],
                ArgumentValueModel::Many(texts) => all_filled_in(texts, values),
            }
        } else {
            Seq::empty()
        },
    }
}

/// The arguments that templates give, in order.
pub open spec fn expanded_items(
    items: Seq<ArgumentItemModel>,
    values: Seq<(Seq<char>, Seq<char>)>,
    host: HostOs,
) -> Seq<Seq<char>>
    decreases items.len(),
{
    if items.len() == 0 {
        Seq::empty()
    } else {
        expanded_items(items.drop_last(), values, host) + expanded_item(items.last(), values, host)
    }
}

/// The arguments that templates give, in order: those of a template whose rules refuse it are left
/// out.
pub fn expand_launch_argument_items(
    items: &Vec<LaunchArgumentItem>,
    values: &Vec<(String, String)>,
    host: HostOs,
) -> (out: Vec<String>)
    ensures
        out.deep_view() == expanded_items(items.deep_view(), values.deep_view(), host),
{
    let mut out: Vec<String> = Vec::new();
    let mut i: usize = 0;
    let ghost all = items.deep_view();
    let ghost map = values.deep_view();
    assert(all.take(0) =~= Seq::empty());
    assert(out.deep_view() =~= Seq::empty());
    while i < items.len()
        invariant
            i <= items@.len(),
            all == items.deep_view(),
            map == values.deep_view(),
            out.deep_view() == expanded_items(all.take(i as int), map, host),
        decreases items@.len() - i,
    {
        let ghost old_out = out.deep_view();
        let ghost model = all[i as int];
        assert(all.take(i + 1).drop_last() =~= all.take(i as int));
        let mut more: Vec<String> = match &items[i] {
            LaunchArgumentItem::Plain(text) => {
                let mut one: Vec<String> = Vec::new();
                one.push(replace_placeholders(text.as_str(), values));
                assert(one.deep_view() =~= expanded_item(model, map, host));
                one
            },
            LaunchArgumentItem::Conditional { rules, value } => if rules_permit(rules, host) {
                match value {
                    LaunchArgumentValue::One(text) => {
                        let mut one: Vec<String> = Vec::new();
                        one.push(replace_placeholders(text.as_str(), values));
                        assert(one.deep_view() =~= expanded_item(model, map, host));
                        one
                    },
                    LaunchArgumentValue::Many(texts) => replace_all_placeholders(texts, values),
                }
            } else {
                let none: Vec<String> = Vec::new();
                assert(none.deep_view() =~= expanded_item(model, map, host));
                none
            },
        };
        let ghost part = more.deep_view();
        assert(part == expanded_item(model, map, host));
        out.append(&mut more);
        assert(out.deep_view() =~= old_out + part);
        i = i + 1;
    }
    assert(all.take(i as int) =~= all);
    out
}

/// The arguments of a template line of words.
pub fn legacy_game_arguments(raw: &str, values: &Vec<(String, String)>) -> (out: Vec<String>)
    ensures
        out.deep_view() == all_filled_in(words_text(raw@), values.deep_view()),
{
    let tokens = words(raw);
    replace_all_placeholders(&tokens, values)
}

/// Whether one of `names` is among the arguments.
pub open spec fn has_any_arg(args: Seq<Seq<char>>, names: Seq<Seq<char>>) -> bool {
    exists|i: int, j: int|
        0 <= i < args.len() && 0 <= j < names.len() && #[trigger] args[i] == #[trigger] names[j]
}

/// Whether one of `names` is among the arguments.
pub fn contains_any_arg(args: &Vec<String>, names: &[&str]) -> (found: bool)
    ensures
        found == has_any_arg(args.deep_view(), names.deep_view()),
{
    let ghost all = args.deep_view();
    let ghost wanted = names.deep_view();
    let mut i: usize = 0;
    while i < args.len()
        invariant
            i <= args@.len(),
            all == args.deep_view(),
            wanted == names.deep_view(),
            forall|a: int, b: int|
                0 <= a < i && 0 <= b < wanted.len() ==> #[trigger] all[a] != #[trigger] wanted[b],
        decreases args@.len() - i,
    {
        let mut j: usize = 0;
        while j < names.len()
            invariant
                i < args@.len(),
                j <= names@.len(),
                all == args.deep_view(),
                wanted == names.deep_view(),
                forall|b: int| 0 <= b < j ==> all[i as int] != #[trigger] wanted[b],
            decreases names@.len() - j,
        {
            if same_text(args[i].as_str(), names[j]) {
                assert(all[i as int] == wanted[j as int]);
                return true;
            }
            assert(all[i as int] != wanted[j as int]);
            j = j + 1;
        }
        i = i + 1;
    }
    false
}

/// The arguments with an option behind them, if none of `names` is among them.
pub open spec fn option_added(
    args: Seq<Seq<char>>,
    names: Seq<Seq<char>>,
    name: Seq<char>,
    value: Seq<char>,
) -> Seq<Seq<char>> {
    if has_any_arg(args, names) {
        args
    } else {
        args + seq![name, value]
    }
}

fn add_option(args: Vec<String>, names: &[&str], name: &str, value: &str) -> (out: Vec<String>)
    ensures
        out.deep_view() == option_added(args.deep_view(), names.deep_view(), name@, value@),
{
    let mut out = args;
    let ghost all = out.deep_view();
    if !contains_any_arg(&out, names) {
        out.push(name.to_owned());
        out.push(value.to_owned());
        assert(out.deep_view() =~= all + seq![name@, value@]);
    }
    out
}

/// The arguments with the option `name` behind them, if it is not among them.
pub open spec fn option_set(args: Seq<Seq<char>>, name: Seq<char>, value: Seq<char>) -> Seq<
    Seq<char>,
> {
    option_added(args, seq![name], name, value)
}

fn set_option(args: Vec<String>, name: &str, value: &str) -> (out: Vec<String>)
    ensures
        out.deep_view() == option_set(args.deep_view(), name@, value@),
{
    let names = [name];
    assert(names.deep_view() =~= seq![name@]);
    add_option(args, &names, name, value)
}

/// The options that name the player.
pub open spec fn player_options() -> Seq<Seq<char>> {
    seq!["--username"@, "--user"@, "--userName"@]
}

fn add_player(args: Vec<String>, nickname: &str) -> (out: Vec<String>)
    ensures
        out.deep_view() == option_added(
            args.deep_view(),
            player_options(),
            "--username"@,
            nickname@,
        ),
{
    let names = ["--username", "--user", "--userName"];
    assert(names.deep_view() =~= player_options());
    add_option(args, &names, "--username", nickname)
}

// ---------------------------------------------------------------------------
// The class path
// ---------------------------------------------------------------------------

/// The paths of the libraries that are wanted on this machine, in order.
pub open spec fn wanted_library_paths(libraries: Seq<LibraryModel>, host: HostOs) -> Seq<Seq<char>>
    decreases libraries.len(),
{
    if libraries.len() == 0 {
        Seq::empty()
    } else {
        let before = wanted_library_paths(libraries.drop_last(), host);
        let last = libraries.last();
        if allowed_by(last.rules, host) && library_path(last) is Some {
            before.push(library_path(last)->Some_0)
        } else {
            before
        }
    }
}

/// The paths of the libraries that are wanted on this machine, in order.
pub fn library_candidates(meta: &LaunchVersionMeta, host: HostOs) -> (paths: Vec<String>)
    ensures
        paths.deep_view() == wanted_library_paths(meta.deep_view().libraries, host),
{
    let mut paths: Vec<String> = Vec::new();
    let ghost all = meta.libraries.deep_view();
    let mut i: usize = 0;
    assert(all.take(0) =~= Seq::empty());
    assert(paths.deep_view() =~= Seq::empty());
    while i < meta.libraries.len()
        invariant
            i <= meta.libraries@.len(),
            all == meta.libraries.deep_view(),
            paths.deep_view() == wanted_library_paths(all.take(i as int), host),
        decreases meta.libraries@.len() - i,
    {
        let ghost old_paths = paths.deep_view();
        assert(all.take(i + 1).drop_last() =~= all.take(i as int));
        let library = &meta.libraries[i];
        assert(all[i as int] == library.deep_view());
        if library_allowed(library, host) {
            if let Some(path) = resolve_library_relative_path(library) {
                paths.push(path);
                assert(paths.deep_view() =~= old_paths.push(path@));
            }
        }
        i = i + 1;
    }
    assert(all.take(i as int) =~= all);
    paths
}

/// The files among `paths` that are there: `present` has the full path of each.
pub open spec fn present_files(
    paths: Seq<Seq<char>>,
    present: Seq<(Seq<char>, Seq<char>)>,
) -> Seq<Seq<char>>
    decreases paths.len(),
{
    if paths.len() == 0 {
        Seq::empty()
    } else {
        let before = present_files(paths.drop_last(), present);
        match lookup(present, paths.last()) {
            Some(file) => before.push(file),
            None => before,
        }
    }
}

/// The class path of the game: the wanted libraries that are there, then the client.
pub open spec fn classpath_text(
    libraries: Seq<LibraryModel>,
    present: Seq<(Seq<char>, Seq<char>)>,
    client_jar: Seq<char>,
    host: HostOs,
) -> Seq<char> {
    join_text(
        present_files(wanted_library_paths(libraries, host), present).push(client_jar),
        ";"@,
    )
}

/// The class path of the game. `present` has, for each library path that exists, the full path.
pub fn build_classpath_from_meta(
    meta: &LaunchVersionMeta,
    present: &Vec<(String, String)>,
    client_jar: &str,
    host: HostOs,
) -> (classpath: String)
    ensures
        classpath@ == classpath_text(
            meta.deep_view().libraries,
            present.deep_view(),
            client_jar@,
            host,
        ),
{
    let paths = library_candidates(meta, host);
    let ghost all = paths.deep_view();
    let mut entries: Vec<String> = Vec::new();
    let mut i: usize = 0;
    assert(all.take(0) =~= Seq::empty());
    assert(entries.deep_view() =~= Seq::empty());
    while i < paths.len()
        invariant
            i <= paths@.len(),
            all == paths.deep_view(),
            entries.deep_view() == present_files(all.take(i as int), present.deep_view()),
        decreases paths@.len() - i,
    {
        let ghost old_entries = entries.deep_view();
        assert(all.take(i + 1).drop_last() =~= all.take(i as int));
        if let Some(file) = get(present, paths[i].as_str()) {
            entries.push(file.clone());
            assert(entries.deep_view() =~= old_entries.push(file@));
        }
        i = i + 1;
    }
    assert(all.take(i as int) =~= all);
    let ghost old_entries = entries.deep_view();
    entries.push(client_jar.to_owned());
    assert(entries.deep_view() =~= old_entries.push(client_jar@));
    join(&entries, ";")
}

// ---------------------------------------------------------------------------
// The command line
// ---------------------------------------------------------------------------

/// Where the game finds its files.
#[derive(Debug)]
pub struct LaunchEnv {
    pub game_dir: String,
    pub assets_dir: String,
    pub natives_dir: String,
    pub libraries_dir: String,
    pub classpath: String,
}

/// What a [`LaunchEnv`] holds.
pub struct LaunchEnvModel {
    pub game_dir: Seq<char>,
    pub assets_dir: Seq<char>,
    pub natives_dir: Seq<char>,
    pub libraries_dir: Seq<char>,
    pub classpath: Seq<char>,
}

impl DeepView for LaunchEnv {
    type V = LaunchEnvModel;

    open spec fn deep_view(&self) -> LaunchEnvModel {
        LaunchEnvModel {
            game_dir: self.game_dir@,
            assets_dir: self.assets_dir@,
            natives_dir: self.natives_dir@,
            libraries_dir: self.libraries_dir@,
            classpath: self.classpath@,
        }
    }
}

/// The kind of game version, a release unless the metadata says otherwise.
pub open spec fn version_type_of(meta: VersionMetaModel) -> Seq<char> {
    match meta.version_type {
        Some(kind) => kind,
        None => "release"@,
    }
}

/// The session of the player in the form that old game versions want.
pub open spec fn legacy_session(uuid: Seq<char>) -> Seq<char> {
    "token:offline-token:"@ + uuid
}

/// The values that templates are filled in with.
pub open spec fn replacements(
    profile: ProfileModel,
    meta: VersionMetaModel,
    env: LaunchEnvModel,
    uuid: Seq<char>,
) -> Seq<(Seq<char>, Seq<char>)> {
    seq![
        ("auth_player_name"@, profile.nickname),
        ("auth_username"@, profile.nickname),
        ("profile_name"@, profile.nickname),
        ("user_name"@, profile.nickname),
        ("username"@, profile.nickname),
        ("version_name"@, meta.id),
        ("game_directory"@, env.game_dir),
        ("assets_root"@, env.assets_dir),
        ("assets_index_name"@, asset_index_name(meta, profile)),
        ("auth_uuid"@, uuid),
        ("auth_access_token"@, "offline-token"@),
        ("user_type"@, "legacy"@),
        ("version_type"@, version_type_of(meta)),
        ("auth_session"@, legacy_session(uuid)),
        ("user_properties"@, "{}"@),
        ("game_assets"@, env.assets_dir),
        ("natives_directory"@, env.natives_dir),
        ("launcher_name"@, "RoundStudioLauncher"@),
        ("launcher_version"@, "0.1.0"@),
        ("library_directory"@, env.libraries_dir),
        ("classpath_separator"@, ";"@),
        ("classpath"@, env.classpath),
        ("clientid"@, ""@),
        ("client_id"@, ""@),
        ("xuid"@, ""@),
        ("auth_xuid"@, ""@),
        ("resolution_width"@, "854"@),
        ("resolution_height"@, "480"@),
    ]
}

fn add_value(values: &mut Vec<(String, String)>, key: &str, value: &str)
    ensures
        final(values).deep_view() == old(values).deep_view().push((key@, value@)),
{
    let ghost all = values.deep_view();
    values.push((key.to_owned(), value.to_owned()));
    assert(values.deep_view() =~= all.push((key@, value@)));
}

/// The values that templates are filled in with.
pub fn launch_replacements(
    profile: &Profile,
    meta: &LaunchVersionMeta,
    env: &LaunchEnv,
    uuid: &str,
) -> (values: Vec<(String, String)>)
    ensures
        values.deep_view() == replacements(
            profile.deep_view(),
            meta.deep_view(),
            env.deep_view(),
            uuid@,
        ),
{
    let nickname = profile.nickname.as_str();
    let assets = asset_name(meta, profile);
    let session = concat2("token:offline-token:", uuid);
    let version_type = match &meta.version_type {
        Some(kind) => kind.clone(),
        None => "release".to_owned(),
    };
    let mut values: Vec<(String, String)> = Vec::new();
    add_value(&mut values, "auth_player_name", nickname);
    add_value(&mut values, "auth_username", nickname);
    add_value(&mut values, "profile_name", nickname);
    add_value(&mut values, "user_name", nickname);
    add_value(&mut values, "username", nickname);
    add_value(&mut values, "version_name", meta.id.as_str());
    add_value(&mut values, "game_directory", env.game_dir.as_str());
    add_value(&mut values, "assets_root", env.assets_dir.as_str());
    add_value(&mut values, "assets_index_name", assets.as_str());
    add_value(&mut values, "auth_uuid", uuid);
    add_value(&mut values, "auth_access_token", "offline-token");
    add_value(&mut values, "user_type", "legacy");
    add_value(&mut values, "version_type", version_type.as_str());
    add_value(&mut values, "auth_session", session.as_str());
    add_value(&mut values, "user_properties", "{}");
    add_value(&mut values, "game_assets", env.assets_dir.as_str());
    add_value(&mut values, "natives_directory", env.natives_dir.as_str());
    add_value(&mut values, "launcher_name", "RoundStudioLauncher");
    add_value(&mut values, "launcher_version", "0.1.0");
    add_value(&mut values, "library_directory", env.libraries_dir.as_str());
    add_value(&mut values, "classpath_separator", ";");
    add_value(&mut values, "classpath", env.classpath.as_str());
    add_value(&mut values, "clientid", "");
    add_value(&mut values, "client_id", "");
    add_value(&mut values, "xuid", "");
    add_value(&mut values, "auth_xuid", "");
    add_value(&mut values, "resolution_width", "854");
    add_value(&mut values, "resolution_height", "480");
    assert(values.deep_view() =~= replacements(
        profile.deep_view(),
        meta.deep_view(),
        env.deep_view(),
        uuid@,
    ));
    values
}

/// Whether an argument begins with `prefix`.
pub open spec fn has_arg_prefix(args: Seq<Seq<char>>, prefix: Seq<char>) -> bool {
    exists|i: int| 0 <= i < args.len() && prefix.is_prefix_of(#[trigger] args[i])
}

/// The argument that names the directory of the native libraries.
pub open spec fn library_path_arg(natives_dir: Seq<char>) -> Seq<char> {
    "-Djava.library.path="@ + natives_dir
}

/// The arguments for the runtime: those of the metadata, with the class path and the directory of
/// the native libraries where the metadata leaves them out.
pub open spec fn jvm_part(
    arguments: Option<ArgumentsModel>,
    values: Seq<(Seq<char>, Seq<char>)>,
    env: LaunchEnvModel,
    host: HostOs,
) -> Seq<Seq<char>> {
    match arguments {
        Some(arguments) => {
            let given = expanded_items(arguments.jvm, values, host);
            let with_classpath = option_set(given, "-cp"@, env.classpath);
            if has_arg_prefix(with_classpath, "-Djava.library.path="@) {
                with_classpath
            } else {
                with_classpath.push(library_path_arg(env.natives_dir))
            }
        },
        None => seq![library_path_arg(env.natives_dir), "-cp"@, env.classpath],
    }
}

fn jvm_arguments(
    arguments: &Option<LaunchArguments>,
    values: &Vec<(String, String)>,
    env: &LaunchEnv,
    host: HostOs,
) -> (args: Vec<String>)
    ensures
        args.deep_view() == jvm_part(
            arguments.deep_view(),
            values.deep_view(),
            env.deep_view(),
            host,
        ),
{
    let library_path = concat2("-Djava.library.path=", env.natives_dir.as_str());
    match arguments {
        Some(arguments) => {
            let given = expand_launch_argument_items(&arguments.jvm, values, host);
            let mut args = set_option(given, "-cp", env.classpath.as_str());
            let ghost all = args.deep_view();
            let mut found = false;
            let mut i: usize = 0;
            while i < args.len()
                invariant
                    i <= args@.len(),
                    all == args.deep_view(),
                    found == exists|k: int|
                        0 <= k < i && "-Djava.library.path="@.is_prefix_of(#[trigger] all[k]),
                decreases args@.len() - i,
            {
                if starts_with(args[i].as_str(), "-Djava.library.path=") {
                    assert("-Djava.library.path="@.is_prefix_of(all[i as int]));
                    found = true;
                } else {
                    assert(!"-Djava.library.path="@.is_prefix_of(all[i as int]));
                }
                i = i + 1;
            }
            assert(found == has_arg_prefix(all, "-Djava.library.path="@));
            if !found {
                args.push(library_path);
                assert(args.deep_view() =~= all.push(library_path@));
            }
            args
        },
        None => {
            let mut args: Vec<String> = Vec::new();
            args.push(library_path);
            args.push("-cp".to_owned());
            args.push(env.classpath.clone());
            assert(args.deep_view() =~= seq![library_path@, "-cp"@, env.classpath@]);
            args
        },
    }
}

/// The arguments for the game: those of the metadata, with what they leave out; for old metadata
/// only the player and the session are added; without either, the ones that every game knows.
pub open spec fn game_part(
    profile: ProfileModel,
    meta: VersionMetaModel,
    values: Seq<(Seq<char>, Seq<char>)>,
    env: LaunchEnvModel,
    uuid: Seq<char>,
    host: HostOs,
) -> Seq<Seq<char>> {
    let assets = asset_index_name(meta, profile);
    match (meta.arguments, meta.minecraft_arguments) {
        (Some(arguments), _) => {
            let a0 = expanded_items(arguments.game, values, host);
            let a1 = option_added(a0, player_options(), "--username"@, profile.nickname);
            let a2 = option_set(a1, "--version"@, meta.id);
            let a3 = option_set(a2, "--gameDir"@, env.game_dir);
            let a4 = option_set(a3, "--assetsDir"@, env.assets_dir);
            let a5 = option_set(a4, "--assetIndex"@, assets);
            let a6 = option_set(a5, "--uuid"@, uuid);
            let a7 = option_set(a6, "--accessToken"@, "offline-token"@);
            let a8 = option_set(a7, "--userType"@, "legacy"@);
            option_set(a8, "--versionType"@, version_type_of(meta))
        },
        (None, Some(raw)) => {
            let a0 = all_filled_in(words_text(raw), values);
            let a1 = option_added(a0, player_options(), "--username"@, profile.nickname);
            option_set(a1, "--session"@, legacy_session(uuid))
        },
        (None, None) => seq![
            "--username"@,
            profile.nickname,
            "--version"@,
            meta.id,
            "--gameDir"@,
            env.game_dir,
            "--assetsDir"@,
            env.assets_dir,
            "--assetIndex"@,
            assets,
            "--uuid"@,
            uuid,
            "--accessToken"@,
            "offline-token"@,
            "--session"@,
            legacy_session(uuid),
            "--userType"@,
            "legacy"@,
            "--versionType"@,
            version_type_of(meta),
        ],
    }
}

fn game_arguments(
    profile: &Profile,
    meta: &LaunchVersionMeta,
    values: &Vec<(String, String)>,
    env: &LaunchEnv,
    uuid: &str,
    host: HostOs,
) -> (args: Vec<String>)
    ensures
        args.deep_view() == game_part(
            profile.deep_view(),
            meta.deep_view(),
            values.deep_view(),
            env.deep_view(),
            uuid@,
            host,
        ),
{
    let nickname = profile.nickname.as_str();
    let assets = asset_name(meta, profile);
    let session = concat2("token:offline-token:", uuid);
    let version_type = match &meta.version_type {
        Some(kind) => kind.clone(),
        None => "release".to_owned(),
    };
    if let Some(arguments) = &meta.arguments {
        let a0 = expand_launch_argument_items(&arguments.game, values, host);
        let a1 = add_player(a0, nickname);
        let a2 = set_option(a1, "--version", meta.id.as_str());
        let a3 = set_option(a2, "--gameDir", env.game_dir.as_str());
        let a4 = set_option(a3, "--assetsDir", env.assets_dir.as_str());
        let a5 = set_option(a4, "--assetIndex", assets.as_str());
        let a6 = set_option(a5, "--uuid", uuid);
        let a7 = set_option(a6, "--accessToken", "offline-token");
        let a8 = set_option(a7, "--userType", "legacy");
        set_option(a8, "--versionType", version_type.as_str())
    } else if let Some(raw) = &meta.minecraft_arguments {
        let a0 = legacy_game_arguments(raw.as_str(), values);
        let a1 = add_player(a0, nickname);
        set_option(a1, "--session", session.as_str())
    } else {
        let mut args: Vec<String> = Vec::new();
        args.push("--username".to_owned());
        args.push(nickname.to_owned());
        args.push("--version".to_owned());
        args.push(meta.id.clone());
        args.push("--gameDir".to_owned());
        args.push(env.game_dir.clone());
        args.push("--assetsDir".to_owned());
        args.push(env.assets_dir.clone());
        args.push("--assetIndex".to_owned());
        args.push(assets);
        args.push("--uuid".to_owned());
        args.push(uuid.to_owned());
        args.push("--accessToken".to_owned());
        args.push("offline-token".to_owned());
        args.push("--session".to_owned());
        args.push(session);
        args.push("--userType".to_owned());
        args.push("legacy".to_owned());
        args.push("--versionType".to_owned());
        args.push(version_type);
        assert(args.deep_view() =~= game_part(
            profile.deep_view(),
            meta.deep_view(),
            values.deep_view(),
            env.deep_view(),
            uuid@,
            host,
        ));
        args
    }
}

/// The arguments that a game is launched with.
pub open spec fn launch_args(
    profile: ProfileModel,
    meta: VersionMetaModel,
    env: LaunchEnvModel,
    uuid: Seq<char>,
    java_bits: Option<u32>,
    host: HostOs,
) -> Seq<Seq<char>> {
    let values = replacements(profile, meta, env, uuid);
    seq![
        "-Xms512M"@,
        "-Xmx"@ + decimal_text(ram_for(profile.ram_mb, java_bits) as nat) + "M"@,
    ] + jvm_part(meta.arguments, values, env, host) + kept_jvm_args(profile.jvm_args) + seq![
        meta.main_class,
    ] + game_part(profile, meta, values, env, uuid, host)
}

/// The arguments that a game is launched with by the player with the identity `uuid`.
pub fn launch_arguments_as(
    profile: &Profile,
    meta: &LaunchVersionMeta,
    env: &LaunchEnv,
    uuid: &str,
    java_bits: Option<u32>,
    host: HostOs,
) -> (args: Vec<String>)
    ensures
        args.deep_view() == launch_args(
            profile.deep_view(),
            meta.deep_view(),
            env.deep_view(),
            uuid@,
            java_bits,
            host,
        ),
{
    let values = launch_replacements(profile, meta, env, uuid);
    let ram: u32 = effective_ram_mb(profile.ram_mb, java_bits);
    let ram_digits = decimal(ram as u64);
    let mut args: Vec<String> = Vec::new();
    args.push("-Xms512M".to_owned());
    args.push(concat3("-Xmx", ram_digits.as_str(), "M"));
    let ghost s0 = args.deep_view();
    let mut jvm = jvm_arguments(&meta.arguments, &values, env, host);
    let ghost s1 = jvm.deep_view();
    args.append(&mut jvm);
    assert(args.deep_view() =~= s0 + s1);
    let mut kept = sanitized_jvm_args(&profile.jvm_args);
    let ghost s2 = kept.deep_view();
    args.append(&mut kept);
    assert(args.deep_view() =~= s0 + s1 + s2);
    args.push(meta.main_class.clone());
    assert(args.deep_view() =~= s0 + s1 + s2 + seq![meta.main_class@]);
    let mut game = game_arguments(profile, meta, &values, env, uuid, host);
    let ghost s3 = game.deep_view();
    args.append(&mut game);
    assert(args.deep_view() =~= s0 + s1 + s2 + seq![meta.main_class@] + s3);
    assert(s0 =~= seq![
        "-Xms512M"@,
        "-Xmx"@ + decimal_text(ram_for(profile.ram_mb, java_bits) as nat) + "M"@,
    ]);
    args
}

/// The arguments that a game is launched with by the player of the profile.
pub fn launch_arguments(
    profile: &Profile,
    meta: &LaunchVersionMeta,
    env: &LaunchEnv,
    java_bits: Option<u32>,
    host: HostOs,
) -> (args: Vec<String>)
    ensures
        args.deep_view() == launch_args(
            profile.deep_view(),
            meta.deep_view(),
            env.deep_view(),
            offline_id(profile.nickname@),
            java_bits,
            host,
        ),
{
    let uuid = offline_uuid(profile.nickname.as_str());
    launch_arguments_as(profile, meta, env, uuid.as_str(), java_bits, host)
}

/// How a detected word size is shown.
pub open spec fn shown_bits(java_bits: Option<u32>) -> Seq<char> {
    match java_bits {
        Some(bits) => "Some("@ + decimal_text(bits as nat) + ")"@,
        None => "None"@,
    }
}

/// What the player is told when the game gets another amount of memory than the profile asks for.
pub open spec fn ram_notice_text(requested: u32, java_bits: Option<u32>) -> Option<Seq<char>> {
    let ram = ram_for(requested, java_bits);
    if ram == requested {
        None
    } else {
        Some(
            "[launcher] RAM adjusted from "@ + decimal_text(requested as nat) + "M to "@
                + decimal_text(ram as nat) + "M for detected Java "@ + shown_bits(java_bits)
                + "-bit"@,
        )
    }
}

/// What the player is told when the game gets another amount of memory than the profile asks for.
pub fn ram_notice(requested: u32, java_bits: Option<u32>) -> (notice: Option<String>)
    ensures
        notice.deep_view() == ram_notice_text(requested, java_bits),
{
    let ram: u32 = effective_ram_mb(requested, java_bits);
    if ram == requested {
        return None;
    }
    let requested_digits = decimal(requested as u64);
    let ram_digits = decimal(ram as u64);
    let bits = match java_bits {
        Some(bits) => {
            let digits = decimal(bits as u64);
            concat3("Some(", digits.as_str(), ")")
        },
        None => "None".to_owned(),
    };
    let mut text = "[launcher] RAM adjusted from ".to_owned();
    text.append(requested_digits.as_str());
    text.append("M to ");
    text.append(ram_digits.as_str());
    text.append("M for detected Java ");
    text.append(bits.as_str());
    text.append("-bit");
    Some(text)
}

/// The runtime to launch with. A profile with a critical issue is refused before anything else,
/// then one without a runtime.
pub fn launch_java(can_launch: bool, java: &JavaResolution) -> (path: Result<String, LauncherError>)
    ensures
        match path {
            Ok(path) => can_launch && java.resolved_path.deep_view() == Some(path@),
            Err(LauncherError::ValidationFailed) => !can_launch,
            Err(LauncherError::JavaNotFound) => can_launch && java.resolved_path is None,
            Err(_) => false,
        },
{
    if !can_launch {
        return Err(LauncherError::ValidationFailed);
    }
    match &java.resolved_path {
        Some(path) => Ok(path.clone()),
        None => Err(LauncherError::JavaNotFound),
    }
}

/// Where a profile keeps what the game is told of.
#[derive(Debug)]
pub struct LaunchDirs {
    pub game: AppPath,
    pub assets: AppPath,
    pub natives: AppPath,
    pub libraries: AppPath,
    pub client_jar: AppPath,
}

/// Where a profile keeps what the game is told of.
pub fn launch_dirs(profile: &Profile) -> (dirs: LaunchDirs)
    ensures
        dirs.game@ == instance_path(profile.id@),
        dirs.assets@ == instance_dir_path(profile.id@, "assets"@),
        dirs.natives@ == instance_dir_path(profile.id@, "natives"@),
        dirs.libraries@ == instance_dir_path(profile.id@, "libraries"@),
        dirs.client_jar@ == version_file_path(profile.id@, profile.minecraft_version@, ".jar"@),
{
    let id = profile.id.as_str();
    LaunchDirs {
        game: instance_root(id),
        assets: instance_dir(id, "assets"),
        natives: instance_dir(id, "natives"),
        libraries: instance_dir(id, "libraries"),
        client_jar: client_jar_path(profile),
    }
}

/// A game launch: the program, its arguments, and what to tell the player beforehand.
#[derive(Debug)]
pub struct LaunchPlan {
    pub program: String,
    pub args: Vec<String>,
    pub notice: Option<String>,
}

/// How a profile is launched with the runtime at `java_path`.
pub fn plan_launch(
    profile: &Profile,
    meta: &LaunchVersionMeta,
    env: &LaunchEnv,
    java_path: &str,
    java_bits: Option<u32>,
    host: HostOs,
) -> (plan: LaunchPlan)
    ensures
        plan.program@ == java_path@,
        plan.args.deep_view() == launch_args(
            profile.deep_view(),
            meta.deep_view(),
            env.deep_view(),
            offline_id(profile.nickname@),
            java_bits,
            host,
        ),
        plan.notice.deep_view() == ram_notice_text(profile.ram_mb, java_bits),
{
    LaunchPlan {
        program: java_path.to_owned(),
        args: launch_arguments(profile, meta, env, java_bits, host),
        notice: ram_notice(profile.ram_mb, java_bits),
    }
}

// ---------------------------------------------------------------------------
// Laws
// ---------------------------------------------------------------------------

/// An option is among the arguments once it has been added, and the arguments before it stay.
pub proof fn law_added_option_is_there(
    args: Seq<Seq<char>>,
    names: Seq<Seq<char>>,
    name: Seq<char>,
    value: Seq<char>,
)
    requires
        names.contains(name),
    ensures
        has_any_arg(option_added(args, names, name, value), names),
        args.is_prefix_of(option_added(args, names, name, value)),
{
    if !has_any_arg(args, names) {
        let added = option_added(args, names, name, value);
        let j = choose|j: int| 0 <= j < names.len() && names[j] == name;
        assert(added[args.len() as int] == names[j]);
    }
}

/// Adding an option a second time changes nothing.
pub proof fn law_adding_an_option_is_idempotent(
    args: Seq<Seq<char>>,
    names: Seq<Seq<char>>,
    name: Seq<char>,
    value: Seq<char>,
    other: Seq<char>,
)
    requires
        names.contains(name),
    ensures
        option_added(option_added(args, names, name, value), names, name, other) == option_added(
            args,
            names,
            name,
            value,
        ),
{
    law_added_option_is_there(args, names, name, value);
}

proof fn lemma_option_kept(
    args: Seq<Seq<char>>,
    wanted: Seq<Seq<char>>,
    name: Seq<char>,
    value: Seq<char>,
)
    requires
        has_any_arg(args, wanted),
    ensures
        has_any_arg(option_set(args, name, value), wanted),
{
    let (i, j) = choose|i: int, j: int|
        0 <= i < args.len() && 0 <= j < wanted.len() && #[trigger] args[i] == #[trigger] wanted[j];
    let added = option_set(args, name, value);
    assert(added[i] == args[i]);
    assert(added[i] == wanted[j]);
}

/// The game is always told who plays, whatever its metadata looks like.
pub proof fn law_the_game_is_told_who_plays(
    profile: ProfileModel,
    meta: VersionMetaModel,
    values: Seq<(Seq<char>, Seq<char>)>,
    env: LaunchEnvModel,
    uuid: Seq<char>,
    host: HostOs,
)
    ensures
        has_any_arg(game_part(profile, meta, values, env, uuid, host), player_options()),
{
    let names = player_options();
    assert(names[0] == "--username"@);
    match (meta.arguments, meta.minecraft_arguments) {
        (Some(arguments), _) => {
            let a0 = expanded_items(arguments.game, values, host);
            law_added_option_is_there(a0, names, "--username"@, profile.nickname);
            let a1 = option_added(a0, names, "--username"@, profile.nickname);
            lemma_option_kept(a1, names, "--version"@, meta.id);
            let a2 = option_set(a1, "--version"@, meta.id);
            lemma_option_kept(a2, names, "--gameDir"@, env.game_dir);
            let a3 = option_set(a2, "--gameDir"@, env.game_dir);
            lemma_option_kept(a3, names, "--assetsDir"@, env.assets_dir);
            let a4 = option_set(a3, "--assetsDir"@, env.assets_dir);
            let assets = asset_index_name(meta, profile);
            lemma_option_kept(a4, names, "--assetIndex"@, assets);
            let a5 = option_set(a4, "--assetIndex"@, assets);
            lemma_option_kept(a5, names, "--uuid"@, uuid);
            let a6 = option_set(a5, "--uuid"@, uuid);
            lemma_option_kept(a6, names, "--accessToken"@, "offline-token"@);
            let a7 = option_set(a6, "--accessToken"@, "offline-token"@);
            lemma_option_kept(a7, names, "--userType"@, "legacy"@);
            let a8 = option_set(a7, "--userType"@, "legacy"@);
            lemma_option_kept(a8, names, "--versionType"@, version_type_of(meta));
        },
        (None, Some(raw)) => {
            let a0 = all_filled_in(words_text(raw), values);
            law_added_option_is_there(a0, names, "--username"@, profile.nickname);
            let a1 = option_added(a0, names, "--username"@, profile.nickname);
            lemma_option_kept(a1, names, "--session"@, legacy_session(uuid));
        },
        (None, None) => {
            let args = game_part(profile, meta, values, env, uuid, host);
            assert(args[0] == names[0]);
        },
    }
}

/// The runtime is always told the class path and the directory of the native libraries.
pub proof fn law_the_runtime_is_told_its_paths(
    arguments: Option<ArgumentsModel>,
    values: Seq<(Seq<char>, Seq<char>)>,
    env: LaunchEnvModel,
    host: HostOs,
)
    ensures
        jvm_part(arguments, values, env, host).contains("-cp"@),
        has_arg_prefix(jvm_part(arguments, values, env, host), "-Djava.library.path="@),
{
    let args = jvm_part(arguments, values, env, host);
    let flag = "-Djava.library.path="@;
    assert(flag.is_prefix_of(library_path_arg(env.natives_dir)));
    match arguments {
        Some(arguments) => {
            let given = expanded_items(arguments.jvm, values, host);
            let names = seq!["-cp"@];
            assert(names[0] == "-cp"@);
            law_added_option_is_there(given, names, "-cp"@, env.classpath);
            let with_classpath = option_set(given, "-cp"@, env.classpath);
            let (i, j) = choose|i: int, j: int|
                0 <= i < with_classpath.len() && 0 <= j < names.len() && #[trigger] with_classpath[i]
                    == #[trigger] names[j];
            assert(args[i] == "-cp"@);
            if !has_arg_prefix(with_classpath, flag) {
                assert(flag.is_prefix_of(args[args.len() - 1]));
            }
        },
        None => {
            assert(flag.is_prefix_of(args[0]));
            assert(args[1] == "-cp"@);
        },
    }
}

/// The amount of memory comes first, whatever the metadata and the profile say.
pub proof fn law_memory_comes_first(
    profile: ProfileModel,
    meta: VersionMetaModel,
    env: LaunchEnvModel,
    uuid: Seq<char>,
    java_bits: Option<u32>,
    host: HostOs,
)
    ensures
        launch_args(profile, meta, env, uuid, java_bits, host).len() >= 3,
        launch_args(profile, meta, env, uuid, java_bits, host)[0] == "-Xms512M"@,
        launch_args(profile, meta, env, uuid, java_bits, host)[1] == "-Xmx"@ + decimal_text(
            ram_for(profile.ram_mb, java_bits) as nat,
        ) + "M"@,
        launch_args(profile, meta, env, uuid, java_bits, host).contains(meta.main_class),
{
    let args = launch_args(profile, meta, env, uuid, java_bits, host);
    let values = replacements(profile, meta, env, uuid);
    let jvm = jvm_part(meta.arguments, values, env, host);
    let kept = kept_jvm_args(profile.jvm_args);
    assert(args[(2 + jvm.len() + kept.len()) as int] == meta.main_class);
}

/// Every library on the class path is a wanted one that is there.
pub proof fn law_class_path_is_present(
    paths: Seq<Seq<char>>,
    present: Seq<(Seq<char>, Seq<char>)>,
    i: int,
)
    requires
        0 <= i < present_files(paths, present).len(),
    ensures
        exists|j: int|
            0 <= j < paths.len() && lookup(present, #[trigger] paths[j]) == Some(
                present_files(paths, present)[i],
            ),
    decreases paths.len(),
{
    let files = present_files(paths, present);
    if paths.len() > 0 {
        let init = paths.drop_last();
        let before = present_files(init, present);
        if i < before.len() {
            law_class_path_is_present(init, present, i);
            let j = choose|j: int|
                0 <= j < init.len() && lookup(present, #[trigger] init[j]) == Some(before[i]);
            assert(paths[j] == init[j]);
            assert(files[i] == before[i]);
        } else {
            assert(paths[paths.len() - 1] == paths.last());
        }
    }
}

/// The class path grows by each library in front: by its file and a semicolon where the library is
/// wanted on this machine, has a path and is there, else by nothing. Without libraries it is the
/// client alone. So every wanted library that is there is on it, once for each time it is listed,
/// in the order of the libraries, and the client comes last.
pub proof fn law_class_path_has_every_present_library(
    library: LibraryModel,
    more: Seq<LibraryModel>,
    present: Seq<(Seq<char>, Seq<char>)>,
    client_jar: Seq<char>,
    host: HostOs,
)
    ensures
        classpath_text(Seq::empty(), present, client_jar, host) == client_jar,
        (allowed_by(library.rules, host) && library_path(library) is Some && lookup(
            present,
            library_path(library)->Some_0,
        ) is Some) ==> classpath_text(
            seq![library] + more,
            present,
            client_jar,
            host,
        ) == lookup(present, library_path(library)->Some_0)->Some_0 + ";"@ + classpath_text(
            more,
            present,
            client_jar,
            host,
        ),
        !(allowed_by(library.rules, host) && library_path(library) is Some && lookup(
            present,
            library_path(library)->Some_0,
        ) is Some) ==> classpath_text(
            seq![library] + more,
            present,
            client_jar,
            host,
        ) == classpath_text(more, present, client_jar, host),
{
    let own = wanted_library_paths(seq![library], host);
    let rest = wanted_library_paths(more, host);
    law_wanted_paths_follow_the_libraries(seq![library], more, library, host);
    law_present_files_follow_the_paths(own, rest, Seq::empty(), present);
    let files = present_files(rest, present);
    assert(Seq::<Seq<char>>::empty().push(client_jar) =~= seq![client_jar]);
    law_join_puts_separators_between(Seq::empty(), Seq::empty(), client_jar, ";"@);
    if allowed_by(library.rules, host) && library_path(library) is Some {
        let path = library_path(library)->Some_0;
        law_present_files_follow_the_paths(own, rest, path, present);
        assert(own =~= seq![path]);
        if let Some(file) = lookup(present, path) {
            assert((seq![file] + files).push(client_jar) =~= seq![file] + files.push(client_jar));
            law_join_puts_separators_between(seq![file], files.push(client_jar), file, ";"@);
        } else {
            assert(Seq::<Seq<char>>::empty() + files =~= files);
        }
    } else {
        assert(own =~= Seq::empty());
        assert(own + rest =~= rest);
    }
}

/// The paths of libraries one after the other are their paths one after the other; a library has
/// one path where it is wanted on this machine and has a path at all, else none.
pub proof fn law_wanted_paths_follow_the_libraries(
    first: Seq<LibraryModel>,
    second: Seq<LibraryModel>,
    library: LibraryModel,
    host: HostOs,
)
    ensures
        wanted_library_paths(first + second, host) == wanted_library_paths(first, host)
            + wanted_library_paths(second, host),
        wanted_library_paths(Seq::empty(), host).len() == 0,
        allowed_by(library.rules, host) && library_path(library) is Some ==> wanted_library_paths(
            seq![library],
            host,
        ) == seq![library_path(library)->Some_0],
        !allowed_by(library.rules, host) || library_path(library) is None ==> wanted_library_paths(
            seq![library],
            host,
        ).len() == 0,
    decreases second.len(),
{
    let one = seq![library];
    assert(one.drop_last() =~= Seq::empty());
    assert(one.last() == library);
    assert(wanted_library_paths(one.drop_last(), host) =~= Seq::empty());
    if second.len() == 0 {
        assert(first + second =~= first);
        assert(wanted_library_paths(first, host) + wanted_library_paths(second, host)
            =~= wanted_library_paths(first, host));
    } else {
        let init = second.drop_last();
        law_wanted_paths_follow_the_libraries(first, init, library, host);
        assert((first + second).drop_last() =~= first + init);
        assert((first + second).last() == second.last());
        assert(wanted_library_paths(first + second, host) =~= wanted_library_paths(first, host)
            + wanted_library_paths(second, host));
    }
}

/// The files of paths one after the other are their files one after the other; a path that is there
/// has one file, any other none. So no file that is there is left out, and none changes its place.
pub proof fn law_present_files_follow_the_paths(
    first: Seq<Seq<char>>,
    second: Seq<Seq<char>>,
    path: Seq<char>,
    present: Seq<(Seq<char>, Seq<char>)>,
)
    ensures
        present_files(first + second, present) == present_files(first, present) + present_files(
            second,
            present,
        ),
        present_files(Seq::empty(), present).len() == 0,
        lookup(present, path) matches Some(file) ==> present_files(seq![path], present) == seq![
            file,
        ],
        lookup(present, path) is None ==> present_files(seq![path], present).len() == 0,
    decreases second.len(),
{
    let one = seq![path];
    assert(one.drop_last() =~= Seq::empty());
    assert(one.last() == path);
    assert(present_files(one.drop_last(), present) =~= Seq::empty());
    if second.len() == 0 {
        assert(first + second =~= first);
        assert(present_files(first, present) + present_files(second, present) =~= present_files(
            first,
            present,
        ));
    } else {
        let init = second.drop_last();
        law_present_files_follow_the_paths(first, init, path, present);
        assert((first + second).drop_last() =~= first + init);
        assert((first + second).last() == second.last());
        assert(present_files(first + second, present) =~= present_files(first, present)
            + present_files(second, present));
    }
}

/// Every wanted path that is there has its file on the class path, behind the files of the paths
/// before it, and there are as many files as there are such paths.
pub proof fn law_every_present_path_has_its_file(
    paths: Seq<Seq<char>>,
    present: Seq<(Seq<char>, Seq<char>)>,
    j: int,
)
    requires
        0 <= j < paths.len(),
        lookup(present, paths[j]) is Some,
    ensures
        present_files(paths, present).len() == paths.filter(
            |path: Seq<char>| lookup(present, path) is Some,
        ).len(),
        present_files(paths, present).contains(lookup(present, paths[j])->Some_0),
        present_files(paths.take(j), present).len() < present_files(paths, present).len(),
        present_files(paths, present)[present_files(paths.take(j), present).len() as int] == lookup(
            present,
            paths[j],
        )->Some_0,
{
    let file = lookup(present, paths[j])->Some_0;
    let front = paths.take(j);
    let back = paths.skip(j + 1);
    assert(paths =~= front + (seq![paths[j]] + back));
    law_present_files_follow_the_paths(front, seq![paths[j]] + back, paths[j], present);
    law_present_files_follow_the_paths(seq![paths[j]], back, paths[j], present);
    let at = present_files(front, present).len() as int;
    assert(present_files(paths, present)[at] == file);
    lemma_as_many_files(paths, present);
}

proof fn lemma_as_many_files(paths: Seq<Seq<char>>, present: Seq<(Seq<char>, Seq<char>)>)
    ensures
        present_files(paths, present).len() == paths.filter(
            |path: Seq<char>| lookup(present, path) is Some,
        ).len(),
    decreases paths.len(),
{
    reveal(Seq::filter);
    if paths.len() > 0 {
        lemma_as_many_files(paths.drop_last(), present);
    }
}

/// Values are filled in one after the other, each in every place of its name in dollar and braces.
pub proof fn law_values_are_filled_in_one_by_one(
    template: Seq<char>,
    key: Seq<char>,
    value: Seq<char>,
    more: Seq<(Seq<char>, Seq<char>)>,
)
    ensures
        filled_in(template, Seq::empty()) == template,
        filled_in(template, seq![(key, value)] + more) == filled_in(
            replace_text(template, "${"@ + key + "}"@, value),
            more,
        ),
    decreases more.len(),
{
    let all = seq![(key, value)] + more;
    if more.len() == 0 {
        assert(all =~= seq![(key, value)]);
        assert(all.drop_last() =~= Seq::empty());
        assert(all.last() == (key, value));
        assert(filled_in(template, all.drop_last()) == template);
        assert(more =~= Seq::empty());
    } else {
        let init = more.drop_last();
        law_values_are_filled_in_one_by_one(template, key, value, init);
        assert(all.drop_last() =~= seq![(key, value)] + init);
        assert(all.last() == more.last());
    }
}

/// The arguments of templates one after the other are their arguments one after the other. A plain
/// template gives one argument; a conditional one gives as many as it has texts, in their order, if
/// its rules allow it, and none if they do not.
pub proof fn law_arguments_follow_the_templates(
    first: Seq<ArgumentItemModel>,
    second: Seq<ArgumentItemModel>,
    text: Seq<char>,
    texts: Seq<Seq<char>>,
    rules: Option<Seq<RuleModel>>,
    values: Seq<(Seq<char>, Seq<char>)>,
    host: HostOs,
    i: int,
)
    ensures
        expanded_items(first + second, values, host) == expanded_items(first, values, host)
            + expanded_items(second, values, host),
        expanded_items(Seq::empty(), values, host).len() == 0,
        expanded_items(seq![ArgumentItemModel::Plain(text)], values, host) == seq![
            filled_in(text, values),
        ],
        expanded_items(
            seq![
                ArgumentItemModel::Conditional { rules, value: ArgumentValueModel::One(text) },
            ],
            values,
            host,
        ) == (if allowed_by(rules, host) {
            seq![filled_in(text, values)]
        } else {
            Seq::empty()
        }),
        expanded_items(
            seq![
                ArgumentItemModel::Conditional { rules, value: ArgumentValueModel::Many(texts) },
            ],
            values,
            host,
        ).len() == (if allowed_by(rules, host) {
            texts.len()
        } else {
            0
        }),
        allowed_by(rules, host) && 0 <= i < texts.len() ==> expanded_items(
            seq![
                ArgumentItemModel::Conditional { rules, value: ArgumentValueModel::Many(texts) },
            ],
            values,
            host,
        )[i] == filled_in(texts[i], values),
    decreases second.len(),
{
    lemma_one_template(ArgumentItemModel::Plain(text), values, host);
    lemma_one_template(
        ArgumentItemModel::Conditional { rules, value: ArgumentValueModel::One(text) },
        values,
        host,
    );
    lemma_one_template(
        ArgumentItemModel::Conditional { rules, value: ArgumentValueModel::Many(texts) },
        values,
        host,
    );
    if second.len() == 0 {
        assert(first + second =~= first);
        assert(expanded_items(first, values, host) + expanded_items(second, values, host)
            =~= expanded_items(first, values, host));
    } else {
        let init = second.drop_last();
        law_arguments_follow_the_templates(first, init, text, texts, rules, values, host, i);
        assert((first + second).drop_last() =~= first + init);
        assert((first + second).last() == second.last());
        assert(expanded_items(first + second, values, host) =~= expanded_items(first, values, host)
            + expanded_items(second, values, host));
    }
}

proof fn lemma_one_template(
    item: ArgumentItemModel,
    values: Seq<(Seq<char>, Seq<char>)>,
    host: HostOs,
)
    ensures
        expanded_items(seq![item], values, host) == expanded_item(item, values, host),
{
    let one = seq![item];
    assert(one.drop_last() =~= Seq::empty());
    assert(one.last() == item);
    assert(expanded_items(one.drop_last(), values, host) =~= Seq::empty());
    assert(expanded_items(one, values, host) =~= expanded_item(item, values, host));
}

/// Of a line of words every word is filled in on its own, in its place.
pub proof fn law_every_word_is_filled_in(
    templates: Seq<Seq<char>>,
    values: Seq<(Seq<char>, Seq<char>)>,
    i: int,
)
    requires
        0 <= i < templates.len(),
    ensures
        all_filled_in(templates, values).len() == templates.len(),
        all_filled_in(templates, values)[i] == filled_in(templates[i], values),
{
}

/// An option that is missing comes behind the arguments, its value right behind it; one that is
/// there under any of its names is left alone.
pub proof fn law_missing_option_comes_last(
    args: Seq<Seq<char>>,
    names: Seq<Seq<char>>,
    name: Seq<char>,
    value: Seq<char>,
)
    ensures
        (exists|i: int| 0 <= i < args.len() && names.contains(#[trigger] args[i])) ==> option_added(
            args,
            names,
            name,
            value,
        ) == args,
        (forall|i: int| 0 <= i < args.len() ==> !names.contains(#[trigger] args[i])) ==> {
            &&& option_added(args, names, name, value).len() == args.len() + 2
            &&& option_added(args, names, name, value).take(args.len() as int) == args
            &&& option_added(args, names, name, value)[args.len() as int] == name
            &&& option_added(args, names, name, value)[args.len() as int + 1] == value
        },
        args.contains(name) ==> option_set(args, name, value) == args,
        !args.contains(name) ==> option_set(args, name, value) == args + seq![name, value],
{
    if exists|i: int| 0 <= i < args.len() && names.contains(#[trigger] args[i]) {
        let i = choose|i: int| 0 <= i < args.len() && names.contains(#[trigger] args[i]);
        let j = choose|j: int| 0 <= j < names.len() && names[j] == args[i];
        assert(args[i] == names[j]);
        assert(has_any_arg(args, names));
    } else {
        if has_any_arg(args, names) {
            let (i, j) = choose|i: int, j: int|
                0 <= i < args.len() && 0 <= j < names.len() && #[trigger] args[i]
                    == #[trigger] names[j];
            assert(names.contains(args[i]));
        }
        assert(option_added(args, names, name, value).take(args.len() as int) =~= args);
    }
    let own = seq![name];
    if args.contains(name) {
        let i = choose|i: int| 0 <= i < args.len() && args[i] == name;
        assert(args[i] == own[0]);
        assert(has_any_arg(args, own));
    } else if has_any_arg(args, own) {
        let (i, j) = choose|i: int, j: int|
            0 <= i < args.len() && 0 <= j < own.len() && #[trigger] args[i] == #[trigger] own[j];
        assert(args[i] == name);
    }
}

/// The names under which the player can be given.
pub proof fn law_names_for_the_player(name: Seq<char>)
    ensures
        player_options().contains(name) <==> name == "--username"@ || name == "--user"@ || name
            == "--userName"@,
{
    let names = player_options();
    assert(names[0] == "--username"@ && names[1] == "--user"@ && names[2] == "--userName"@);
    if names.contains(name) {
        let i = choose|i: int| 0 <= i < names.len() && names[i] == name;
        assert(i == 0 || i == 1 || i == 2);
    }
}

/// The arguments with an option and its value behind them, unless the option is there.
pub open spec fn with_option(args: Seq<Seq<char>>, name: Seq<char>, value: Seq<char>) -> Seq<
    Seq<char>,
> {
    if args.contains(name) {
        args
    } else {
        args + seq![name, value]
    }
}

/// The arguments for the runtime begin with those of the metadata. The class path follows where the
/// metadata does not name one, and the directory of the native libraries where it does not name
/// that. Without metadata on arguments these two are all there is.
pub proof fn law_runtime_arguments_in_order(
    arguments: ArgumentsModel,
    values: Seq<(Seq<char>, Seq<char>)>,
    env: LaunchEnvModel,
    host: HostOs,
)
    ensures
        jvm_part(None, values, env, host) == seq![
            "-Djava.library.path="@ + env.natives_dir,
            "-cp"@,
            env.classpath,
        ],
        ({
            let named = with_option(
                expanded_items(arguments.jvm, values, host),
                "-cp"@,
                env.classpath,
            );
            &&& (exists|i: int|
                0 <= i < named.len() && "-Djava.library.path="@.is_prefix_of(#[trigger] named[i]))
                ==> jvm_part(Some(arguments), values, env, host) == named
            &&& (forall|i: int|
                0 <= i < named.len() ==> !"-Djava.library.path="@.is_prefix_of(
                    #[trigger] named[i],
                )) ==> jvm_part(Some(arguments), values, env, host) == named + seq![
                "-Djava.library.path="@ + env.natives_dir,
            ]
        }),
{
    let given = expanded_items(arguments.jvm, values, host);
    law_missing_option_comes_last(given, seq!["-cp"@], "-cp"@, env.classpath);
    let with_classpath = option_set(given, "-cp"@, env.classpath);
    let dir = "-Djava.library.path="@ + env.natives_dir;
    assert(with_classpath.push(dir) =~= with_classpath + seq![dir]);
}

/// Without metadata on arguments the game is told everything there is to tell, each value right
/// behind its name.
pub proof fn law_game_arguments_without_metadata(
    profile: ProfileModel,
    meta: VersionMetaModel,
    values: Seq<(Seq<char>, Seq<char>)>,
    env: LaunchEnvModel,
    uuid: Seq<char>,
    host: HostOs,
)
    requires
        meta.arguments is None,
        meta.minecraft_arguments is None,
    ensures
        game_part(profile, meta, values, env, uuid, host) == seq!["--username"@, profile.nickname]
            + seq!["--version"@, meta.id] + seq!["--gameDir"@, env.game_dir] + seq![
            "--assetsDir"@,
            env.assets_dir,
        ] + seq!["--assetIndex"@, asset_index_name(meta, profile)] + seq!["--uuid"@, uuid] + seq![
            "--accessToken"@,
            "offline-token"@,
        ] + seq!["--session"@, "token:offline-token:"@ + uuid] + seq!["--userType"@, "legacy"@]
            + seq!["--versionType"@, version_type_of(meta)],
{
    assert(game_part(profile, meta, values, env, uuid, host) =~= seq!["--username"@, profile.nickname]
        + seq!["--version"@, meta.id] + seq!["--gameDir"@, env.game_dir] + seq![
        "--assetsDir"@,
        env.assets_dir,
    ] + seq!["--assetIndex"@, asset_index_name(meta, profile)] + seq!["--uuid"@, uuid] + seq![
        "--accessToken"@,
        "offline-token"@,
    ] + seq!["--session"@, legacy_session(uuid)] + seq!["--userType"@, "legacy"@] + seq![
        "--versionType"@,
        version_type_of(meta),
    ]);
}

/// To the words of old metadata the player and the session are added where they are missing, each
/// with its value.
pub proof fn law_game_arguments_of_old_metadata(
    profile: ProfileModel,
    meta: VersionMetaModel,
    values: Seq<(Seq<char>, Seq<char>)>,
    env: LaunchEnvModel,
    uuid: Seq<char>,
    host: HostOs,
    raw: Seq<char>,
)
    requires
        meta.arguments is None,
        meta.minecraft_arguments == Some(raw),
    ensures
        ({
            let given = all_filled_in(words_text(raw), values);
            let with_player = if given.contains("--username"@) || given.contains("--user"@)
                || given.contains("--userName"@) {
                given
            } else {
                given + seq!["--username"@, profile.nickname]
            };
            game_part(profile, meta, values, env, uuid, host) == (if with_player.contains(
                "--session"@,
            ) {
                with_player
            } else {
                with_player + seq!["--session"@, "token:offline-token:"@ + uuid]
            })
        }),
{
    let given = all_filled_in(words_text(raw), values);
    lemma_player_added(given, profile.nickname);
    let with_player = option_added(given, player_options(), "--username"@, profile.nickname);
    law_missing_option_comes_last(
        with_player,
        seq!["--session"@],
        "--session"@,
        legacy_session(uuid),
    );
}

proof fn lemma_player_added(args: Seq<Seq<char>>, nickname: Seq<char>)
    ensures
        option_added(args, player_options(), "--username"@, nickname) == (if args.contains(
            "--username"@,
        ) || args.contains("--user"@) || args.contains("--userName"@) {
            args
        } else {
            args + seq!["--username"@, nickname]
        }),
{
    let names = player_options();
    assert(names[0] == "--username"@ && names[1] == "--user"@ && names[2] == "--userName"@);
    if args.contains("--username"@) || args.contains("--user"@) || args.contains("--userName"@) {
        let i = choose|i: int|
            0 <= i < args.len() && (args[i] == "--username"@ || args[i] == "--user"@ || args[i]
                == "--userName"@);
        let j: int = if args[i] == "--username"@ {
            0
        } else if args[i] == "--user"@ {
            1
        } else {
            2
        };
        assert(args[i] == names[j]);
        assert(has_any_arg(args, names));
    } else if has_any_arg(args, names) {
        let (i, j) = choose|i: int, j: int|
            0 <= i < args.len() && 0 <= j < names.len() && #[trigger] args[i] == #[trigger] names[j];
        assert(j == 0 || j == 1 || j == 2);
        assert(args.contains(args[i]));
    }
}

/// To the arguments of the metadata these are added where they are missing, in this order, each with
/// its value: the player, the version, the game directory, the directory and the name of the assets,
/// the identity, the token, the kind of player and the kind of version.
pub proof fn law_game_arguments_of_new_metadata(
    profile: ProfileModel,
    meta: VersionMetaModel,
    values: Seq<(Seq<char>, Seq<char>)>,
    env: LaunchEnvModel,
    uuid: Seq<char>,
    host: HostOs,
    arguments: ArgumentsModel,
)
    requires
        meta.arguments == Some(arguments),
    ensures
        ({
            let given = expanded_items(arguments.game, values, host);
            let a1 = if given.contains("--username"@) || given.contains("--user"@)
                || given.contains("--userName"@) {
                given
            } else {
                given + seq!["--username"@, profile.nickname]
            };
            let a2 = with_option(a1, "--version"@, meta.id);
            let a3 = with_option(a2, "--gameDir"@, env.game_dir);
            let a4 = with_option(a3, "--assetsDir"@, env.assets_dir);
            let a5 = with_option(a4, "--assetIndex"@, asset_index_name(meta, profile));
            let a6 = with_option(a5, "--uuid"@, uuid);
            let a7 = with_option(a6, "--accessToken"@, "offline-token"@);
            let a8 = with_option(a7, "--userType"@, "legacy"@);
            game_part(profile, meta, values, env, uuid, host) == with_option(
                a8,
                "--versionType"@,
                version_type_of(meta),
            )
        }),
{
    let given = expanded_items(arguments.game, values, host);
    lemma_player_added(given, profile.nickname);
    let a1 = option_added(given, player_options(), "--username"@, profile.nickname);
    law_missing_option_comes_last(a1, seq!["--version"@], "--version"@, meta.id);
    let a2 = option_set(a1, "--version"@, meta.id);
    law_missing_option_comes_last(a2, seq!["--gameDir"@], "--gameDir"@, env.game_dir);
    let a3 = option_set(a2, "--gameDir"@, env.game_dir);
    law_missing_option_comes_last(a3, seq!["--assetsDir"@], "--assetsDir"@, env.assets_dir);
    let a4 = option_set(a3, "--assetsDir"@, env.assets_dir);
    let assets = asset_index_name(meta, profile);
    law_missing_option_comes_last(a4, seq!["--assetIndex"@], "--assetIndex"@, assets);
    let a5 = option_set(a4, "--assetIndex"@, assets);
    law_missing_option_comes_last(a5, seq!["--uuid"@], "--uuid"@, uuid);
    let a6 = option_set(a5, "--uuid"@, uuid);
    law_missing_option_comes_last(a6, seq!["--accessToken"@], "--accessToken"@, "offline-token"@);
    let a7 = option_set(a6, "--accessToken"@, "offline-token"@);
    law_missing_option_comes_last(a7, seq!["--userType"@], "--userType"@, "legacy"@);
    let a8 = option_set(a7, "--userType"@, "legacy"@);
    law_missing_option_comes_last(
        a8,
        seq!["--versionType"@],
        "--versionType"@,
        version_type_of(meta),
    );
}

/// The parts of a command line stand in this order: the memory, the arguments for the runtime, those
/// of the profile that are passed on, the main class, and the arguments for the game; nothing stands
/// between them.
pub proof fn law_parts_of_the_command_line(
    profile: ProfileModel,
    meta: VersionMetaModel,
    env: LaunchEnvModel,
    uuid: Seq<char>,
    java_bits: Option<u32>,
    host: HostOs,
)
    ensures
        ({
            let args = launch_args(profile, meta, env, uuid, java_bits, host);
            let values = replacements(profile, meta, env, uuid);
            let jvm = jvm_part(meta.arguments, values, env, host);
            let kept = kept_jvm_args(profile.jvm_args);
            let game = game_part(profile, meta, values, env, uuid, host);
            let main = 2 + jvm.len() + kept.len();
            &&& args.len() == main + 1 + game.len()
            &&& args[0] == "-Xms512M"@
            &&& args[1] == "-Xmx"@ + decimal_text(ram_for(profile.ram_mb, java_bits) as nat) + "M"@
            &&& args.subrange(2, 2 + jvm.len() as int) == jvm
            &&& args.subrange(2 + jvm.len() as int, main as int) == kept
            &&& args[main as int] == meta.main_class
            &&& args.skip(main as int + 1) == game
        }),
{
    let args = launch_args(profile, meta, env, uuid, java_bits, host);
    let values = replacements(profile, meta, env, uuid);
    let jvm = jvm_part(meta.arguments, values, env, host);
    let kept = kept_jvm_args(profile.jvm_args);
    let game = game_part(profile, meta, values, env, uuid, host);
    let main = 2 + jvm.len() + kept.len();
    assert(args.subrange(2, 2 + jvm.len() as int) =~= jvm);
    assert(args.subrange(2 + jvm.len() as int, main as int) =~= kept);
    assert(args.skip(main as int + 1) =~= game);
}

/// Which value stands for which name in a template.
pub proof fn law_values_for_templates(
    profile: ProfileModel,
    meta: VersionMetaModel,
    env: LaunchEnvModel,
    uuid: Seq<char>,
)
    ensures
        ({
            let values = replacements(profile, meta, env, uuid);
            &&& values.len() == 28
            &&& values[0] == ("auth_player_name"@, profile.nickname)
            &&& values[1] == ("auth_username"@, profile.nickname)
            &&& values[2] == ("profile_name"@, profile.nickname)
            &&& values[3] == ("user_name"@, profile.nickname)
            &&& values[4] == ("username"@, profile.nickname)
            &&& values[5] == ("version_name"@, meta.id)
            &&& values[6] == ("game_directory"@, env.game_dir)
            &&& values[7] == ("assets_root"@, env.assets_dir)
            &&& values[8] == ("assets_index_name"@, asset_index_name(meta, profile))
            &&& values[9] == ("auth_uuid"@, uuid)
            &&& values[10] == ("auth_access_token"@, "offline-token"@)
            &&& values[11] == ("user_type"@, "legacy"@)
            &&& values[12] == ("version_type"@, version_type_of(meta))
            &&& values[13] == ("auth_session"@, "token:offline-token:"@ + uuid)
            &&& values[14] == ("user_properties"@, "{}"@)
            &&& values[15] == ("game_assets"@, env.assets_dir)
            &&& values[16] == ("natives_directory"@, env.natives_dir)
            &&& values[17] == ("launcher_name"@, "RoundStudioLauncher"@)
            &&& values[18] == ("launcher_version"@, "0.1.0"@)
            &&& values[19] == ("library_directory"@, env.libraries_dir)
            &&& values[20] == ("classpath_separator"@, ";"@)
            &&& values[21] == ("classpath"@, env.classpath)
            &&& values[22] == ("clientid"@, ""@)
            &&& values[23] == ("client_id"@, ""@)
            &&& values[24] == ("xuid"@, ""@)
            &&& values[25] == ("auth_xuid"@, ""@)
            &&& values[26] == ("resolution_width"@, "854"@)
            &&& values[27] == ("resolution_height"@, "480"@)
        }),
{
}

/// The assets go by the name of their index, or by the game version where there is no index; a
/// version of no stated kind is a release.
pub proof fn law_defaults_of_the_metadata(
    meta: VersionMetaModel,
    profile: ProfileModel,
    index: AssetIndexModel,
    kind: Seq<char>,
)
    ensures
        meta.asset_index == Some(index) ==> asset_index_name(meta, profile) == index.id,
        meta.asset_index is None ==> asset_index_name(meta, profile) == profile.minecraft_version,
        meta.version_type == Some(kind) ==> version_type_of(meta) == kind,
        meta.version_type is None ==> version_type_of(meta) == "release"@,
{
}

/// The player is told of the memory exactly when it is not what was asked for, and is told what was
/// asked for, what is given, and the word size it goes by.
pub proof fn law_player_is_told_of_changed_memory(requested: u32, java_bits: Option<u32>, bits: u32)
    ensures
        ram_notice_text(requested, java_bits) is None <==> ram_for(requested, java_bits)
            == requested,
        ram_for(requested, Some(bits)) != requested ==> ram_notice_text(requested, Some(bits))
            == Some(
            "[launcher] RAM adjusted from "@ + decimal_text(requested as nat) + "M to "@
                + decimal_text(ram_for(requested, Some(bits)) as nat) + "M for detected Java "@ + (
            "Some("@ + decimal_text(bits as nat) + ")"@) + "-bit"@,
        ),
        ram_for(requested, None) != requested ==> ram_notice_text(requested, None) == Some(
            "[launcher] RAM adjusted from "@ + decimal_text(requested as nat) + "M to "@
                + decimal_text(ram_for(requested, None) as nat) + "M for detected Java "@ + "None"@
                + "-bit"@,
        ),
{
}

/// The class path that is built for metadata: the client alone where there are no libraries; else
/// the file of the first library and a semicolon, where that library is wanted and there, and behind
/// it the class path of the other libraries.
pub proof fn law_built_class_path(
    meta: &LaunchVersionMeta,
    present: &Vec<(String, String)>,
    client_jar: &str,
    host: HostOs,
    classpath: String,
    library: LibraryModel,
    more: Seq<LibraryModel>,
)
    requires
        call_ensures(build_classpath_from_meta, (meta, present, client_jar, host), classpath),
    ensures
        meta.deep_view().libraries.len() == 0 ==> classpath@ == client_jar@,
        meta.deep_view().libraries == seq![library] + more ==> {
            let rest = classpath_text(more, present.deep_view(), client_jar@, host);
            &&& (allowed_by(library.rules, host) && library_path(library) is Some && lookup(
                present.deep_view(),
                library_path(library)->Some_0,
            ) is Some) ==> classpath@ == lookup(
                present.deep_view(),
                library_path(library)->Some_0,
            )->Some_0 + ";"@ + rest
            &&& !(allowed_by(library.rules, host) && library_path(library) is Some && lookup(
                present.deep_view(),
                library_path(library)->Some_0,
            ) is Some) ==> classpath@ == rest
        },
{
    law_class_path_has_every_present_library(
        library,
        more,
        present.deep_view(),
        client_jar@,
        host,
    );
    if meta.deep_view().libraries.len() == 0 {
        assert(meta.deep_view().libraries =~= Seq::empty());
    }
}

/// A launch is refused for a critical issue whatever the runtime, for a missing runtime only without
/// one, and else takes the runtime that was found.
pub proof fn law_launch_takes_the_runtime_that_was_found(
    can_launch: bool,
    java: &JavaResolution,
    path: Result<String, LauncherError>,
)
    requires
        call_ensures(launch_java, (can_launch, java), path),
    ensures
        path is Ok <==> can_launch && java.resolved_path is Some,
        path matches Ok(found) ==> (java.resolved_path matches Some(known) ==> found@ == known@),
        path matches Err(error) ==> {
            &&& error is ValidationFailed <==> !can_launch
            &&& error is JavaNotFound <==> can_launch
        },
{
}

/// Where a launch finds its files: all of them lie in the game directory of the profile.
pub proof fn law_launch_directories(profile: &Profile, dirs: LaunchDirs)
    requires
        call_ensures(launch_dirs, (profile,), dirs),
    ensures
        dirs.game@ == seq!["profiles"@, profile.id@, "instance"@],
        dirs.assets@ == seq!["profiles"@, profile.id@, "instance"@, "assets"@],
        dirs.natives@ == seq!["profiles"@, profile.id@, "instance"@, "natives"@],
        dirs.libraries@ == seq!["profiles"@, profile.id@, "instance"@, "libraries"@],
        dirs.client_jar@ == seq!["profiles"@, profile.id@, "instance"@, "versions"@] + seq![
            profile.minecraft_version@,
            profile.minecraft_version@ + ".jar"@,
        ],
{
    let id = profile.id@;
    let version = profile.minecraft_version@;
    law_where_a_profile_lies(id, "assets"@, version, ".jar"@);
    law_where_a_profile_lies(id, "natives"@, version, ".jar"@);
    law_where_a_profile_lies(id, "libraries"@, version, ".jar"@);
}

/// A planned launch runs the given runtime with the command line of the profile, and the player is
/// told of the memory where it is not what the profile asks for.
pub proof fn law_planned_launch(
    profile: &Profile,
    meta: &LaunchVersionMeta,
    env: &LaunchEnv,
    java_path: &str,
    java_bits: Option<u32>,
    host: HostOs,
    plan: LaunchPlan,
)
    requires
        call_ensures(plan_launch, (profile, meta, env, java_path, java_bits, host), plan),
    ensures
        plan.program@ == java_path@,
        plan.args.deep_view().len() >= 3,
        plan.args.deep_view()[0] == "-Xms512M"@,
        plan.args.deep_view()[1] == "-Xmx"@ + decimal_text(
            ram_for(profile.ram_mb, java_bits) as nat,
        ) + "M"@,
        plan.args.deep_view().contains(meta.main_class@),
        plan.notice is None <==> ram_for(profile.ram_mb, java_bits) == profile.ram_mb,
{
    law_memory_comes_first(
        profile.deep_view(),
        meta.deep_view(),
        env.deep_view(),
        offline_id(profile.nickname@),
        java_bits,
        host,
    );
    law_player_is_told_of_changed_memory(profile.ram_mb, java_bits, 0);
}

} // verus!
