//! Libraries of the game: which are wanted on this machine, and where they come from.
use vstd::prelude::*;

use crate::pairs::{get, lookup};
use crate::text::{
    ascii_lower_text, concat2, law_ascii_lower_changes_capitals_only, law_replace_leaves_the_rest,
    law_replace_of_one_character, law_replace_replaces_every_occurrence, law_separator_divides,
    law_text_without_separator_is_one_part, lemma_split_nonempty, replace, replace_text,
    same_ignoring_ascii_case, same_text, separates, split, split_text, starts_with, Separator,
};

verus! {

// ---------------------------------------------------------------------------
// The machine
// ---------------------------------------------------------------------------

/// The operating system that the launcher runs on.
#[derive(Clone, Copy, Debug, PartialEq, Eq, Structural)]
pub enum HostOs {
    Windows,
    MacOs,
    Other,
}

/// What the game calls an operating system.
pub open spec fn os_name(host: HostOs) -> Seq<char> {
    match host {
        HostOs::Windows => "windows"@,
        HostOs::MacOs => "osx"@,
        HostOs::Other => "linux"@,
    }
}

/// What the game calls the width of a pointer on this machine.
pub open spec fn arch_name() -> Seq<char> {
    if usize::BITS == 64 {
        "64"@
    } else {
        "32"@
    }
}

/// What the game calls the operating system.
pub fn current_minecraft_os(host: HostOs) -> (name: &'static str)
    ensures
        name@ == os_name(host),
{
    match host {
        HostOs::Windows => "windows",
        HostOs::MacOs => "osx",
        HostOs::Other => "linux",
    }
}

/// What the game calls the width of a pointer on this machine.
pub fn current_minecraft_arch() -> (name: &'static str)
    ensures
        name@ == arch_name(),
{
    if usize::BITS == 64 {
        "64"
    } else {
        "32"
    }
}

// ---------------------------------------------------------------------------
// Rules
// ---------------------------------------------------------------------------

/// The machines that a rule is for.
#[derive(Debug)]
pub struct MojangRuleOs {
    pub name: Option<String>,
    pub arch: Option<String>,
}

/// What a [`MojangRuleOs`] holds.
pub struct RuleOsModel {
    pub name: Option<Seq<char>>,
    pub arch: Option<Seq<char>>,
}

impl DeepView for MojangRuleOs {
    type V = RuleOsModel;

    open spec fn deep_view(&self) -> RuleOsModel {
        RuleOsModel { name: self.name.deep_view(), arch: self.arch.deep_view() }
    }
}

/// A rule that allows or refuses something on some machines and with some features.
#[derive(Debug)]
pub struct MojangLibraryRule {
    pub action: String,
    pub os: Option<MojangRuleOs>,
    pub features: Option<Vec<(String, bool)>>,
}

/// What a [`MojangLibraryRule`] holds.
pub struct RuleModel {
    pub action: Seq<char>,
    pub os: Option<RuleOsModel>,
    pub features: Option<Seq<(Seq<char>, bool)>>,
}

impl DeepView for MojangLibraryRule {
    type V = RuleModel;

    open spec fn deep_view(&self) -> RuleModel {
        RuleModel {
            action: self.action@,
            os: self.os.deep_view(),
            features: self.features.deep_view(),
        }
    }
}

/// Whether a rule speaks of this machine. The launcher has none of the features a rule can name,
/// so a rule that asks for one does not.
pub open spec fn rule_matches(rule: RuleModel, host: HostOs) -> bool {
    &&& rule.os matches Some(os) ==> {
        &&& os.name matches Some(name) ==> name == os_name(host)
        &&& os.arch matches Some(arch) ==> arch == arch_name()
    }
    &&& rule.features matches Some(features) ==> forall|i: int|
        0 <= i < features.len() ==> !(#[trigger] features[i]).1
}

/// Whether a rule allows what it speaks of.
pub open spec fn rule_allows(rule: RuleModel) -> bool {
    ascii_lower_text(rule.action) == ascii_lower_text("allow"@)
}

/// Whether rules allow something: the last rule that speaks of this machine decides.
pub open spec fn rules_allow(rules: Seq<RuleModel>, host: HostOs) -> bool
    decreases rules.len(),
{
    if rules.len() == 0 {
        false
    } else if rule_matches(rules.last(), host) {
        rule_allows(rules.last())
    } else {
        rules_allow(rules.drop_last(), host)
    }
}

/// Whether optional rules allow something: without rules it is allowed.
pub open spec fn allowed_by(rules: Option<Seq<RuleModel>>, host: HostOs) -> bool {
    match rules {
        Some(rules) => rules_allow(rules, host),
        None => true,
    }
}

/// Whether a rule speaks of this machine.
pub fn library_rule_matches(rule: &MojangLibraryRule, host: HostOs) -> (matches: bool)
    ensures
        matches == rule_matches(rule.deep_view(), host),
{
    if let Some(os) = &rule.os {
        if let Some(name) = &os.name {
            if !same_text(name.as_str(), current_minecraft_os(host)) {
                return false;
            }
        }
        if let Some(arch) = &os.arch {
            if !same_text(arch.as_str(), current_minecraft_arch()) {
                return false;
            }
        }
    }
    if let Some(features) = &rule.features {
        let mut i: usize = 0;
        let ghost all = features.deep_view();
        while i < features.len()
            invariant
                i <= features@.len(),
                all == features.deep_view(),
                rule.deep_view().features == Some(all),
                forall|k: int| 0 <= k < i ==> !(#[trigger] all[k]).1,
            decreases features@.len() - i,
        {
            if features[i].1 {
                assert(rule.deep_view().features->Some_0[i as int].1);
                return false;
            }
            i = i + 1;
        }
    }
    true
}

/// Whether optional rules allow something.
pub fn rules_permit(rules: &Option<Vec<MojangLibraryRule>>, host: HostOs) -> (allowed: bool)
    ensures
        allowed == allowed_by(rules.deep_view(), host),
{
    match rules {
        None => true,
        Some(rules) => {
            let mut allowed = false;
            let mut i: usize = 0;
            let ghost all = rules.deep_view();
            while i < rules.len()
                invariant
                    i <= rules@.len(),
                    all == rules.deep_view(),
                    allowed == rules_allow(all.take(i as int), host),
                decreases rules@.len() - i,
            {
                assert(all.take(i + 1).drop_last() =~= all.take(i as int));
                if library_rule_matches(&rules[i], host) {
                    allowed = same_ignoring_ascii_case(rules[i].action.as_str(), "allow");
                }
                i = i + 1;
            }
            assert(all.take(i as int) =~= all);
            allowed
        },
    }
}

// ---------------------------------------------------------------------------
// Libraries
// ---------------------------------------------------------------------------

/// A file to download, and where it goes below the directory of the libraries.
#[derive(Debug)]
pub struct MojangLibraryArtifact {
    pub path: String,
    pub url: String,
}

/// What a [`MojangLibraryArtifact`] holds.
pub struct ArtifactModel {
    pub path: Seq<char>,
    pub url: Seq<char>,
}

impl DeepView for MojangLibraryArtifact {
    type V = ArtifactModel;

    open spec fn deep_view(&self) -> ArtifactModel {
        ArtifactModel { path: self.path@, url: self.url@ }
    }
}

/// The files of a library.
#[derive(Debug)]
pub struct MojangLibraryDownloads {
    pub artifact: Option<MojangLibraryArtifact>,
    pub classifiers: Option<Vec<(String, MojangLibraryArtifact)>>,
}

/// What a [`MojangLibraryDownloads`] holds.
pub struct DownloadsModel {
    pub artifact: Option<ArtifactModel>,
    pub classifiers: Option<Seq<(Seq<char>, ArtifactModel)>>,
}

impl DeepView for MojangLibraryDownloads {
    type V = DownloadsModel;

    open spec fn deep_view(&self) -> DownloadsModel {
        DownloadsModel {
            artifact: self.artifact.deep_view(),
            classifiers: self.classifiers.deep_view(),
        }
    }
}

/// A library that the game is launched with.
#[derive(Debug)]
pub struct MojangLibrary {
    pub name: Option<String>,
    pub url: Option<String>,
    pub natives: Option<Vec<(String, String)>>,
    pub rules: Option<Vec<MojangLibraryRule>>,
    pub downloads: Option<MojangLibraryDownloads>,
}

/// What a [`MojangLibrary`] holds.
pub struct LibraryModel {
    pub name: Option<Seq<char>>,
    pub url: Option<Seq<char>>,
    pub natives: Option<Seq<(Seq<char>, Seq<char>)>>,
    pub rules: Option<Seq<RuleModel>>,
    pub downloads: Option<DownloadsModel>,
}

impl DeepView for MojangLibrary {
    type V = LibraryModel;

    open spec fn deep_view(&self) -> LibraryModel {
        LibraryModel {
            name: self.name.deep_view(),
            url: self.url.deep_view(),
            natives: self.natives.deep_view(),
            rules: self.rules.deep_view(),
            downloads: self.downloads.deep_view(),
        }
    }
}

impl MojangLibraryArtifact {
    /// The same artifact.
    pub fn copy(&self) -> (copy: MojangLibraryArtifact)
        ensures
            copy.deep_view() == self.deep_view(),
    {
        MojangLibraryArtifact { path: self.path.clone(), url: self.url.clone() }
    }
}

/// Whether a library is wanted on this machine.
pub fn library_allowed(lib: &MojangLibrary, host: HostOs) -> (allowed: bool)
    ensures
        allowed == allowed_by(lib.deep_view().rules, host),
{
    rules_permit(&lib.rules, host)
}

/// The path of the Maven artifact `group:artifact:version`, or with `:classifier` behind it.
pub open spec fn maven_path(name: Seq<char>) -> Option<Seq<char>> {
    let parts = split_text(name, Separator::Char(':'));
    if parts.len() < 3 {
        None
    } else {
        let group = replace_text(parts[0], "."@, "/"@);
        let classifier = if parts.len() >= 4 {
            "-"@ + parts[3]
        } else {
            Seq::empty()
        };
        Some(
            group + "/"@ + parts[1] + "/"@ + parts[2] + "/"@ + parts[1] + "-"@ + parts[2]
                + classifier + ".jar"@,
        )
    }
}

/// The path of the Maven artifact `name`.
pub fn maven_library_path(name: &str) -> (path: Option<String>)
    ensures
        path.deep_view() == maven_path(name@),
{
    let parts = split(name, Separator::Char(':'));
    if parts.len() < 3 {
        return None;
    }
    let ghost all = parts.deep_view();
    proof {
        reveal_strlit(".");
    }
    let mut path = replace(parts[0].as_str(), ".", "/");
    let artifact = parts[1].as_str();
    let version = parts[2].as_str();
    path.append("/");
    path.append(artifact);
    path.append("/");
    path.append(version);
    path.append("/");
    path.append(artifact);
    path.append("-");
    path.append(version);
    let classifier = if parts.len() >= 4 {
        concat2("-", parts[3].as_str())
    } else {
        String::new()
    };
    path.append(classifier.as_str());
    path.append(".jar");
    Some(path)
}

/// `base` with a slash at its end.
pub open spec fn with_slash(base: Seq<char>) -> Seq<char> {
    if base.len() > 0 && base.last() == '/' {
        base
    } else {
        base + "/"@
    }
}

/// The artifact that a library names outright.
pub open spec fn named_artifact(lib: LibraryModel) -> Option<ArtifactModel> {
    match lib.downloads {
        Some(downloads) => downloads.artifact,
        None => None,
    }
}

/// Where a library is downloaded from, and where it goes: the artifact that it names, else the
/// Maven artifact of its name in its own repository or in that of the game.
pub open spec fn library_url_path(lib: LibraryModel) -> Option<(Seq<char>, Seq<char>)> {
    match named_artifact(lib) {
        Some(artifact) => Some((artifact.url, artifact.path)),
        None => match lib.name {
            Some(name) => match maven_path(name) {
                Some(path) => {
                    let base = match lib.url {
                        Some(url) => url,
                        None => "https://libraries.minecraft.net/"@,
                    };
                    Some((with_slash(base) + path, path))
                },
                None => None,
            },
            None => None,
        },
    }
}

/// Where a library is found below the directory of the libraries.
pub open spec fn library_path(lib: LibraryModel) -> Option<Seq<char>> {
    match named_artifact(lib) {
        Some(artifact) => Some(artifact.path),
        None => match lib.name {
            Some(name) => maven_path(name),
            None => None,
        },
    }
}

/// Where a library is downloaded from, and where it goes.
pub fn resolve_library_artifact_url_path(lib: &MojangLibrary) -> (found: Option<(String, String)>)
    ensures
        found.deep_view() == library_url_path(lib.deep_view()),
{
    if let Some(downloads) = &lib.downloads {
        if let Some(artifact) = &downloads.artifact {
            return Some((artifact.url.clone(), artifact.path.clone()));
        }
    }
    match &lib.name {
        Some(name) => match maven_library_path(name.as_str()) {
            Some(path) => {
                let mut url = match &lib.url {
                    Some(url) => url.clone(),
                    None => "https://libraries.minecraft.net/".to_owned(),
                };
                let chars = crate::text::chars_of(url.as_str());
                if !(chars.len() > 0 && chars[chars.len() - 1] == '/') {
                    url.append("/");
                }
                url.append(path.as_str());
                Some((url, path))
            },
            None => None,
        },
        None => None,
    }
}

/// Where a library is found below the directory of the libraries.
pub fn resolve_library_relative_path(lib: &MojangLibrary) -> (path: Option<String>)
    ensures
        path.deep_view() == library_path(lib.deep_view()),
{
    if let Some(downloads) = &lib.downloads {
        if let Some(artifact) = &downloads.artifact {
            return Some(artifact.path.clone());
        }
    }
    match &lib.name {
        Some(name) => maven_library_path(name.as_str()),
        None => None,
    }
}

// ---------------------------------------------------------------------------
// Natives
// ---------------------------------------------------------------------------

/// The value of the first entry whose key begins with `prefix`.
pub open spec fn lookup_prefix<T>(entries: Seq<(Seq<char>, T)>, prefix: Seq<char>) -> Option<T>
    decreases entries.len(),
{
    if entries.len() == 0 {
        None
    } else if prefix.is_prefix_of(entries[0].0) {
        Some(entries[0].1)
    } else {
        lookup_prefix(entries.skip(1), prefix)
    }
}

/// The classifier that a library names for an operating system.
pub open spec fn native_classifier(
    natives: Option<Seq<(Seq<char>, Seq<char>)>>,
    host: HostOs,
) -> Option<Seq<char>> {
    match natives {
        Some(natives) => match lookup(natives, os_name(host)) {
            Some(template) => Some(
                replace_text(
                    replace_text(template, "${arch}"@, arch_name()),
                    "${os}"@,
                    os_name(host),
                ),
            ),
            None => None,
        },
        None => None,
    }
}

/// The native part of a library: that of the classifier that the library names, else the first
/// of the Windows ones.
pub open spec fn native_artifact(lib: LibraryModel, host: HostOs) -> Option<ArtifactModel> {
    match lib.downloads {
        Some(downloads) => match downloads.classifiers {
            Some(classifiers) => {
                let named = match native_classifier(lib.natives, host) {
                    Some(key) => lookup(classifiers, key),
                    None => None,
                };
                if named is Some {
                    named
                } else if lookup(classifiers, "natives-windows"@) is Some {
                    lookup(classifiers, "natives-windows"@)
                } else if lookup(classifiers, "natives-windows-64"@) is Some {
                    lookup(classifiers, "natives-windows-64"@)
                } else {
                    lookup_prefix(classifiers, "natives-windows"@)
                }
            },
            None => None,
        },
        None => None,
    }
}

/// The native part of a library.
pub fn resolve_native_artifact(lib: &MojangLibrary, host: HostOs) -> (found: Option<
    MojangLibraryArtifact,
>)
    ensures
        found.deep_view() == native_artifact(lib.deep_view(), host),
{
    let classifiers = match &lib.downloads {
        Some(downloads) => match &downloads.classifiers {
            Some(classifiers) => classifiers,
            None => return None,
        },
        None => return None,
    };
    if let Some(natives) = &lib.natives {
        let os = current_minecraft_os(host);
        if let Some(template) = get(natives, os) {
            proof {
                reveal_strlit("${arch}");
                reveal_strlit("${os}");
            }
            let with_arch = replace(template.as_str(), "${arch}", current_minecraft_arch());
            let key = replace(with_arch.as_str(), "${os}", os);
            if let Some(found) = get(classifiers, key.as_str()) {
                return Some(found.copy());
            }
        }
    }
    if let Some(found) = get(classifiers, "natives-windows") {
        return Some(found.copy());
    }
    if let Some(found) = get(classifiers, "natives-windows-64") {
        return Some(found.copy());
    }
    let mut i: usize = 0;
    let ghost all = classifiers.deep_view();
    assert(all.skip(0) =~= all);
    while i < classifiers.len()
        invariant
            i <= classifiers@.len(),
            all == classifiers.deep_view(),
            lookup_prefix(all, "natives-windows"@) == lookup_prefix(
                all.skip(i as int),
                "natives-windows"@,
            ),
            native_artifact(lib.deep_view(), host) == lookup_prefix(all, "natives-windows"@),
        decreases classifiers@.len() - i,
    {
        assert(all.skip(i as int)[0] == all[i as int]);
        assert(all.skip(i as int).skip(1) =~= all.skip(i + 1));
        if starts_with(classifiers[i].0.as_str(), "natives-windows") {
            return Some(classifiers[i].1.copy());
        }
        i = i + 1;
    }
    None
}

// ---------------------------------------------------------------------------
// Laws
// ---------------------------------------------------------------------------

/// A library is looked for where its download goes.
pub proof fn law_library_is_found_where_it_goes(lib: LibraryModel)
    ensures
        library_path(lib) == (match library_url_path(lib) {
            Some((url, path)) => Some(path),
            None => None,
        }),
{
}

/// Rules that do not speak of this machine change nothing.
pub proof fn law_foreign_rules_do_not_count(
    rules: Seq<RuleModel>,
    foreign: Seq<RuleModel>,
    host: HostOs,
)
    requires
        forall|i: int| 0 <= i < foreign.len() ==> !rule_matches(#[trigger] foreign[i], host),
    ensures
        rules_allow(rules + foreign, host) == rules_allow(rules, host),
    decreases foreign.len(),
{
    if foreign.len() == 0 {
        assert(rules + foreign =~= rules);
    } else {
        let head = foreign.drop_last();
        assert((rules + foreign).drop_last() =~= rules + head);
        assert((rules + foreign).last() == foreign[foreign.len() - 1]);
        assert forall|i: int| 0 <= i < head.len() implies !rule_matches(
            #[trigger] head[i],
            host,
        ) by {
            assert(head[i] == foreign[i]);
        }
        law_foreign_rules_do_not_count(rules, head, host);
    }
}

/// The last rule that speaks of this machine decides, whatever stands before it.
pub proof fn law_last_matching_rule_decides(
    before: Seq<RuleModel>,
    rule: RuleModel,
    foreign: Seq<RuleModel>,
    host: HostOs,
)
    requires
        rule_matches(rule, host),
        forall|i: int| 0 <= i < foreign.len() ==> !rule_matches(#[trigger] foreign[i], host),
    ensures
        rules_allow(before.push(rule) + foreign, host) == rule_allows(rule),
{
    law_foreign_rules_do_not_count(before.push(rule), foreign, host);
}

/// Rules none of which speaks of this machine refuse.
pub proof fn law_only_foreign_rules_refuse(rules: Seq<RuleModel>, host: HostOs)
    requires
        forall|i: int| 0 <= i < rules.len() ==> !rule_matches(#[trigger] rules[i], host),
    ensures
        !rules_allow(rules, host),
{
    law_foreign_rules_do_not_count(Seq::empty(), rules, host);
    assert(Seq::empty() + rules =~= rules);
}

proof fn lemma_three_parts(group: Seq<char>, artifact: Seq<char>, version: Seq<char>)
    requires
        !group.contains(':'),
        !artifact.contains(':'),
    ensures
        split_text(group + ":"@ + artifact + ":"@ + version, Separator::Char(':')) == seq![
            group,
            artifact,
        ] + split_text(version, Separator::Char(':')),
{
    reveal_strlit(":");
    let sep = Separator::Char(':');
    let rest = artifact.push(':') + version;
    assert(group + ":"@ + artifact + ":"@ + version =~= group.push(':') + rest);
    assert forall|k: int| 0 <= k < group.len() implies !separates(sep, #[trigger] group[k]) by {
        assert(group.contains(group[k]));
    }
    assert forall|k: int| 0 <= k < artifact.len() implies !separates(
        sep,
        #[trigger] artifact[k],
    ) by {
        assert(artifact.contains(artifact[k]));
    }
    law_separator_divides(group, ':', rest, sep);
    law_separator_divides(artifact, ':', version, sep);
    law_text_without_separator_is_one_part(group, sep);
    law_text_without_separator_is_one_part(artifact, sep);
    assert(seq![group] + (seq![artifact] + split_text(version, sep)) =~= seq![group, artifact]
        + split_text(version, sep));
}

proof fn lemma_without_colon(text: Seq<char>)
    requires
        !text.contains(':'),
    ensures
        split_text(text, Separator::Char(':')) == seq![text],
{
    let sep = Separator::Char(':');
    assert forall|k: int| 0 <= k < text.len() implies !separates(sep, #[trigger] text[k]) by {
        assert(text.contains(text[k]));
    }
    law_text_without_separator_is_one_part(text, sep);
}

proof fn lemma_group_path(group: Seq<char>)
    ensures
        replace_text(group, "."@, "/"@).len() == group.len(),
        forall|i: int|
            0 <= i < group.len() ==> #[trigger] replace_text(group, "."@, "/"@)[i] == (if group[i]
                == '.' {
                '/'
            } else {
                group[i]
            }),
{
    reveal_strlit(".");
    reveal_strlit("/");
    assert("."@ =~= seq!['.']);
    assert("/"@ =~= seq!['/']);
    law_replace_of_one_character(group, '.', '/');
}

/// The path of `group:artifact:version` begins with the group, in which every dot has become a
/// slash and every other character has stayed; then come the artifact and the version as
/// directories, and a file that is named after both.
pub proof fn law_maven_path_of_three_parts(
    group: Seq<char>,
    artifact: Seq<char>,
    version: Seq<char>,
)
    requires
        !group.contains(':'),
        !artifact.contains(':'),
        !version.contains(':'),
    ensures
        maven_path(group + ":"@ + artifact + ":"@ + version) matches Some(path) && {
            &&& path.len() > group.len()
            &&& forall|i: int|
                0 <= i < group.len() ==> #[trigger] path[i] == (if group[i] == '.' {
                    '/'
                } else {
                    group[i]
                })
            &&& path.skip(group.len() as int) == "/"@ + artifact + "/"@ + version + "/"@ + artifact
                + "-"@ + version + ".jar"@
        },
{
    reveal_strlit("/");
    lemma_three_parts(group, artifact, version);
    lemma_without_colon(version);
    lemma_group_path(group);
    let name = group + ":"@ + artifact + ":"@ + version;
    let parts = split_text(name, Separator::Char(':'));
    assert(parts.len() == 3 && parts[0] == group && parts[1] == artifact && parts[2] == version);
    let path = maven_path(name)->Some_0;
    let tail = "/"@ + artifact + "/"@ + version + "/"@ + artifact + "-"@ + version + ".jar"@;
    assert(path =~= replace_text(group, "."@, "/"@) + tail);
    assert(path.skip(group.len() as int) =~= tail);
}

/// A classifier stands behind the version in the name of the file, and what follows a classifier
/// does not count.
pub proof fn law_maven_path_with_classifier(
    group: Seq<char>,
    artifact: Seq<char>,
    version: Seq<char>,
    classifier: Seq<char>,
    more: Seq<char>,
)
    requires
        !group.contains(':'),
        !artifact.contains(':'),
        !version.contains(':'),
        !classifier.contains(':'),
    ensures
        maven_path(group + ":"@ + artifact + ":"@ + version + ":"@ + classifier) matches Some(path)
            && {
            &&& path.len() > group.len()
            &&& forall|i: int|
                0 <= i < group.len() ==> #[trigger] path[i] == (if group[i] == '.' {
                    '/'
                } else {
                    group[i]
                })
            &&& path.skip(group.len() as int) == "/"@ + artifact + "/"@ + version + "/"@ + artifact
                + "-"@ + version + "-"@ + classifier + ".jar"@
        },
        maven_path(
            group + ":"@ + artifact + ":"@ + version + ":"@ + classifier + ":"@ + more,
        ) == maven_path(group + ":"@ + artifact + ":"@ + version + ":"@ + classifier),
{
    reveal_strlit("/");
    reveal_strlit(":");
    let sep = Separator::Char(':');
    let tail = version + ":"@ + classifier;
    let longer = version + ":"@ + classifier + ":"@ + more;
    lemma_three_parts(group, artifact, tail);
    lemma_three_parts(group, artifact, longer);
    lemma_three_parts(version, classifier, more);
    lemma_without_colon(version);
    lemma_without_colon(classifier);
    assert forall|k: int| 0 <= k < version.len() implies !separates(sep, #[trigger] version[k]) by {
        assert(version.contains(version[k]));
    }
    assert(tail =~= version.push(':') + classifier);
    law_separator_divides(version, ':', classifier, sep);
    lemma_group_path(group);
    let name = group + ":"@ + artifact + ":"@ + version + ":"@ + classifier;
    assert(name =~= group + ":"@ + artifact + ":"@ + tail);
    let long_name = group + ":"@ + artifact + ":"@ + version + ":"@ + classifier + ":"@ + more;
    assert(long_name =~= group + ":"@ + artifact + ":"@ + longer);
    let parts = split_text(name, sep);
    assert(parts =~= seq![group, artifact, version, classifier]);
    let long_parts = split_text(long_name, sep);
    lemma_split_nonempty(more, sep);
    assert(long_parts.take(4) =~= parts);
    assert(long_parts[0] == group && long_parts[1] == artifact && long_parts[2] == version
        && long_parts[3] == classifier);
    let path = maven_path(name)->Some_0;
    let rest = "/"@ + artifact + "/"@ + version + "/"@ + artifact + "-"@ + version + "-"@ + classifier
        + ".jar"@;
    assert(path =~= replace_text(group, "."@, "/"@) + rest);
    assert(path.skip(group.len() as int) =~= rest);
}

/// A name with fewer than three parts has no path.
pub proof fn law_short_name_has_no_path(group: Seq<char>, artifact: Seq<char>)
    requires
        !group.contains(':'),
        !artifact.contains(':'),
    ensures
        maven_path(group) is None,
        maven_path(group + ":"@ + artifact) is None,
{
    reveal_strlit(":");
    let sep = Separator::Char(':');
    lemma_without_colon(group);
    lemma_without_colon(artifact);
    assert(group + ":"@ + artifact =~= group.push(':') + artifact);
    law_separator_divides(group, ':', artifact, sep);
}

/// A library that names its artifact is that artifact, whatever else it says.
pub proof fn law_named_artifact_counts(
    lib: LibraryModel,
    downloads: DownloadsModel,
    artifact: ArtifactModel,
)
    requires
        lib.downloads == Some(downloads),
        downloads.artifact == Some(artifact),
    ensures
        library_url_path(lib) == Some((artifact.url, artifact.path)),
        library_path(lib) == Some(artifact.path),
{
}

/// A library without an artifact of its own comes from its repository, or from that of the game
/// where it names none, with one slash between the repository and its path; without a name that
/// has a path it comes from nowhere.
pub proof fn law_unnamed_artifact_comes_from_a_repository(lib: LibraryModel)
    requires
        lib.downloads matches Some(downloads) ==> downloads.artifact is None,
    ensures
        lib.name is None ==> library_url_path(lib) is None && library_path(lib) is None,
        lib.name matches Some(name) ==> {
            &&& library_path(lib) == maven_path(name)
            &&& maven_path(name) is None ==> library_url_path(lib) is None
            &&& maven_path(name) matches Some(path) ==> {
                &&& lib.url is None ==> library_url_path(lib) == Some(
                    ("https://libraries.minecraft.net/"@ + path, path),
                )
                &&& lib.url matches Some(url) ==> library_url_path(lib) == Some(
                    (
                        if url.len() > 0 && url[url.len() - 1] == '/' {
                            url + path
                        } else {
                            url + "/"@ + path
                        },
                        path,
                    ),
                )
            }
        },
{
    reveal_strlit("https://libraries.minecraft.net/");
}

/// What machines and pointers are called.
pub proof fn law_names_of_the_machine(host: HostOs)
    ensures
        host == HostOs::Windows ==> os_name(host) == "windows"@,
        host == HostOs::MacOs ==> os_name(host) == "osx"@,
        host == HostOs::Other ==> os_name(host) == "linux"@,
        usize::BITS == 64 ==> arch_name() == "64"@,
        usize::BITS != 64 ==> arch_name() == "32"@,
{
}

/// A rule speaks of this machine unless it names another system, another pointer width, or a
/// feature that has to be there.
pub proof fn law_what_a_rule_speaks_of(rule: RuleModel, host: HostOs)
    ensures
        rule.os is None && rule.features is None ==> rule_matches(rule, host),
        rule.os matches Some(os) ==> (os.name matches Some(name) ==> (name != os_name(host)
            ==> !rule_matches(rule, host))),
        rule.os matches Some(os) ==> (os.arch matches Some(arch) ==> (arch != arch_name()
            ==> !rule_matches(rule, host))),
        rule.features matches Some(features) ==> ((exists|i: int|
            0 <= i < features.len() && (#[trigger] features[i]).1) ==> !rule_matches(rule, host)),
        rule.os matches Some(os) ==> ((os.name is None || os.name == Some(os_name(host))) && (
        os.arch is None || os.arch == Some(arch_name())) && rule.features is None ==> rule_matches(
            rule,
            host,
        )),
        rule.features matches Some(features) ==> (rule.os is None && (forall|i: int|
            0 <= i < features.len() ==> !(#[trigger] features[i]).1) ==> rule_matches(rule, host)),
        !rule_matches(rule, host) ==> {
            ||| rule.os matches Some(os) && os.name matches Some(name) && name != os_name(host)
            ||| rule.os matches Some(os) && os.arch matches Some(arch) && arch != arch_name()
            ||| rule.features matches Some(features) && exists|i: int|
                0 <= i < features.len() && (#[trigger] features[i]).1
        },
{
}

/// A rule allows if its action is the word `allow`, in whatever case, and refuses otherwise.
pub proof fn law_what_a_rule_allows(rule: RuleModel)
    ensures
        rule_allows(rule) <==> {
            &&& rule.action.len() == 5
            &&& rule.action[0] == 'a' || rule.action[0] == 'A'
            &&& rule.action[1] == 'l' || rule.action[1] == 'L'
            &&& rule.action[2] == 'l' || rule.action[2] == 'L'
            &&& rule.action[3] == 'o' || rule.action[3] == 'O'
            &&& rule.action[4] == 'w' || rule.action[4] == 'W'
        },
{
    reveal_strlit("allow");
    let lowered = ascii_lower_text(rule.action);
    let word = ascii_lower_text("allow"@);
    law_ascii_lower_changes_capitals_only(rule.action);
    law_ascii_lower_changes_capitals_only("allow"@);
    assert(word.len() == 5);
    assert(word[0] == 'a' && word[1] == 'l' && word[2] == 'l' && word[3] == 'o' && word[4] == 'w');
    if rule.action.len() == 5 {
        assert(lowered[0] == word[0] <==> rule.action[0] == 'a' || rule.action[0] == 'A');
        assert(lowered[1] == word[1] <==> rule.action[1] == 'l' || rule.action[1] == 'L');
        assert(lowered[2] == word[2] <==> rule.action[2] == 'l' || rule.action[2] == 'L');
        assert(lowered[3] == word[3] <==> rule.action[3] == 'o' || rule.action[3] == 'O');
        assert(lowered[4] == word[4] <==> rule.action[4] == 'w' || rule.action[4] == 'W');
        if rule_allows(rule) {
        } else if lowered[0] == word[0] && lowered[1] == word[1] && lowered[2] == word[2]
            && lowered[3] == word[3] && lowered[4] == word[4] {
            assert(lowered =~= word);
        }
    }
}

/// Without rules everything is allowed; with rules it is what the rules say.
pub proof fn law_no_rules_allow(rules: Seq<RuleModel>, host: HostOs)
    ensures
        allowed_by(None, host),
        allowed_by(Some(rules), host) == rules_allow(rules, host),
{
}

/// The value that is found by the beginning of its key is that of the first such entry.
pub proof fn law_lookup_prefix_first<T>(entries: Seq<(Seq<char>, T)>, prefix: Seq<char>, i: int)
    requires
        0 <= i <= entries.len(),
        i < entries.len() ==> prefix.is_prefix_of(entries[i].0),
        forall|j: int| 0 <= j < i ==> !prefix.is_prefix_of((#[trigger] entries[j]).0),
    ensures
        lookup_prefix(entries, prefix) == (if i < entries.len() {
            Some(entries[i].1)
        } else {
            None
        }),
    decreases entries.len(),
{
    if i > 0 {
        let rest = entries.skip(1);
        assert(!prefix.is_prefix_of(entries[0].0));
        assert forall|j: int| 0 <= j < i - 1 implies !prefix.is_prefix_of(
            (#[trigger] rest[j]).0,
        ) by {
            assert(rest[j] == entries[j + 1]);
        }
        law_lookup_prefix_first(rest, prefix, i - 1);
    }
}

proof fn lemma_no_dollar_no_place(text: Seq<char>, pat: Seq<char>)
    requires
        !text.contains('$'),
        pat.len() > 0,
        pat[0] == '$',
    ensures
        forall|i: int| !(0 <= i <= text.len() - pat.len() && #[trigger] text.subrange(i, i
            + pat.len()) == pat),
{
    assert forall|i: int| !(0 <= i <= text.len() - pat.len() && #[trigger] text.subrange(i, i
        + pat.len()) == pat) by {
        if 0 <= i <= text.len() - pat.len() && text.subrange(i, i + pat.len()) == pat {
            assert(text.subrange(i, i + pat.len())[0] == text[i]);
            assert(text.contains(text[i]));
        }
    }
}

proof fn lemma_place_replaced(front: Seq<char>, pat: Seq<char>, back: Seq<char>, to: Seq<char>)
    requires
        !front.contains('$'),
        !back.contains('$'),
        pat.len() > 0,
        pat[0] == '$',
    ensures
        replace_text(front + pat + back, pat, to) == front + to + back,
{
    let s = front + pat + back;
    let at = front.len() as int;
    assert(s.subrange(at, at + pat.len()) =~= pat);
    assert forall|i: int| 0 <= i < at implies #[trigger] s.subrange(i, i + pat.len()) != pat by {
        if s.subrange(i, i + pat.len()) == pat {
            assert(s.subrange(i, i + pat.len())[0] == front[i]);
            assert(front.contains(front[i]));
        }
    }
    law_replace_replaces_every_occurrence(s, pat, to, at);
    assert(s.take(at) =~= front);
    assert(s.skip(at + pat.len()) =~= back);
    lemma_no_dollar_no_place(back, pat);
    law_replace_leaves_the_rest(back, pat, to);
}

/// The classifier is what the library names for this system, with the pointer width in the place of
/// `${arch}`; a library that names nothing for this system has none.
pub proof fn law_native_classifier_is_what_is_named(
    natives: Seq<(Seq<char>, Seq<char>)>,
    front: Seq<char>,
    back: Seq<char>,
    host: HostOs,
)
    requires
        !front.contains('$'),
        !back.contains('$'),
    ensures
        native_classifier(None, host) is None,
        lookup(natives, os_name(host)) is None ==> native_classifier(Some(natives), host) is None,
        lookup(natives, os_name(host)) == Some(front) ==> native_classifier(Some(natives), host)
            == Some(front),
        lookup(natives, os_name(host)) == Some(front + "${arch}"@ + back) ==> native_classifier(
            Some(natives),
            host,
        ) == Some(front + arch_name() + back),
        lookup(natives, os_name(host)) == Some(front + "${os}"@ + back) ==> native_classifier(
            Some(natives),
            host,
        ) == Some(front + os_name(host) + back),
{
    reveal_strlit("${arch}");
    reveal_strlit("${os}");
    reveal_strlit("64");
    reveal_strlit("32");
    let arch = "${arch}"@;
    let os = "${os}"@;
    lemma_no_dollar_no_place(front, arch);
    law_replace_leaves_the_rest(front, arch, arch_name());
    lemma_no_dollar_no_place(front, os);
    law_replace_leaves_the_rest(front, os, os_name(host));
    lemma_place_replaced(front, arch, back, arch_name());
    let with_arch = front + arch_name() + back;
    assert(!with_arch.contains('$')) by {
        if with_arch.contains('$') {
            let k = choose|k: int| 0 <= k < with_arch.len() && with_arch[k] == '$';
            if k < front.len() {
                assert(front[k] == '$');
            } else if k >= front.len() + 2 {
                assert(back[k - front.len() - 2] == '$');
            } else {
                assert(arch_name()[k - front.len()] == '$');
            }
        }
    }
    lemma_no_dollar_no_place(with_arch, os);
    law_replace_leaves_the_rest(with_arch, os, os_name(host));
    let named = front + os + back;
    assert forall|i: int| !(0 <= i <= named.len() - arch.len() && #[trigger] named.subrange(i, i
        + arch.len()) == arch) by {
        if 0 <= i <= named.len() - arch.len() && named.subrange(i, i + arch.len()) == arch {
            assert(named.subrange(i, i + arch.len())[0] == named[i]);
            assert(named.subrange(i, i + arch.len())[2] == named[i + 2]);
            if i < front.len() {
                assert(front.contains(front[i]));
            } else if i >= front.len() + os.len() {
                assert(back.contains(back[i - front.len() - os.len()]));
            } else {
                assert(i == front.len());
                assert(named[i + 2] == os[2]);
            }
        }
    }
    law_replace_leaves_the_rest(named, arch, arch_name());
    lemma_place_replaced(front, os, back, os_name(host));
}

/// The native part of a library is that of the classifier that it names for this system; where that
/// is not there, the plain Windows part, else the 64-bit Windows part, else the first Windows part.
pub proof fn law_native_part_in_order_of_preference(
    lib: LibraryModel,
    downloads: DownloadsModel,
    classifiers: Seq<(Seq<char>, ArtifactModel)>,
    host: HostOs,
)
    requires
        lib.downloads == Some(downloads),
        downloads.classifiers == Some(classifiers),
    ensures
        native_classifier(lib.natives, host) matches Some(key) ==> (lookup(classifiers, key) is Some
            ==> native_artifact(lib, host) == lookup(classifiers, key)),
        (native_classifier(lib.natives, host) matches Some(key) ==> lookup(classifiers, key) is None)
            ==> {
            &&& lookup(classifiers, "natives-windows"@) is Some ==> native_artifact(lib, host)
                == lookup(classifiers, "natives-windows"@)
            &&& lookup(classifiers, "natives-windows"@) is None && lookup(
                classifiers,
                "natives-windows-64"@,
            ) is Some ==> native_artifact(lib, host) == lookup(classifiers, "natives-windows-64"@)
            &&& lookup(classifiers, "natives-windows"@) is None && lookup(
                classifiers,
                "natives-windows-64"@,
            ) is None ==> native_artifact(lib, host) == lookup_prefix(
                classifiers,
                "natives-windows"@,
            )
        },
{
}

/// A library without classifiers has no native part.
pub proof fn law_no_classifiers_no_native_part(lib: LibraryModel, host: HostOs)
    requires
        lib.downloads matches Some(downloads) ==> downloads.classifiers is None,
    ensures
        native_artifact(lib, host) is None,
{
}

/// The path that is given for `group:artifact:version`: the group with a slash for every dot, the
/// artifact and the version as directories, and a file named after both.
pub proof fn law_path_of_a_maven_name(
    name: &str,
    path: Option<String>,
    group: Seq<char>,
    artifact: Seq<char>,
    version: Seq<char>,
)
    requires
        call_ensures(maven_library_path, (name,), path),
        name@ == group + ":"@ + artifact + ":"@ + version,
        !group.contains(':'),
        !artifact.contains(':'),
        !version.contains(':'),
    ensures
        path matches Some(path) && {
            &&& path@.len() > group.len()
            &&& forall|i: int|
                0 <= i < group.len() ==> #[trigger] path@[i] == (if group[i] == '.' {
                    '/'
                } else {
                    group[i]
                })
            &&& path@.skip(group.len() as int) == "/"@ + artifact + "/"@ + version + "/"@ + artifact
                + "-"@ + version + ".jar"@
        },
{
    law_maven_path_of_three_parts(group, artifact, version);
    assert(path.deep_view() == maven_path(name@));
}

} // verus!
