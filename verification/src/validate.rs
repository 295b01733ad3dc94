//! Whether a profile can be launched, and what stands in the way.
use vstd::prelude::*;

use crate::error::{error_text, LauncherError};
use crate::external::{is_nickname, lowercase_text, to_lowercase};
use crate::identity::require_valid_nick;
use crate::java::JavaResolution;
use crate::loaders::chosen_loader_version;
use crate::natives::{collect_jars_recursive, has_native_binaries, has_natives, jars_in, Listing};
use crate::number::{decimal, decimal_text};
use crate::profile::{LoaderType, Profile, ProfileModel};
use crate::text::{
    ascii_lower_text, contains, contains_text, is_ascii_text, is_blank, is_white_space,
    law_blank_is_all_white_space, law_contains_is_being_a_part, trim_text,
};

verus! {

/// Something that is wrong with a profile.
#[derive(Debug)]
pub struct ValidationIssue {
    pub severity: String,
    pub code: String,
    pub message: String,
}

/// What a [`ValidationIssue`] holds.
pub struct IssueModel {
    pub severity: Seq<char>,
    pub code: Seq<char>,
    pub message: Seq<char>,
}

impl DeepView for ValidationIssue {
    type V = IssueModel;

    open spec fn deep_view(&self) -> IssueModel {
        IssueModel { severity: self.severity@, code: self.code@, message: self.message@ }
    }
}

/// What is wrong with a profile. It can be launched if nothing critical is.
#[derive(Debug)]
pub struct ValidationReport {
    pub can_launch: bool,
    pub critical: Vec<ValidationIssue>,
    pub warnings: Vec<ValidationIssue>,
}

/// What was found of the assets of a profile.
#[derive(Clone, Copy, Debug, PartialEq, Eq, Structural)]
pub enum AssetState {
    /// The metadata of the version cannot be read.
    NoMetadata,
    /// The index is not there.
    IndexMissing,
    /// The index is there but cannot be read.
    IndexUnreadable,
    /// The index lists nothing.
    NothingListed,
    /// The object that was looked for is there.
    ObjectPresent,
    /// The object that was looked for is not there.
    ObjectMissing,
}

/// What was found of the assets of a profile. Each of the arguments matters only where the ones
/// before it say that there was something to look at.
pub fn asset_state(
    has_metadata: bool,
    index_exists: bool,
    index_readable: bool,
    object_exists: Option<bool>,
) -> (state: AssetState)
    ensures
        state == (if !has_metadata {
            AssetState::NoMetadata
        } else if !index_exists {
            AssetState::IndexMissing
        } else if !index_readable {
            AssetState::IndexUnreadable
        } else {
            match object_exists {
                Some(true) => AssetState::ObjectPresent,
                Some(false) => AssetState::ObjectMissing,
                None => AssetState::NothingListed,
            }
        }),
{
    if !has_metadata {
        AssetState::NoMetadata
    } else if !index_exists {
        AssetState::IndexMissing
    } else if !index_readable {
        AssetState::IndexUnreadable
    } else {
        match object_exists {
            Some(true) => AssetState::ObjectPresent,
            Some(false) => AssetState::ObjectMissing,
            None => AssetState::NothingListed,
        }
    }
}

/// What was found on the machine for a profile.
#[derive(Debug)]
pub struct ProfileFacts {
    /// The runtime of the profile.
    pub java: JavaResolution,
    /// The program that is run in place of the runtime, and the version that it gives.
    pub console_path: String,
    pub found_major: Option<u8>,
    pub client_jar_exists: bool,
    pub libraries: Listing,
    pub natives: Listing,
    /// The native directory once it has been restored, if it was.
    pub restored_natives: Option<Listing>,
    pub assets: AssetState,
    /// The names in the directory of shader packs, if it can be read.
    pub shaderpacks: Option<Vec<String>>,
    /// The names in the directory of mods, if it can be read.
    pub mods: Option<Vec<String>>,
}

// ---------------------------------------------------------------------------
// Conditions
// ---------------------------------------------------------------------------

/// Whether a profile has a loader but no version of it.
pub open spec fn lacks_loader_version(profile: ProfileModel) -> bool {
    profile.loader != LoaderType::Vanilla && (match profile.loader_version {
        Some(version) => trim_text(version).len() == 0,
        None => true,
    })
}

fn misses_loader_version(profile: &Profile) -> (missing: bool)
    ensures
        missing == lacks_loader_version(profile.deep_view()),
{
    match profile.loader {
        LoaderType::Vanilla => false,
        _ => match &profile.loader_version {
            Some(version) => is_blank(version.as_str()),
            None => true,
        },
    }
}

/// Whether the runtime is known to be older than needed.
pub open spec fn is_java_too_old(facts: ProfileFacts) -> bool {
    &&& facts.java.resolved_path is Some
    &&& facts.found_major matches Some(found) && found < facts.java.required_major
}

/// What the player is told of a runtime that is too old.
pub open spec fn java_mismatch_text(profile: ProfileModel, facts: ProfileFacts) -> Seq<char> {
    "Java "@ + decimal_text(facts.java.required_major as nat) + " is required for Minecraft "@
        + profile.minecraft_version + ", but detected Java "@ + decimal_text(
        facts.found_major->Some_0 as nat,
    ) + " at "@ + facts.console_path@
}

/// What the player is told when there is no runtime.
pub open spec fn java_missing_text(required_major: u8) -> Seq<char> {
    "Java "@ + decimal_text(required_major as nat) + " not found (java.exe/javaw.exe)"@
}

/// Whether the native directory has to be restored before it is judged.
pub fn needs_native_restore(natives: &Listing) -> (needed: bool)
    ensures
        needed == !has_natives(*natives),
{
    !has_native_binaries(natives)
}

/// Whether there are native libraries, as they were found or once they have been restored.
pub open spec fn natives_are_there(facts: ProfileFacts) -> bool {
    has_natives(facts.natives) || (facts.restored_natives matches Some(restored) && has_natives(
        restored,
    ))
}

fn finds_natives(facts: &ProfileFacts) -> (found: bool)
    ensures
        found == natives_are_there(*facts),
{
    if has_native_binaries(&facts.natives) {
        return true;
    }
    match &facts.restored_natives {
        Some(restored) => has_native_binaries(restored),
        None => false,
    }
}

/// Whether a directory was read and has library files neither in it nor below it.
pub open spec fn has_no_jars(listing: Listing) -> bool {
    jars_in(listing) matches Some(jars) && jars.len() == 0
}

fn lacks_jars(listing: &Listing) -> (lacking: bool)
    ensures
        lacking == has_no_jars(*listing),
{
    match collect_jars_recursive(listing) {
        Some(jars) => {
            assert(jars.deep_view().len() == jars@.len());
            jars.len() == 0
        },
        None => false,
    }
}

/// Whether a file name in lower case is that of a shader runtime.
pub open spec fn names_shader_runtime(lowered: Seq<char>) -> bool {
    ||| contains_text(lowered, "iris"@)
    ||| contains_text(lowered, "oculus"@)
    ||| contains_text(lowered, "optifine"@)
}

/// Whether a file name in lower case is that of a shader runtime.
pub fn is_shader_runtime(lowered: &str) -> (runtime: bool)
    ensures
        runtime == names_shader_runtime(lowered@),
{
    contains(lowered, "iris") || contains(lowered, "oculus") || contains(lowered, "optifine")
}

/// Whether one of the files is a shader runtime, going by its name in any case.
pub open spec fn some_shader_runtime(names: Seq<Seq<char>>) -> bool {
    exists|i: int| 0 <= i < names.len() && names_shader_runtime(lowercase_text(#[trigger] names[i]))
}

/// Whether one of the files is a shader runtime, going by its name up to ASCII case.
pub open spec fn some_ascii_shader_runtime(names: Seq<Seq<char>>) -> bool {
    exists|i: int|
        0 <= i < names.len() && names_shader_runtime(ascii_lower_text(#[trigger] names[i]))
}

/// Whether one of the files is a shader runtime, going by its name in any case.
pub fn has_shader_runtime(names: &Vec<String>) -> (found: bool)
    ensures
        found == some_shader_runtime(names.deep_view()),
        (forall|i: int|
            0 <= i < names.deep_view().len() ==> is_ascii_text(#[trigger] names.deep_view()[i]))
            ==> found == some_ascii_shader_runtime(names.deep_view()),
{
    let ghost all = names.deep_view();
    let mut i: usize = 0;
    while i < names.len()
        invariant
            i <= names@.len(),
            all == names.deep_view(),
            forall|k: int|
                0 <= k < i ==> !names_shader_runtime(lowercase_text(#[trigger] all[k])),
            forall|k: int|
                0 <= k < i && is_ascii_text(all[k]) ==> lowercase_text(#[trigger] all[k])
                    == ascii_lower_text(all[k]),
        decreases names@.len() - i,
    {
        let lowered = to_lowercase(names[i].as_str());
        if is_shader_runtime(lowered.as_str()) {
            assert(names_shader_runtime(lowercase_text(all[i as int])));
            assert(is_ascii_text(all[i as int]) ==> names_shader_runtime(
                ascii_lower_text(all[i as int]),
            ));
            return true;
        }
        assert(!names_shader_runtime(lowercase_text(all[i as int])));
        i = i + 1;
    }
    false
}

/// Whether there are shader packs but nothing to run them.
pub open spec fn lacks_shader_runtime(facts: ProfileFacts) -> bool {
    &&& facts.shaderpacks.deep_view() matches Some(packs) && packs.len() > 0
    &&& !(facts.mods.deep_view() matches Some(mods) && some_shader_runtime(mods))
}

fn misses_shader_runtime(facts: &ProfileFacts) -> (missing: bool)
    ensures
        missing == lacks_shader_runtime(*facts),
{
    let has_packs = match &facts.shaderpacks {
        Some(packs) => packs.len() > 0,
        None => false,
    };
    if !has_packs {
        return false;
    }
    match &facts.mods {
        Some(mods) => !has_shader_runtime(mods),
        None => true,
    }
}

// ---------------------------------------------------------------------------
// The report
// ---------------------------------------------------------------------------

/// An issue that prevents a launch.
pub open spec fn critical_issue(code: Seq<char>, message: Seq<char>) -> IssueModel {
    IssueModel { severity: "critical"@, code, message }
}

/// An issue that does not prevent a launch.
pub open spec fn warning(code: Seq<char>, message: Seq<char>) -> IssueModel {
    IssueModel { severity: "warning"@, code, message }
}

/// The issue alone where the condition holds, else nothing.
pub open spec fn issue_if(condition: bool, issue: IssueModel) -> Seq<IssueModel> {
    if condition {
        seq![issue]
    } else {
        Seq::empty()
    }
}

/// What prevents a launch in the profile itself.
pub open spec fn setup_issues(profile: ProfileModel) -> Seq<IssueModel> {
    issue_if(
        lacks_loader_version(profile),
        critical_issue("MISSING_LOADER_VERSION"@, "Loader version is not selected."@),
    ) + issue_if(
        !is_nickname(profile.nickname),
        critical_issue("INVALID_NICK"@, error_text(LauncherError::InvalidNickname)),
    )
}

/// What prevents a launch in the runtime.
pub open spec fn java_issues(profile: ProfileModel, facts: ProfileFacts) -> Seq<IssueModel> {
    issue_if(
        facts.java.resolved_path is None,
        critical_issue("JAVA_NOT_FOUND"@, java_missing_text(facts.java.required_major)),
    ) + issue_if(
        is_java_too_old(facts),
        critical_issue("JAVA_VERSION_MISMATCH"@, java_mismatch_text(profile, facts)),
    )
}

/// What prevents a launch in the installed files.
pub open spec fn install_issues(facts: ProfileFacts) -> Seq<IssueModel> {
    issue_if(
        !facts.client_jar_exists,
        critical_issue(
            "MISSING_CLIENT_JAR"@,
            "Minecraft client is not installed. Run profile install first."@,
        ),
    ) + issue_if(
        has_no_jars(facts.libraries),
        critical_issue(
            "MISSING_LIBRARIES"@,
            "Minecraft libraries are missing. Run install before launch."@,
        ),
    ) + issue_if(
        !natives_are_there(facts),
        critical_issue(
            "MISSING_NATIVES"@,
            "Minecraft native libraries are missing. Run install before launch."@,
        ),
    )
}

/// What prevents a launch in the assets.
pub open spec fn asset_issues(facts: ProfileFacts) -> Seq<IssueModel> {
    match facts.assets {
        AssetState::IndexMissing => seq![
            critical_issue(
                "MISSING_ASSET_INDEX"@,
                "Asset index is missing. Run install before launch."@,
            ),
        ],
        AssetState::ObjectMissing => seq![
            critical_issue(
                "MISSING_ASSETS"@,
                "Assets are incomplete. Run install before launch."@,
            ),
        ],
        _ => Seq::empty(),
    }
}

/// What prevents a launch, in the order of the report.
pub open spec fn critical_issues(profile: ProfileModel, facts: ProfileFacts) -> Seq<IssueModel> {
    setup_issues(profile) + java_issues(profile, facts) + install_issues(facts) + asset_issues(
        facts,
    )
}

/// What the player is warned of, in the order of the report.
pub open spec fn warning_issues(profile: ProfileModel, facts: ProfileFacts) -> Seq<IssueModel> {
    issue_if(
        facts.java.resolved_path is Some && facts.found_major is None,
        warning(
            "JAVA_VERSION_UNKNOWN"@,
            "Unable to detect Java version from selected executable."@,
        ),
    ) + issue_if(
        profile.loader != LoaderType::Vanilla,
        warning(
            "LOADER_BETA"@,
            "Fabric is fully wired into the launcher. Forge uses a lightweight installer flow and may still fail on some modern packs."@,
        ),
    ) + issue_if(
        lacks_shader_runtime(facts),
        warning(
            "MISSING_SHADER_RUNTIME"@,
            "Shaders are present, but Iris/Oculus/OptiFine was not found."@,
        ),
    )
}

fn report(
    issues: &mut Vec<ValidationIssue>,
    condition: bool,
    severity: &str,
    code: &str,
    message: &str,
)
    ensures
        final(issues).deep_view() == old(issues).deep_view() + issue_if(
            condition,
            (IssueModel { severity: severity@, code: code@, message: message@ }),
        ),
{
    let ghost before = issues.deep_view();
    let ghost issue = IssueModel { severity: severity@, code: code@, message: message@ };
    if condition {
        issues.push(
            ValidationIssue {
                severity: severity.to_owned(),
                code: code.to_owned(),
                message: message.to_owned(),
            },
        );
        assert(issues.deep_view() =~= before + seq![issue]);
    } else {
        assert(before + Seq::<IssueModel>::empty() =~= before);
    }
}

fn check_setup(profile: &Profile) -> (issues: Vec<ValidationIssue>)
    ensures
        issues.deep_view() == setup_issues(profile.deep_view()),
{
    let mut issues: Vec<ValidationIssue> = Vec::new();
    assert(issues.deep_view() =~= Seq::empty());
    report(
        &mut issues,
        misses_loader_version(profile),
        "critical",
        "MISSING_LOADER_VERSION",
        "Loader version is not selected.",
    );
    let bad_nick = require_valid_nick(profile.nickname.as_str()).is_err();
    let message = LauncherError::InvalidNickname.message();
    report(&mut issues, bad_nick, "critical", "INVALID_NICK", message.as_str());
    assert(issues.deep_view() =~= setup_issues(profile.deep_view()));
    issues
}

fn check_java(profile: &Profile, facts: &ProfileFacts) -> (issues: Vec<ValidationIssue>)
    ensures
        issues.deep_view() == java_issues(profile.deep_view(), *facts),
{
    let mut issues: Vec<ValidationIssue> = Vec::new();
    assert(issues.deep_view() =~= Seq::empty());
    let required_digits = decimal(facts.java.required_major as u64);
    let no_java = facts.java.resolved_path.is_none();
    let mut missing = "Java ".to_owned();
    missing.append(required_digits.as_str());
    missing.append(" not found (java.exe/javaw.exe)");
    report(&mut issues, no_java, "critical", "JAVA_NOT_FOUND", missing.as_str());
    if let Some(found) = facts.found_major {
        let found_digits = decimal(found as u64);
        let mut message = "Java ".to_owned();
        message.append(required_digits.as_str());
        message.append(" is required for Minecraft ");
        message.append(profile.minecraft_version.as_str());
        message.append(", but detected Java ");
        message.append(found_digits.as_str());
        message.append(" at ");
        message.append(facts.console_path.as_str());
        let too_old = !no_java && found < facts.java.required_major;
        report(&mut issues, too_old, "critical", "JAVA_VERSION_MISMATCH", message.as_str());
    }
    assert(issues.deep_view() =~= java_issues(profile.deep_view(), *facts));
    issues
}

fn check_install(facts: &ProfileFacts) -> (issues: Vec<ValidationIssue>)
    ensures
        issues.deep_view() == install_issues(*facts),
{
    let mut issues: Vec<ValidationIssue> = Vec::new();
    assert(issues.deep_view() =~= Seq::empty());
    report(
        &mut issues,
        !facts.client_jar_exists,
        "critical",
        "MISSING_CLIENT_JAR",
        "Minecraft client is not installed. Run profile install first.",
    );
    report(
        &mut issues,
        lacks_jars(&facts.libraries),
        "critical",
        "MISSING_LIBRARIES",
        "Minecraft libraries are missing. Run install before launch.",
    );
    report(
        &mut issues,
        !finds_natives(facts),
        "critical",
        "MISSING_NATIVES",
        "Minecraft native libraries are missing. Run install before launch.",
    );
    assert(issues.deep_view() =~= install_issues(*facts));
    issues
}

fn check_assets(facts: &ProfileFacts) -> (issues: Vec<ValidationIssue>)
    ensures
        issues.deep_view() == asset_issues(*facts),
{
    let mut issues: Vec<ValidationIssue> = Vec::new();
    assert(issues.deep_view() =~= Seq::empty());
    report(
        &mut issues,
        facts.assets == AssetState::IndexMissing,
        "critical",
        "MISSING_ASSET_INDEX",
        "Asset index is missing. Run install before launch.",
    );
    report(
        &mut issues,
        facts.assets == AssetState::ObjectMissing,
        "critical",
        "MISSING_ASSETS",
        "Assets are incomplete. Run install before launch.",
    );
    assert(issues.deep_view() =~= asset_issues(*facts));
    issues
}

fn check_warnings(profile: &Profile, facts: &ProfileFacts) -> (issues: Vec<ValidationIssue>)
    ensures
        issues.deep_view() == warning_issues(profile.deep_view(), *facts),
{
    let mut issues: Vec<ValidationIssue> = Vec::new();
    assert(issues.deep_view() =~= Seq::empty());
    report(
        &mut issues,
        facts.java.resolved_path.is_some() && facts.found_major.is_none(),
        "warning",
        "JAVA_VERSION_UNKNOWN",
        "Unable to detect Java version from selected executable.",
    );
    report(
        &mut issues,
        profile.loader != LoaderType::Vanilla,
        "warning",
        "LOADER_BETA",
        "Fabric is fully wired into the launcher. Forge uses a lightweight installer flow and may still fail on some modern packs.",
    );
    report(
        &mut issues,
        misses_shader_runtime(facts),
        "warning",
        "MISSING_SHADER_RUNTIME",
        "Shaders are present, but Iris/Oculus/OptiFine was not found.",
    );
    assert(issues.deep_view() =~= warning_issues(profile.deep_view(), *facts));
    issues
}

/// What is wrong with a profile, from what was found on the machine.
pub fn profile_validate(profile: &Profile, facts: &ProfileFacts) -> (outcome: ValidationReport)
    ensures
        outcome.critical.deep_view() == critical_issues(profile.deep_view(), *facts),
        outcome.warnings.deep_view() == warning_issues(profile.deep_view(), *facts),
        outcome.can_launch <==> critical_issues(profile.deep_view(), *facts).len() == 0,
{
    let mut critical = check_setup(profile);
    let ghost s1 = critical.deep_view();
    let mut java = check_java(profile, facts);
    let ghost s2 = java.deep_view();
    critical.append(&mut java);
    assert(critical.deep_view() =~= s1 + s2);
    let mut install = check_install(facts);
    let ghost s3 = install.deep_view();
    critical.append(&mut install);
    assert(critical.deep_view() =~= s1 + s2 + s3);
    let mut assets = check_assets(facts);
    let ghost s4 = assets.deep_view();
    critical.append(&mut assets);
    assert(critical.deep_view() =~= s1 + s2 + s3 + s4);
    let warnings = check_warnings(profile, facts);
    assert(critical.deep_view().len() == critical@.len());
    ValidationReport { can_launch: critical.len() == 0, critical, warnings }
}

// ---------------------------------------------------------------------------
// Laws
// ---------------------------------------------------------------------------

/// A profile can be launched exactly if it has a nickname, the version of its loader, a runtime
/// that is not known to be too old, the client, its libraries, its native libraries and its assets.
pub proof fn law_what_a_launch_needs(profile: ProfileModel, facts: ProfileFacts)
    ensures
        critical_issues(profile, facts).len() == 0 <==> {
            &&& !lacks_loader_version(profile)
            &&& is_nickname(profile.nickname)
            &&& facts.java.resolved_path is Some
            &&& !is_java_too_old(facts)
            &&& facts.client_jar_exists
            &&& !has_no_jars(facts.libraries)
            &&& natives_are_there(facts)
            &&& facts.assets != AssetState::IndexMissing
            &&& facts.assets != AssetState::ObjectMissing
        },
{
}

/// Whether every issue has this severity.
pub open spec fn all_marked(issues: Seq<IssueModel>, severity: Seq<char>) -> bool {
    forall|i: int| 0 <= i < issues.len() ==> (#[trigger] issues[i]).severity == severity
}

/// Every critical issue is marked critical, and every warning is marked a warning.
pub proof fn law_issues_are_marked(profile: ProfileModel, facts: ProfileFacts)
    ensures
        all_marked(critical_issues(profile, facts), "critical"@),
        all_marked(warning_issues(profile, facts), "warning"@),
{
    let setup = setup_issues(profile);
    let java = java_issues(profile, facts);
    let install = install_issues(facts);
    let assets = asset_issues(facts);
    assert(all_marked(setup, "critical"@));
    assert(all_marked(java, "critical"@));
    assert(all_marked(install, "critical"@));
    assert(all_marked(assets, "critical"@));
    let all = critical_issues(profile, facts);
    assert forall|i: int| 0 <= i < all.len() implies (#[trigger] all[i]).severity
        == "critical"@ by {
        let a = setup.len() as int;
        let b = a + java.len();
        let c = b + install.len();
        if i < a {
            assert(all[i] == setup[i]);
        } else if i < b {
            assert(all[i] == java[i - a]);
        } else if i < c {
            assert(all[i] == install[i - b]);
        } else {
            assert(all[i] == assets[i - c]);
        }
    }
}

/// Warnings do not prevent a launch: shader packs and mods have no say in it.
pub proof fn law_content_does_not_prevent_a_launch(
    profile: ProfileModel,
    facts: ProfileFacts,
    shaderpacks: Option<Vec<String>>,
    mods: Option<Vec<String>>,
)
    ensures
        critical_issues(profile, (ProfileFacts { shaderpacks, mods, ..facts }))
            == critical_issues(profile, facts),
{
}

/// A profile without critical issues has a loader version wherever it has a loader, so that an
/// installation finds the metadata of the loader.
pub proof fn law_valid_profile_has_a_loader_version(profile: ProfileModel, facts: ProfileFacts)
    requires
        critical_issues(profile, facts).len() == 0,
    ensures
        profile.loader != LoaderType::Vanilla ==> chosen_loader_version(profile) is Some,
{
    law_what_a_launch_needs(profile, facts);
}

/// A profile without critical issues passes the checks that a launch makes of its runtime.
pub proof fn law_valid_profile_passes_the_launch_checks(
    profile: ProfileModel,
    facts: ProfileFacts,
)
    requires
        critical_issues(profile, facts).len() == 0,
    ensures
        facts.java.resolved_path is Some,
        !(facts.found_major matches Some(major) && major < facts.java.required_major),
{
    law_what_a_launch_needs(profile, facts);
}

/// The issue where a condition holds, else nothing.
pub open spec fn when(condition: bool, severity: Seq<char>, code: Seq<char>, message: Seq<char>) -> Seq<
    IssueModel,
> {
    if condition {
        seq![IssueModel { severity, code, message }]
    } else {
        Seq::empty()
    }
}

/// What can be critical in the profile itself, and what is said of it.
pub proof fn law_issues_of_the_profile(profile: ProfileModel)
    ensures
        setup_issues(profile) == when(
            lacks_loader_version(profile),
            "critical"@,
            "MISSING_LOADER_VERSION"@,
            "Loader version is not selected."@,
        ) + when(
            !is_nickname(profile.nickname),
            "critical"@,
            "INVALID_NICK"@,
            "Nickname must match [A-Za-z0-9_]{3,16}"@,
        ),
{
    assert(setup_issues(profile) =~= when(
            lacks_loader_version(profile),
            "critical"@,
            "MISSING_LOADER_VERSION"@,
            "Loader version is not selected."@,
        ) + when(
            !is_nickname(profile.nickname),
            "critical"@,
            "INVALID_NICK"@,
            "Nickname must match [A-Za-z0-9_]{3,16}"@,
        ));
}

/// What can be critical in the runtime, and what is said of it.
pub proof fn law_issues_of_the_runtime(profile: ProfileModel, facts: ProfileFacts)
    ensures
        java_issues(profile, facts) == when(
            facts.java.resolved_path is None,
            "critical"@,
            "JAVA_NOT_FOUND"@,
            "Java "@ + decimal_text(facts.java.required_major as nat)
                + " not found (java.exe/javaw.exe)"@,
        ) + when(
            is_java_too_old(facts),
            "critical"@,
            "JAVA_VERSION_MISMATCH"@,
            "Java "@ + decimal_text(facts.java.required_major as nat)
                + " is required for Minecraft "@ + profile.minecraft_version
                + ", but detected Java "@ + decimal_text(facts.found_major->Some_0 as nat) + " at "@
                + facts.console_path@,
        ),
{
    assert(java_issues(profile, facts) =~= when(
            facts.java.resolved_path is None,
            "critical"@,
            "JAVA_NOT_FOUND"@,
            "Java "@ + decimal_text(facts.java.required_major as nat)
                + " not found (java.exe/javaw.exe)"@,
        ) + when(
            is_java_too_old(facts),
            "critical"@,
            "JAVA_VERSION_MISMATCH"@,
            "Java "@ + decimal_text(facts.java.required_major as nat)
                + " is required for Minecraft "@ + profile.minecraft_version
                + ", but detected Java "@ + decimal_text(facts.found_major->Some_0 as nat) + " at "@
                + facts.console_path@,
        ));
}

/// What can be critical in the installed files, and what is said of it.
pub proof fn law_issues_of_the_installed_files(facts: ProfileFacts)
    ensures
        install_issues(facts) == when(
            !facts.client_jar_exists,
            "critical"@,
            "MISSING_CLIENT_JAR"@,
            "Minecraft client is not installed. Run profile install first."@,
        ) + when(
            has_no_jars(facts.libraries),
            "critical"@,
            "MISSING_LIBRARIES"@,
            "Minecraft libraries are missing. Run install before launch."@,
        ) + when(
            !natives_are_there(facts),
            "critical"@,
            "MISSING_NATIVES"@,
            "Minecraft native libraries are missing. Run install before launch."@,
        ),
{
    assert(install_issues(facts) =~= when(
            !facts.client_jar_exists,
            "critical"@,
            "MISSING_CLIENT_JAR"@,
            "Minecraft client is not installed. Run profile install first."@,
        ) + when(
            has_no_jars(facts.libraries),
            "critical"@,
            "MISSING_LIBRARIES"@,
            "Minecraft libraries are missing. Run install before launch."@,
        ) + when(
            !natives_are_there(facts),
            "critical"@,
            "MISSING_NATIVES"@,
            "Minecraft native libraries are missing. Run install before launch."@,
        ));
}

/// What can be critical in the assets, and what is said of it.
pub proof fn law_issues_of_the_assets(facts: ProfileFacts)
    ensures
        asset_issues(facts) == when(
            facts.assets == AssetState::IndexMissing,
            "critical"@,
            "MISSING_ASSET_INDEX"@,
            "Asset index is missing. Run install before launch."@,
        ) + when(
            facts.assets == AssetState::ObjectMissing,
            "critical"@,
            "MISSING_ASSETS"@,
            "Assets are incomplete. Run install before launch."@,
        ),
{
    assert(asset_issues(facts) =~= when(
            facts.assets == AssetState::IndexMissing,
            "critical"@,
            "MISSING_ASSET_INDEX"@,
            "Asset index is missing. Run install before launch."@,
        ) + when(
            facts.assets == AssetState::ObjectMissing,
            "critical"@,
            "MISSING_ASSETS"@,
            "Assets are incomplete. Run install before launch."@,
        ));
}

/// The critical issues of a report: those of the profile, then those of the runtime, of the installed
/// files and of the assets, all of them and no others.
pub proof fn law_critical_issues_in_order(profile: ProfileModel, facts: ProfileFacts)
    ensures
        ({
            let all = critical_issues(profile, facts);
            let a = setup_issues(profile).len() as int;
            let b = a + java_issues(profile, facts).len();
            let c = b + install_issues(facts).len();
            &&& all.len() == c + asset_issues(facts).len()
            &&& all.take(a) == setup_issues(profile)
            &&& all.subrange(a, b) == java_issues(profile, facts)
            &&& all.subrange(b, c) == install_issues(facts)
            &&& all.skip(c) == asset_issues(facts)
        }),
{
    lemma_parts_of_a_report(
        setup_issues(profile),
        java_issues(profile, facts),
        install_issues(facts),
        asset_issues(facts),
    );
}

proof fn lemma_parts_of_a_report(
    setup: Seq<IssueModel>,
    java: Seq<IssueModel>,
    install: Seq<IssueModel>,
    assets: Seq<IssueModel>,
)
    ensures
        ({
            let all = setup + java + install + assets;
            let a = setup.len() as int;
            let b = a + java.len();
            let c = b + install.len();
            &&& all.len() == c + assets.len()
            &&& all.take(a) == setup
            &&& all.subrange(a, b) == java
            &&& all.subrange(b, c) == install
            &&& all.skip(c) == assets
        }),
{
    let all = setup + java + install + assets;
    let a = setup.len() as int;
    let b = a + java.len();
    let c = b + install.len();
    assert(all.take(a) =~= setup);
    assert(all.subrange(a, b) =~= java);
    assert(all.subrange(b, c) =~= install);
    assert(all.skip(c) =~= assets);
}

/// The warnings of a report: which come up when, what they say, and in what order.
pub proof fn law_warnings_in_order(profile: ProfileModel, facts: ProfileFacts)
    ensures
        warning_issues(profile, facts) == when(
            facts.java.resolved_path is Some && facts.found_major is None,
            "warning"@,
            "JAVA_VERSION_UNKNOWN"@,
            "Unable to detect Java version from selected executable."@,
        ) + when(
            profile.loader != LoaderType::Vanilla,
            "warning"@,
            "LOADER_BETA"@,
            "Fabric is fully wired into the launcher. Forge uses a lightweight installer flow and may still fail on some modern packs."@,
        ) + when(
            lacks_shader_runtime(facts),
            "warning"@,
            "MISSING_SHADER_RUNTIME"@,
            "Shaders are present, but Iris/Oculus/OptiFine was not found."@,
        ),
{
}

/// When each of the conditions of a report holds.
pub proof fn law_conditions_of_a_report(
    profile: ProfileModel,
    facts: ProfileFacts,
    version: Seq<char>,
    found: u8,
)
    ensures
        profile.loader == LoaderType::Vanilla ==> !lacks_loader_version(profile),
        profile.loader != LoaderType::Vanilla && profile.loader_version is None
            ==> lacks_loader_version(profile),
        profile.loader != LoaderType::Vanilla && profile.loader_version == Some(version) ==> (
        lacks_loader_version(profile) <==> forall|k: int|
            0 <= k < version.len() ==> is_white_space(#[trigger] version[k])),
        facts.java.resolved_path is None ==> !is_java_too_old(facts),
        facts.found_major is None ==> !is_java_too_old(facts),
        facts.java.resolved_path is Some && facts.found_major == Some(found) ==> (is_java_too_old(
            facts,
        ) <==> found < facts.java.required_major),
        has_natives(facts.natives) ==> natives_are_there(facts),
        facts.restored_natives matches Some(restored) ==> (has_natives(restored)
            ==> natives_are_there(facts)),
        !has_natives(facts.natives) && facts.restored_natives is None ==> !natives_are_there(facts),
        !has_natives(facts.natives) && (facts.restored_natives matches Some(restored)
            && !has_natives(restored)) ==> !natives_are_there(facts),
        jars_in(facts.libraries) is None ==> !has_no_jars(facts.libraries),
        jars_in(facts.libraries) matches Some(jars) ==> (has_no_jars(facts.libraries) <==> jars.len()
            == 0),
{
    law_blank_is_all_white_space(version);
}

/// Shader packs lack a runtime where there are any, and no mod is called after one of the three
/// runtimes, in whatever case.
pub proof fn law_when_a_shader_runtime_is_missing(
    facts: ProfileFacts,
    packs: Seq<Seq<char>>,
    mods: Seq<Seq<char>>,
)
    ensures
        facts.shaderpacks is None ==> !lacks_shader_runtime(facts),
        facts.shaderpacks.deep_view() == Some(packs) && packs.len() == 0 ==> !lacks_shader_runtime(
            facts,
        ),
        facts.shaderpacks.deep_view() == Some(packs) && packs.len() > 0 && facts.mods is None
            ==> lacks_shader_runtime(facts),
        facts.shaderpacks.deep_view() == Some(packs) && packs.len() > 0 && facts.mods.deep_view()
            == Some(mods) ==> (lacks_shader_runtime(facts) <==> forall|i: int|
            0 <= i < mods.len() ==> {
                let lowered = lowercase_text(#[trigger] mods[i]);
                &&& !contains_text(lowered, "iris"@)
                &&& !contains_text(lowered, "oculus"@)
                &&& !contains_text(lowered, "optifine"@)
            }),
{
    if facts.mods.deep_view() == Some(mods) {
        if some_shader_runtime(mods) {
            let i = choose|i: int|
                0 <= i < mods.len() && names_shader_runtime(lowercase_text(#[trigger] mods[i]));
            assert(names_shader_runtime(lowercase_text(mods[i])));
        } else {
            assert forall|i: int| 0 <= i < mods.len() implies !names_shader_runtime(
                lowercase_text(#[trigger] mods[i]),
            ) by {}
        }
    }
}

/// A name is that of a shader runtime where one of three words stands in it.
pub proof fn law_names_of_shader_runtimes(front: Seq<char>, back: Seq<char>, lowered: Seq<char>)
    ensures
        names_shader_runtime(front + "iris"@ + back),
        names_shader_runtime(front + "oculus"@ + back),
        names_shader_runtime(front + "optifine"@ + back),
        !contains_text(lowered, "iris"@) && !contains_text(lowered, "oculus"@) && !contains_text(
            lowered,
            "optifine"@,
        ) ==> !names_shader_runtime(lowered),
{
    law_contains_is_being_a_part(lowered, "iris"@, front, back);
    law_contains_is_being_a_part(lowered, "oculus"@, front, back);
    law_contains_is_being_a_part(lowered, "optifine"@, front, back);
}

/// What is found of the assets: the first thing that is missing decides, and an object only counts
/// where everything before it is there.
pub proof fn law_state_of_the_assets(
    has_metadata: bool,
    index_exists: bool,
    index_readable: bool,
    object_exists: Option<bool>,
    state: AssetState,
)
    requires
        call_ensures(
            asset_state,
            (has_metadata, index_exists, index_readable, object_exists),
            state,
        ),
    ensures
        state == AssetState::NoMetadata <==> !has_metadata,
        state == AssetState::IndexMissing <==> has_metadata && !index_exists,
        state == AssetState::IndexUnreadable <==> has_metadata && index_exists && !index_readable,
        has_metadata && index_exists && index_readable ==> {
            &&& state == AssetState::ObjectPresent <==> object_exists == Some(true)
            &&& state == AssetState::ObjectMissing <==> object_exists == Some(false)
            &&& state == AssetState::NothingListed <==> object_exists is None
        },
{
}

/// A report allows a launch exactly if it lists nothing critical.
pub proof fn law_report_allows_a_launch(
    profile: &Profile,
    facts: &ProfileFacts,
    outcome: ValidationReport,
)
    requires
        call_ensures(profile_validate, (profile, facts), outcome),
    ensures
        outcome.can_launch <==> outcome.critical@.len() == 0,
        outcome.can_launch ==> is_nickname(profile.nickname@) && facts.java.resolved_path is Some
            && facts.client_jar_exists,
{
    law_what_a_launch_needs(profile.deep_view(), *facts);
    assert(outcome.critical.deep_view().len() == outcome.critical@.len());
}

} // verus!
