//! Installing the game version of a profile.
use vstd::prelude::*;

use crate::error::LauncherError;
use crate::external::{sha1_digest, sha1_hex};
use crate::json::{well_formed, Json};
use crate::launch::{wanted_library_paths, LaunchVersionMeta};
use crate::library::{
    allowed_by, law_library_is_found_where_it_goes, library_allowed, library_path,
    library_url_path, native_artifact, resolve_library_artifact_url_path, resolve_native_artifact,
    HostOs, LibraryModel,
};
use crate::loaders::{loader_label, loader_name};
use crate::merge::{law_only_objects_are_merged, merge_outcome, merge_version_values};
use crate::number::{decimal, decimal_text};
use crate::profile::LoaderType;
use crate::text::{concat4, copy_texts, same_text};

verus! {

// ---------------------------------------------------------------------------
// Stages
// ---------------------------------------------------------------------------

/// How many stages an installation has.
pub const INSTALL_STEPS: u32 = 8;

/// A stage of an installation.
#[derive(Clone, Copy, Debug, PartialEq, Eq, Structural)]
pub enum InstallStage {
    LoadMetadata,
    Prepare,
    Client,
    SaveMetadata,
    Libraries,
    Assets,
    Verify,
    Completed,
}

/// The number of a stage.
pub open spec fn stage_number(stage: InstallStage) -> u32 {
    match stage {
        InstallStage::LoadMetadata => 1,
        InstallStage::Prepare => 2,
        InstallStage::Client => 3,
        InstallStage::SaveMetadata => 4,
        InstallStage::Libraries => 5,
        InstallStage::Assets => 6,
        InstallStage::Verify => 7,
        InstallStage::Completed => 8,
    }
}

/// The number of a stage.
pub fn stage_step(stage: InstallStage) -> (step: u32)
    ensures
        step == stage_number(stage),
{
    match stage {
        InstallStage::LoadMetadata => 1,
        InstallStage::Prepare => 2,
        InstallStage::Client => 3,
        InstallStage::SaveMetadata => 4,
        InstallStage::Libraries => 5,
        InstallStage::Assets => 6,
        InstallStage::Verify => 7,
        InstallStage::Completed => 8,
    }
}

/// The stage after `stage`. Assets are passed over when the version lists none.
pub open spec fn stage_after(stage: InstallStage, has_assets: bool) -> Option<InstallStage> {
    match stage {
        InstallStage::LoadMetadata => Some(InstallStage::Prepare),
        InstallStage::Prepare => Some(InstallStage::Client),
        InstallStage::Client => Some(InstallStage::SaveMetadata),
        InstallStage::SaveMetadata => Some(InstallStage::Libraries),
        InstallStage::Libraries => if has_assets {
            Some(InstallStage::Assets)
        } else {
            Some(InstallStage::Verify)
        },
        InstallStage::Assets => Some(InstallStage::Verify),
        InstallStage::Verify => Some(InstallStage::Completed),
        InstallStage::Completed => None,
    }
}

/// The stage after `stage`.
pub fn next_stage(stage: InstallStage, has_assets: bool) -> (next: Option<InstallStage>)
    ensures
        next == stage_after(stage, has_assets),
{
    match stage {
        InstallStage::LoadMetadata => Some(InstallStage::Prepare),
        InstallStage::Prepare => Some(InstallStage::Client),
        InstallStage::Client => Some(InstallStage::SaveMetadata),
        InstallStage::SaveMetadata => Some(InstallStage::Libraries),
        InstallStage::Libraries => if has_assets {
            Some(InstallStage::Assets)
        } else {
            Some(InstallStage::Verify)
        },
        InstallStage::Assets => Some(InstallStage::Verify),
        InstallStage::Verify => Some(InstallStage::Completed),
        InstallStage::Completed => None,
    }
}

/// What the player is told at a stage. The version is known once the metadata is loaded.
pub open spec fn stage_text(
    stage: InstallStage,
    loader: LoaderType,
    version: Seq<char>,
) -> Seq<char> {
    match stage {
        InstallStage::LoadMetadata => "Loading Minecraft metadata..."@,
        InstallStage::Prepare => "Preparing "@ + loader_label(loader) + " "@ + version + "..."@,
        InstallStage::Client => "Downloading client.jar..."@,
        InstallStage::SaveMetadata => "Saving version metadata..."@,
        InstallStage::Libraries => "Downloading libraries and natives..."@,
        InstallStage::Assets => "Downloading assets..."@,
        InstallStage::Verify => "Verifying downloaded files..."@,
        InstallStage::Completed => "Install completed."@,
    }
}

/// What the player is told at a stage.
pub fn stage_message(stage: InstallStage, loader: LoaderType, version: &str) -> (message: String)
    ensures
        message@ == stage_text(stage, loader, version@),
{
    match stage {
        InstallStage::LoadMetadata => "Loading Minecraft metadata...".to_owned(),
        InstallStage::Prepare => {
            let mut message = concat4("Preparing ", loader_name(loader), " ", version);
            message.append("...");
            message
        },
        InstallStage::Client => "Downloading client.jar...".to_owned(),
        InstallStage::SaveMetadata => "Saving version metadata...".to_owned(),
        InstallStage::Libraries => "Downloading libraries and natives...".to_owned(),
        InstallStage::Assets => "Downloading assets...".to_owned(),
        InstallStage::Verify => "Verifying downloaded files...".to_owned(),
        InstallStage::Completed => "Install completed.".to_owned(),
    }
}

// ---------------------------------------------------------------------------
// Progress
// ---------------------------------------------------------------------------

/// The larger of a total and 1.
pub open spec fn progress_total(total: u32) -> u32 {
    if total < 1 {
        1
    } else {
        total
    }
}

/// A step that does not go beyond the total, and the total, which is at least 1.
pub fn emit_install_progress(step: u32, total: u32) -> (shown: (u32, u32))
    ensures
        shown.1 == progress_total(total),
        shown.0 == (if step < progress_total(total) {
            step
        } else {
            progress_total(total)
        }),
{
    let total: u32 = if total < 1 {
        1
    } else {
        total
    };
    let step: u32 = if step < total {
        step
    } else {
        total
    };
    (step, total)
}

/// A step from 1 to the total, the steps before it, and the total, which is at least 1.
pub fn emit_install_progress_precise(step: u32, total: u32) -> (shown: (u32, u32, u32))
    ensures
        shown.2 == progress_total(total),
        shown.0 == (if step < 1 {
            1
        } else if step > progress_total(total) {
            progress_total(total)
        } else {
            step
        }),
        shown.1 + 1 == shown.0,
{
    let total: u32 = if total < 1 {
        1
    } else {
        total
    };
    let step: u32 = if step < 1 {
        1
    } else if step > total {
        total
    } else {
        step
    };
    (step, step - 1, total)
}

// ---------------------------------------------------------------------------
// Metadata
// ---------------------------------------------------------------------------

/// The metadata to install: that of the game, with that of the loader over it, if there is any.
pub fn installed_metadata(base: Json, loader: Option<Json>) -> (metadata: Result<
    Json,
    LauncherError,
>)
    requires
        well_formed(base.deep_view()),
        loader matches Some(json) ==> well_formed(json.deep_view()),
    ensures
        match loader {
            Some(json) => merge_outcome(base.deep_view(), json.deep_view(), metadata),
            None => metadata == Ok::<Json, LauncherError>(base),
        },
{
    match loader {
        Some(json) => merge_version_values(base, json),
        None => Ok(base),
    }
}

// ---------------------------------------------------------------------------
// Libraries
// ---------------------------------------------------------------------------

/// A library file to have: where it comes from, its path in the library directory, and whether it
/// holds native libraries.
#[derive(Debug)]
pub struct LibraryFile {
    pub url: String,
    pub path: String,
    pub native: bool,
}

/// What a [`LibraryFile`] holds.
pub struct LibraryFileModel {
    pub url: Seq<char>,
    pub path: Seq<char>,
    pub native: bool,
}

impl DeepView for LibraryFile {
    type V = LibraryFileModel;

    open spec fn deep_view(&self) -> LibraryFileModel {
        LibraryFileModel { url: self.url@, path: self.path@, native: self.native }
    }
}

/// The files of one library: its artifact, then its native part.
pub open spec fn files_of(library: LibraryModel, host: HostOs) -> Seq<LibraryFileModel> {
    if allowed_by(library.rules, host) {
        (match library_url_path(library) {
            Some((url, path)) => seq![LibraryFileModel { url, path, native: false }],
            None => Seq::empty(),
        }) + (match native_artifact(library, host) {
            Some(artifact) => seq![
                LibraryFileModel { url: artifact.url, path: artifact.path, native: true },
            ],
            None => Seq::empty(),
        })
    } else {
        Seq::empty()
    }
}

/// The files of the libraries that are wanted on this machine, in order.
pub open spec fn wanted_files(libraries: Seq<LibraryModel>, host: HostOs) -> Seq<LibraryFileModel>
    decreases libraries.len(),
{
    if libraries.len() == 0 {
        Seq::empty()
    } else {
        wanted_files(libraries.drop_last(), host) + files_of(libraries.last(), host)
    }
}

/// The files of the libraries that are wanted on this machine, in order.
pub fn library_files(meta: &LaunchVersionMeta, host: HostOs) -> (files: Vec<LibraryFile>)
    ensures
        files.deep_view() == wanted_files(meta.deep_view().libraries, host),
{
    let mut files: Vec<LibraryFile> = Vec::new();
    let mut i: usize = 0;
    let ghost all = meta.libraries.deep_view();
    assert(all.take(0) =~= Seq::empty());
    assert(files.deep_view() =~= Seq::empty());
    while i < meta.libraries.len()
        invariant
            i <= meta.libraries@.len(),
            all == meta.libraries.deep_view(),
            files.deep_view() == wanted_files(all.take(i as int), host),
        decreases meta.libraries@.len() - i,
    {
        let library = &meta.libraries[i];
        let ghost before = files.deep_view();
        let ghost model = all[i as int];
        assert(model == library.deep_view());
        assert(all.take(i + 1).drop_last() =~= all.take(i as int));
        if library_allowed(library, host) {
            if let Some((url, path)) = resolve_library_artifact_url_path(library) {
                files.push(LibraryFile { url, path, native: false });
            }
            let ghost half = files.deep_view();
            assert(half =~= before + (match library_url_path(model) {
                Some((url, path)) => seq![LibraryFileModel { url, path, native: false }],
                None => Seq::empty(),
            }));
            if let Some(artifact) = resolve_native_artifact(library, host) {
                files.push(LibraryFile { url: artifact.url, path: artifact.path, native: true });
            }
            assert(files.deep_view() =~= half + (match native_artifact(model, host) {
                Some(artifact) => seq![
                    LibraryFileModel { url: artifact.url, path: artifact.path, native: true },
                ],
                None => Seq::empty(),
            }));
        }
        assert(files.deep_view() =~= before + files_of(model, host));
        i = i + 1;
    }
    assert(all.take(i as int) =~= all);
    files
}

/// A library file that was looked for.
#[derive(Debug)]
pub struct ProbedFile {
    pub file: LibraryFile,
    pub exists: bool,
}

/// What a [`ProbedFile`] holds.
pub struct ProbedFileModel {
    pub file: LibraryFileModel,
    pub exists: bool,
}

impl DeepView for ProbedFile {
    type V = ProbedFileModel;

    open spec fn deep_view(&self) -> ProbedFileModel {
        ProbedFileModel { file: self.file.deep_view(), exists: self.exists }
    }
}

/// What is done for the library files: the paths of those that are there, those to fetch with
/// where they come from and where they go, and the paths of those to extract.
#[derive(Debug)]
pub struct LibraryPlan {
    pub present: Vec<String>,
    pub downloads: Vec<(String, String)>,
    pub natives: Vec<String>,
}

/// The paths of the files that are there, in order.
pub open spec fn present_paths(files: Seq<ProbedFileModel>) -> Seq<Seq<char>>
    decreases files.len(),
{
    if files.len() == 0 {
        Seq::empty()
    } else {
        let before = present_paths(files.drop_last());
        if files.last().exists {
            before.push(files.last().file.path)
        } else {
            before
        }
    }
}

/// The files that are not there, each with where it comes from and where it goes, in order.
pub open spec fn missing_files(files: Seq<ProbedFileModel>) -> Seq<(Seq<char>, Seq<char>)>
    decreases files.len(),
{
    if files.len() == 0 {
        Seq::empty()
    } else {
        let before = missing_files(files.drop_last());
        if files.last().exists {
            before
        } else {
            before.push((files.last().file.url, files.last().file.path))
        }
    }
}

/// The paths of the files that hold native libraries, in order.
pub open spec fn native_paths(files: Seq<ProbedFileModel>) -> Seq<Seq<char>>
    decreases files.len(),
{
    if files.len() == 0 {
        Seq::empty()
    } else {
        let before = native_paths(files.drop_last());
        if files.last().file.native {
            before.push(files.last().file.path)
        } else {
            before
        }
    }
}

/// What is done for the library files.
pub fn plan_libraries(files: &Vec<ProbedFile>) -> (plan: LibraryPlan)
    ensures
        plan.present.deep_view() == present_paths(files.deep_view()),
        plan.downloads.deep_view() == missing_files(files.deep_view()),
        plan.natives.deep_view() == native_paths(files.deep_view()),
{
    let mut present: Vec<String> = Vec::new();
    let mut downloads: Vec<(String, String)> = Vec::new();
    let mut natives: Vec<String> = Vec::new();
    let mut i: usize = 0;
    let ghost all = files.deep_view();
    assert(all.take(0) =~= Seq::empty());
    assert(present.deep_view() =~= Seq::empty());
    assert(downloads.deep_view() =~= Seq::empty());
    assert(natives.deep_view() =~= Seq::empty());
    while i < files.len()
        invariant
            i <= files@.len(),
            all == files.deep_view(),
            present.deep_view() == present_paths(all.take(i as int)),
            downloads.deep_view() == missing_files(all.take(i as int)),
            natives.deep_view() == native_paths(all.take(i as int)),
        decreases files@.len() - i,
    {
        let ghost p = present.deep_view();
        let ghost d = downloads.deep_view();
        let ghost n = natives.deep_view();
        let file = &files[i].file;
        assert(all[i as int] == files@[i as int].deep_view());
        assert(all.take(i + 1).drop_last() =~= all.take(i as int));
        if files[i].exists {
            present.push(file.path.clone());
            assert(present.deep_view() =~= p.push(file.path@));
        } else {
            downloads.push((file.url.clone(), file.path.clone()));
            assert(downloads.deep_view() =~= d.push((file.url@, file.path@)));
        }
        if file.native {
            natives.push(file.path.clone());
            assert(natives.deep_view() =~= n.push(file.path@));
        }
        i = i + 1;
    }
    assert(all.take(i as int) =~= all);
    LibraryPlan { present, downloads, natives }
}

/// What the player is told once `done` of `jobs` library files have been fetched.
pub fn library_progress(done: usize, jobs: usize) -> (message: String)
    ensures
        message@ == "Downloading libraries... "@ + decimal_text(done as nat) + "/"@ + decimal_text(
            if jobs < 1 {
                1
            } else {
                jobs as nat
            },
        ),
{
    let total: usize = if jobs < 1 {
        1
    } else {
        jobs
    };
    let done_digits = decimal(done as u64);
    let total_digits = decimal(total as u64);
    concat4("Downloading libraries... ", done_digits.as_str(), "/", total_digits.as_str())
}

// ---------------------------------------------------------------------------
// Verification and report
// ---------------------------------------------------------------------------

/// What the player is told of a client whose digest is not the expected one.
pub open spec fn checksum_text(actual: Seq<char>, expected: Seq<char>) -> Option<Seq<char>> {
    if actual == expected {
        None
    } else {
        Some("Client.jar checksum mismatch. File can be corrupted."@)
    }
}

/// What the player is told of a client with this digest.
pub fn checksum_notice(actual: &str, expected: &str) -> (notice: Option<String>)
    ensures
        notice.deep_view() == checksum_text(actual@, expected@),
{
    if same_text(actual, expected) {
        None
    } else {
        Some("Client.jar checksum mismatch. File can be corrupted.".to_owned())
    }
}

/// What the player is told of the client, going by its SHA-1 digest in lower case. Where no digest
/// is expected, nothing is said.
pub fn verify_client(bytes: &[u8], expected: Option<&str>) -> (notice: Option<String>)
    ensures
        notice.deep_view() == (match expected {
            Some(expected) => checksum_text(sha1_hex(bytes@), expected@),
            None => None,
        }),
{
    match expected {
        Some(expected) => {
            let actual = sha1_digest(bytes);
            checksum_notice(actual.as_str(), expected)
        },
        None => None,
    }
}

/// What became of an installation.
#[derive(Debug)]
pub struct InstallReport {
    pub success: bool,
    pub downloaded_files: Vec<String>,
    pub warnings: Vec<String>,
}

/// What the player is warned of after an installation.
pub open spec fn install_warnings(loader: LoaderType) -> Seq<Seq<char>> {
    match loader {
        LoaderType::Forge => seq![
            "Forge metadata is installed through a lightweight flow. If a specific pack fails, send the launch error and I will tighten the installer path."@,
        ],
        _ => Seq::empty(),
    }
}

/// The report of an installation that came to its end. The files stand in the order in which they
/// were dealt with: the client, the metadata, the library files that were there, those that were
/// fetched, then the asset index and the assets that were fetched.
pub fn install_report(
    loader: LoaderType,
    client_jar: &str,
    metadata: &str,
    present_libraries: &Vec<String>,
    fetched_libraries: &Vec<String>,
    asset_files: &Vec<String>,
) -> (report: InstallReport)
    ensures
        report.success,
        report.downloaded_files.deep_view() == seq![client_jar@, metadata@]
            + present_libraries.deep_view() + fetched_libraries.deep_view()
            + asset_files.deep_view(),
        report.warnings.deep_view() == install_warnings(loader),
{
    let mut files: Vec<String> = Vec::new();
    files.push(client_jar.to_owned());
    files.push(metadata.to_owned());
    assert(files.deep_view() =~= seq![client_jar@, metadata@]);
    let ghost s0 = files.deep_view();
    let mut present = copy_texts(present_libraries);
    files.append(&mut present);
    assert(files.deep_view() =~= s0 + present_libraries.deep_view());
    let ghost s1 = files.deep_view();
    let mut fetched = copy_texts(fetched_libraries);
    files.append(&mut fetched);
    assert(files.deep_view() =~= s1 + fetched_libraries.deep_view());
    let ghost s2 = files.deep_view();
    let mut assets = copy_texts(asset_files);
    files.append(&mut assets);
    assert(files.deep_view() =~= s2 + asset_files.deep_view());
    let mut warnings: Vec<String> = Vec::new();
    if let LoaderType::Forge = loader {
        warnings.push(
            "Forge metadata is installed through a lightweight flow. If a specific pack fails, send the launch error and I will tighten the installer path.".to_owned(),
        );
    }
    assert(warnings.deep_view() =~= install_warnings(loader));
    InstallReport { success: true, downloaded_files: files, warnings }
}

// ---------------------------------------------------------------------------
// Laws
// ---------------------------------------------------------------------------

/// The stages go forward, never beyond the last, and only the last has none after it.
pub proof fn law_stages_go_forward(stage: InstallStage, has_assets: bool)
    ensures
        1 <= stage_number(stage) <= INSTALL_STEPS,
        stage_after(stage, has_assets) is None <==> stage == InstallStage::Completed,
        stage_after(stage, has_assets) matches Some(next) ==> stage_number(stage) < stage_number(
            next,
        ),
        stage_after(stage, has_assets) == Some(InstallStage::Assets) ==> has_assets,
{
}

/// Every file is either there or fetched.
pub proof fn law_every_file_is_accounted_for(files: Seq<ProbedFileModel>)
    ensures
        present_paths(files).len() + missing_files(files).len() == files.len(),
    decreases files.len(),
{
    if files.len() > 0 {
        law_every_file_is_accounted_for(files.drop_last());
    }
}

/// Once every file is there, nothing is fetched.
pub proof fn law_nothing_is_fetched_twice(files: Seq<ProbedFileModel>)
    requires
        forall|i: int| 0 <= i < files.len() ==> (#[trigger] files[i]).exists,
    ensures
        missing_files(files) == Seq::<(Seq<char>, Seq<char>)>::empty(),
        present_paths(files).len() == files.len(),
    decreases files.len(),
{
    if files.len() > 0 {
        let init = files.drop_last();
        assert forall|i: int| 0 <= i < init.len() implies (#[trigger] init[i]).exists by {
            assert(init[i] == files[i]);
        }
        law_nothing_is_fetched_twice(init);
        assert(files[files.len() - 1].exists);
    }
}

/// The paths of the files that hold no native libraries, in order.
pub open spec fn artifact_paths(files: Seq<LibraryFileModel>) -> Seq<Seq<char>>
    decreases files.len(),
{
    if files.len() == 0 {
        Seq::empty()
    } else {
        let before = artifact_paths(files.drop_last());
        if files.last().native {
            before
        } else {
            before.push(files.last().path)
        }
    }
}

proof fn lemma_artifact_paths_add(a: Seq<LibraryFileModel>, b: Seq<LibraryFileModel>)
    ensures
        artifact_paths(a + b) == artifact_paths(a) + artifact_paths(b),
    decreases b.len(),
{
    if b.len() == 0 {
        assert(a + b =~= a);
        assert(artifact_paths(a) + artifact_paths(b) =~= artifact_paths(a));
    } else {
        let init = b.drop_last();
        lemma_artifact_paths_add(a, init);
        assert((a + b).drop_last() =~= a + init);
        assert((a + b).last() == b.last());
        assert(artifact_paths(a + b) =~= artifact_paths(a) + artifact_paths(b));
    }
}

/// The class path of a launch is made of the files that an installation fetches, in the same order.
pub proof fn law_class_path_is_what_is_installed(libraries: Seq<LibraryModel>, host: HostOs)
    ensures
        wanted_library_paths(libraries, host) == artifact_paths(wanted_files(libraries, host)),
    decreases libraries.len(),
{
    if libraries.len() > 0 {
        let init = libraries.drop_last();
        let last = libraries.last();
        law_class_path_is_what_is_installed(init, host);
        lemma_artifact_paths_add(wanted_files(init, host), files_of(last, host));
        law_library_is_found_where_it_goes(last);
        reveal_with_fuel(artifact_paths, 3);
        let own = files_of(last, host);
        let one = if allowed_by(last.rules, host) && library_path(last) is Some {
            seq![library_path(last)->Some_0]
        } else {
            Seq::empty()
        };
        if allowed_by(last.rules, host) {
            let first: Seq<LibraryFileModel> = match library_url_path(last) {
                Some((url, path)) => seq![LibraryFileModel { url, path, native: false }],
                None => Seq::empty(),
            };
            let second: Seq<LibraryFileModel> = match native_artifact(last, host) {
                Some(artifact) => seq![
                    LibraryFileModel { url: artifact.url, path: artifact.path, native: true },
                ],
                None => Seq::empty(),
            };
            lemma_artifact_paths_add(first, second);
            if first.len() > 0 {
                assert(first.drop_last() =~= Seq::empty());
            }
            if second.len() > 0 {
                assert(second.drop_last() =~= Seq::empty());
            }
            assert(artifact_paths(first) =~= one);
            assert(artifact_paths(second) =~= Seq::empty());
        }
        assert(artifact_paths(own) =~= one);
        assert(wanted_library_paths(libraries, host) =~= wanted_library_paths(init, host) + one);
    }
}

/// The stages by their numbers, each followed by the next, but for the assets where there are none.
pub proof fn law_stages_in_order(stage: InstallStage, has_assets: bool)
    ensures
        stage_number(InstallStage::LoadMetadata) == 1,
        stage_number(InstallStage::Prepare) == 2,
        stage_number(InstallStage::Client) == 3,
        stage_number(InstallStage::SaveMetadata) == 4,
        stage_number(InstallStage::Libraries) == 5,
        stage_number(InstallStage::Assets) == 6,
        stage_number(InstallStage::Verify) == 7,
        stage_number(InstallStage::Completed) == 8,
        stage_after(stage, has_assets) matches Some(next) ==> stage_number(next) == stage_number(
            stage,
        ) + (if stage == InstallStage::Libraries && !has_assets {
            2int
        } else {
            1int
        }),
        stage != InstallStage::Completed ==> stage_after(stage, has_assets) is Some,
{
}

/// What the player is told at each stage.
pub proof fn law_what_is_said_at_a_stage(loader: LoaderType, version: Seq<char>)
    ensures
        stage_text(InstallStage::LoadMetadata, loader, version) == "Loading Minecraft metadata..."@,
        stage_text(InstallStage::Prepare, loader, version) == "Preparing "@ + loader_label(loader)
            + " "@ + version + "..."@,
        stage_text(InstallStage::Client, loader, version) == "Downloading client.jar..."@,
        stage_text(InstallStage::SaveMetadata, loader, version) == "Saving version metadata..."@,
        stage_text(InstallStage::Libraries, loader, version)
            == "Downloading libraries and natives..."@,
        stage_text(InstallStage::Assets, loader, version) == "Downloading assets..."@,
        stage_text(InstallStage::Verify, loader, version) == "Verifying downloaded files..."@,
        stage_text(InstallStage::Completed, loader, version) == "Install completed."@,
{
}

/// A total of nothing counts as one, any other as it is.
pub proof fn law_total_is_at_least_one(total: u32)
    ensures
        progress_total(0) == 1,
        total > 0 ==> progress_total(total) == total,
{
}

/// A library that is wanted has up to two files: its artifact with the address and the path that
/// were found for it, and behind it its native part, marked as such. One that is not wanted has
/// none.
pub proof fn law_files_of_a_library(library: LibraryModel, host: HostOs)
    ensures
        !allowed_by(library.rules, host) ==> files_of(library, host).len() == 0,
        allowed_by(library.rules, host) ==> {
            let files = files_of(library, host);
            let has_artifact = library_url_path(library) is Some;
            let has_native = native_artifact(library, host) is Some;
            &&& files.len() == (if has_artifact {
                1int
            } else {
                0
            }) + (if has_native {
                1int
            } else {
                0
            })
            &&& has_artifact ==> {
                &&& files[0].url == library_url_path(library)->Some_0.0
                &&& files[0].path == library_url_path(library)->Some_0.1
                &&& !files[0].native
            }
            &&& has_native ==> {
                &&& files[files.len() - 1].url == native_artifact(library, host)->Some_0.url
                &&& files[files.len() - 1].path == native_artifact(library, host)->Some_0.path
                &&& files[files.len() - 1].native
            }
        },
{
}

/// The files of libraries one after the other are their files one after the other.
pub proof fn law_files_follow_the_libraries(
    first: Seq<LibraryModel>,
    second: Seq<LibraryModel>,
    library: LibraryModel,
    host: HostOs,
)
    ensures
        wanted_files(first + second, host) == wanted_files(first, host) + wanted_files(second, host),
        wanted_files(Seq::empty(), host).len() == 0,
        wanted_files(seq![library], host) == files_of(library, host),
    decreases second.len(),
{
    let one = seq![library];
    assert(one.drop_last() =~= Seq::empty());
    assert(one.last() == library);
    assert(wanted_files(one.drop_last(), host) =~= Seq::empty());
    assert(wanted_files(one, host) =~= files_of(library, host));
    if second.len() == 0 {
        assert(first + second =~= first);
        assert(wanted_files(first, host) + wanted_files(second, host) =~= wanted_files(first, host));
    } else {
        let init = second.drop_last();
        law_files_follow_the_libraries(first, init, library, host);
        assert((first + second).drop_last() =~= first + init);
        assert((first + second).last() == second.last());
        assert(wanted_files(first + second, host) =~= wanted_files(first, host) + wanted_files(
            second,
            host,
        ));
    }
}

/// Files are dealt with one by one, in order: one that is there is listed by its path, one that is
/// not is fetched from its address to its path, and one that holds native libraries is extracted,
/// whether it was there or not.
pub proof fn law_files_are_dealt_with_in_order(
    first: Seq<ProbedFileModel>,
    second: Seq<ProbedFileModel>,
    file: ProbedFileModel,
)
    ensures
        present_paths(first + second) == present_paths(first) + present_paths(second),
        missing_files(first + second) == missing_files(first) + missing_files(second),
        native_paths(first + second) == native_paths(first) + native_paths(second),
        present_paths(Seq::empty()).len() == 0,
        missing_files(Seq::empty()).len() == 0,
        native_paths(Seq::empty()).len() == 0,
        file.exists ==> present_paths(seq![file]) == seq![file.file.path] && missing_files(
            seq![file],
        ).len() == 0,
        !file.exists ==> present_paths(seq![file]).len() == 0 && missing_files(seq![file]) == seq![
            (file.file.url, file.file.path),
        ],
        file.file.native ==> native_paths(seq![file]) == seq![file.file.path],
        !file.file.native ==> native_paths(seq![file]).len() == 0,
    decreases second.len(),
{
    let one = seq![file];
    assert(one.drop_last() =~= Seq::empty());
    assert(one.last() == file);
    assert(present_paths(one.drop_last()) =~= Seq::empty());
    assert(missing_files(one.drop_last()) =~= Seq::empty());
    assert(native_paths(one.drop_last()) =~= Seq::empty());
    if second.len() == 0 {
        assert(first + second =~= first);
        assert(present_paths(first) + present_paths(second) =~= present_paths(first));
        assert(missing_files(first) + missing_files(second) =~= missing_files(first));
        assert(native_paths(first) + native_paths(second) =~= native_paths(first));
    } else {
        let init = second.drop_last();
        law_files_are_dealt_with_in_order(first, init, file);
        assert((first + second).drop_last() =~= first + init);
        assert((first + second).last() == second.last());
        assert(present_paths(first + second) =~= present_paths(first) + present_paths(second));
        assert(missing_files(first + second) =~= missing_files(first) + missing_files(second));
        assert(native_paths(first + second) =~= native_paths(first) + native_paths(second));
    }
}

/// The player is told of a client exactly if its digest is not the expected one.
pub proof fn law_wrong_digest_is_reported(actual: Seq<char>, expected: Seq<char>)
    ensures
        checksum_text(expected, expected) is None,
        actual != expected ==> checksum_text(actual, expected) == Some(
            "Client.jar checksum mismatch. File can be corrupted."@,
        ),
{
}

/// Only an installation of Forge comes with a warning, and with one only.
pub proof fn law_only_forge_comes_with_a_warning(loader: LoaderType)
    ensures
        install_warnings(LoaderType::Vanilla).len() == 0,
        install_warnings(LoaderType::Fabric).len() == 0,
        install_warnings(LoaderType::Forge).len() == 1,
        install_warnings(LoaderType::Forge)[0]
            == "Forge metadata is installed through a lightweight flow. If a specific pack fails, send the launch error and I will tighten the installer path."@,
{
}

/// A shown step never goes beyond the shown total; both are what was given wherever that makes
/// sense.
pub proof fn law_shown_progress_makes_sense(step: u32, total: u32, shown: (u32, u32))
    requires
        call_ensures(emit_install_progress, (step, total), shown),
    ensures
        shown.0 <= shown.1,
        shown.1 >= 1,
        total >= 1 ==> shown.1 == total,
        total >= 1 && step <= total ==> shown.0 == step,
        total >= 1 && step > total ==> shown.0 == total,
{
}

/// A precise step lies between 1 and the total, and one less are done.
pub proof fn law_precise_progress_makes_sense(step: u32, total: u32, shown: (u32, u32, u32))
    requires
        call_ensures(emit_install_progress_precise, (step, total), shown),
    ensures
        1 <= shown.0 <= shown.2,
        shown.1 == shown.0 - 1,
        total >= 1 ==> shown.2 == total,
        1 <= step <= total ==> shown.0 == step,
        total >= 1 && step > total ==> shown.0 == total,
        step == 0 ==> shown.0 == 1,
{
}

/// Without a loader the metadata of the game is installed as it is; with one it is merged, and the
/// merge is refused only where one of the two is no object.
pub proof fn law_installed_metadata(
    base: Json,
    loader: Option<Json>,
    metadata: Result<Json, LauncherError>,
)
    requires
        call_ensures(installed_metadata, (base, loader), metadata),
    ensures
        loader is None ==> metadata == Ok::<Json, LauncherError>(base),
        loader matches Some(json) ==> (metadata is Ok <==> base.deep_view() is Object
            && json.deep_view() is Object),
{
    if let Some(json) = loader {
        law_only_objects_are_merged(base.deep_view(), json.deep_view(), metadata);
    }
}

/// A report of success lists the client and the metadata first, then every library file that was
/// there, every one that was fetched, and every asset file, each list in its order.
pub proof fn law_report_lists_every_file(
    loader: LoaderType,
    client_jar: &str,
    metadata: &str,
    present: &Vec<String>,
    fetched: &Vec<String>,
    assets: &Vec<String>,
    report: InstallReport,
    i: int,
)
    requires
        call_ensures(
            install_report,
            (loader, client_jar, metadata, present, fetched, assets),
            report,
        ),
    ensures
        report.success,
        ({
            let files = report.downloaded_files.deep_view();
            let p = present.deep_view();
            let f = fetched.deep_view();
            let a = assets.deep_view();
            &&& files.len() == 2 + p.len() + f.len() + a.len()
            &&& files[0] == client_jar@
            &&& files[1] == metadata@
            &&& 0 <= i < p.len() ==> files[2 + i] == p[i]
            &&& 0 <= i < f.len() ==> files[2 + p.len() + i] == f[i]
            &&& 0 <= i < a.len() ==> files[2 + p.len() + f.len() + i] == a[i]
        }),
{
}

/// A client is complained of exactly where a digest is expected and it has another.
pub proof fn law_verified_client(bytes: &[u8], expected: Option<&str>, notice: Option<String>)
    requires
        call_ensures(verify_client, (bytes, expected), notice),
    ensures
        expected is None ==> notice is None,
        expected matches Some(digest) ==> (notice is None <==> sha1_hex(bytes@) == digest@),
{
}

} // verus!
