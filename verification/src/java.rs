//! Java runtimes: which one a game version needs, and which one a profile gets.
use vstd::prelude::*;

use crate::error::LauncherError;
use crate::external::file_name_of;
use crate::filename::{
    ends_in, is_last_at, is_portable_path, law_portable_path_has_one_name, may_be_name, name_in,
    PathStyle,
};
use crate::number::{
    decimal_text, is_digit, law_decimal_reads_back, law_digit_adds_ten_times, parse_u8,
    parse_u8_text,
};
use crate::order::{before, text_before};
use crate::paths::{bundled_java, bundled_java_path, AppPath};
use crate::profile::{Profile, ProfileModel};
use crate::text::{
    ascii_lower, ascii_lower_text, chars_of, concat3, contains, contains_text, find, find_text,
    is_white_space, law_line_feed_ends_a_line, law_separator_divides,
    law_text_without_line_feed_is_one_line, law_text_without_separator_is_one_part,
    law_trim_leaves_what_is_between, lemma_find_text, lines, lines_text, occurs_at, same_text,
    separates, split, split_text, starts_with, text_of, trim, trim_text, Separator,
};

verus! {

// ---------------------------------------------------------------------------
// What a game version needs
// ---------------------------------------------------------------------------

/// The first two numbers of a game version.
pub open spec fn mc_numbers(version: Seq<char>) -> Option<(u8, u8)> {
    let parts = split_text(version, Separator::Char('.'));
    if parts.len() < 2 {
        None
    } else {
        match (parse_u8_text(parts[0]), parse_u8_text(parts[1])) {
            (Some(major), Some(minor)) => Some((major, minor)),
            _ => None,
        }
    }
}

/// The first two numbers of a game version.
pub fn parse_mc(v: &str) -> (numbers: Option<(u8, u8)>)
    ensures
        numbers == mc_numbers(v@),
{
    let parts = split(v, Separator::Char('.'));
    let ghost all = parts.deep_view();
    if parts.len() < 2 {
        return None;
    }
    match (parse_u8(parts[0].as_str()), parse_u8(parts[1].as_str())) {
        (Some(major), Some(minor)) => Some((major, minor)),
        _ => None,
    }
}

/// The Java version that a game version needs, by its number.
pub open spec fn java_major_for(version: Seq<char>) -> u8 {
    match mc_numbers(version) {
        Some((major, minor)) => if major > 1 || minor >= 21 {
            21
        } else if minor >= 18 {
            17
        } else {
            8
        },
        None => 17,
    }
}

/// The Java version that a game version needs, by its number.
pub fn minecraft_java_major(version: &str) -> (major: u8)
    ensures
        major == java_major_for(version@),
{
    if let Some((major, minor)) = parse_mc(version) {
        if major > 1 || minor >= 21 {
            return 21;
        }
        if minor >= 18 {
            return 17;
        }
        return 8;
    }
    17
}

/// The Java version that a profile needs: what the installed metadata asks for, else what the
/// number of the game version says.
pub open spec fn required_major_for(profile: ProfileModel, installed: Option<u8>) -> u8 {
    match installed {
        Some(major) => major,
        None => java_major_for(profile.minecraft_version),
    }
}

/// The Java version that a profile needs, given what its installed metadata asks for.
pub fn required_java_major(profile: &Profile, installed: Option<u8>) -> (major: u8)
    ensures
        major == required_major_for(profile.deep_view(), installed),
{
    match installed {
        Some(major) => major,
        None => minecraft_java_major(profile.minecraft_version.as_str()),
    }
}

// ---------------------------------------------------------------------------
// What a runtime says of itself
// ---------------------------------------------------------------------------

/// The two outputs of a program, one below the other.
pub open spec fn command_output(stdout: Seq<char>, stderr: Seq<char>) -> Seq<char> {
    stdout + "\n"@ + stderr
}

/// What a line has between `version "` and the next quote.
pub open spec fn quoted_version(line: Seq<char>) -> Option<Seq<char>> {
    match find_text(line, "version \""@) {
        Some(at) => {
            let rest = line.skip(at as int + 9);
            match find_text(rest, "\""@) {
                Some(end) => Some(rest.take(end as int)),
                None => None,
            }
        },
        None => None,
    }
}

/// The version of the first line that has one.
pub open spec fn first_quoted_version(lines: Seq<Seq<char>>) -> Option<Seq<char>>
    decreases lines.len(),
{
    if lines.len() == 0 {
        None
    } else if quoted_version(lines[0]) is Some {
        quoted_version(lines[0])
    } else {
        first_quoted_version(lines.skip(1))
    }
}

/// The digits that a text begins with.
pub open spec fn leading_digits(s: Seq<char>) -> Seq<char>
    decreases s.len(),
{
    if s.len() > 0 && is_digit(s[0]) {
        seq![s[0]] + leading_digits(s.skip(1))
    } else {
        Seq::empty()
    }
}

/// The major version that a version text stands for; `1.8` is 8.
pub open spec fn version_major(version: Seq<char>) -> Option<u8> {
    let normalized = trim_text(version);
    let number = if "1."@.is_prefix_of(normalized) {
        normalized.skip(2)
    } else {
        normalized
    };
    parse_u8_text(leading_digits(number))
}

/// The major version that a Java runtime reports.
pub open spec fn reported_major(output: Seq<char>) -> Option<u8> {
    match first_quoted_version(lines_text(output)) {
        Some(version) => version_major(version),
        None => None,
    }
}

fn version_in_line(line: &str) -> (version: Option<String>)
    ensures
        version.deep_view() == quoted_version(line@),
{
    proof {
        reveal_strlit("version \"");
        crate::text::lemma_find_text(line@, "version \""@);
    }
    let at: usize = match find(line, "version \"") {
        Some(at) => at,
        None => return None,
    };
    let chars = chars_of(line);
    let rest = text_of(&chars, at + 9, chars.len());
    assert(rest@ =~= line@.skip(at + 9));
    proof {
        crate::text::lemma_find_text(rest@, "\""@);
    }
    match find(rest.as_str(), "\"") {
        Some(end) => {
            let rest_chars = chars_of(rest.as_str());
            let version = text_of(&rest_chars, 0, end);
            assert(version@ =~= rest@.take(end as int));
            Some(version)
        },
        None => None,
    }
}

/// The major version that a Java runtime reports.
pub fn parse_java_major(version_output: &str) -> (major: Option<u8>)
    ensures
        major == reported_major(version_output@),
{
    let all_lines = lines(version_output);
    let ghost all = all_lines.deep_view();
    let mut token: Option<String> = None;
    let mut i: usize = 0;
    assert(all.skip(0) =~= all);
    while i < all_lines.len() && token.is_none()
        invariant
            i <= all_lines@.len(),
            all == all_lines.deep_view(),
            token is None ==> first_quoted_version(all) == first_quoted_version(all.skip(i as int)),
            token is Some ==> token.deep_view() == first_quoted_version(all),
        decreases all_lines@.len() - i,
    {
        assert(all.skip(i as int)[0] == all[i as int]);
        assert(all.skip(i as int).skip(1) =~= all.skip(i + 1));
        token = version_in_line(all_lines[i].as_str());
        i = i + 1;
    }
    assert(token.deep_view() == first_quoted_version(all));
    let token = match token {
        Some(token) => token,
        None => return None,
    };
    let normalized = trim(token.as_str());
    let chars = chars_of(normalized.as_str());
    proof {
        reveal_strlit("1.");
    }
    let from: usize = if starts_with(normalized.as_str(), "1.") {
        2
    } else {
        0
    };
    let ghost number = chars@.skip(from as int);
    assert(from == 0 ==> number =~= normalized@);
    let mut to: usize = from;
    assert(chars@.subrange(from as int, from as int) =~= Seq::empty());
    while to < chars.len() && '0' <= chars[to] && chars[to] <= '9'
        invariant
            from <= to <= chars@.len(),
            number == chars@.skip(from as int),
            leading_digits(number) == chars@.subrange(from as int, to as int) + leading_digits(
                chars@.skip(to as int),
            ),
        decreases chars@.len() - to,
    {
        let ghost rest = chars@.skip(to as int);
        assert(rest.skip(1) =~= chars@.skip(to + 1));
        assert(chars@.subrange(from as int, to as int) + (seq![rest[0]] + leading_digits(
            rest.skip(1),
        )) =~= chars@.subrange(from as int, to + 1) + leading_digits(chars@.skip(to + 1)));
        to = to + 1;
    }
    let digits = text_of(&chars, from, to);
    assert(leading_digits(number) =~= digits@);
    parse_u8(digits.as_str())
}

/// The major version of the Java runtime that printed this when asked for its version.
pub fn detect_java_major(stdout: &str, stderr: &str) -> (major: Option<u8>)
    ensures
        major == reported_major(command_output(stdout@, stderr@)),
{
    let text = concat3(stdout, "\n", stderr);
    parse_java_major(text.as_str())
}

/// The width of a pointer that one line of the settings of a Java runtime speaks of.
pub open spec fn line_bitness(line: Seq<char>) -> Option<u32> {
    let normalized = ascii_lower_text(trim_text(line));
    if contains_text(normalized, "sun.arch.data.model"@) {
        if contains_text(normalized, "64"@) {
            Some(64)
        } else if contains_text(normalized, "32"@) {
            Some(32)
        } else {
            None
        }
    } else {
        None
    }
}

/// The width of a pointer that the first of `lines` speaks of that speaks of one.
pub open spec fn first_bitness(lines: Seq<Seq<char>>) -> Option<u32>
    decreases lines.len(),
{
    if lines.len() == 0 {
        None
    } else if line_bitness(lines[0]) is Some {
        line_bitness(lines[0])
    } else {
        first_bitness(lines.skip(1))
    }
}

/// The width of a pointer in the Java runtime that printed these settings.
pub fn detect_java_bitness(stdout: &str, stderr: &str) -> (bits: Option<u32>)
    ensures
        bits == first_bitness(lines_text(command_output(stdout@, stderr@))),
{
    let text = concat3(stdout, "\n", stderr);
    let all_lines = lines(text.as_str());
    let ghost all = all_lines.deep_view();
    let mut i: usize = 0;
    assert(all.skip(0) =~= all);
    while i < all_lines.len()
        invariant
            i <= all_lines@.len(),
            all == all_lines.deep_view(),
            all == lines_text(command_output(stdout@, stderr@)),
            first_bitness(all) == first_bitness(all.skip(i as int)),
        decreases all_lines@.len() - i,
    {
        assert(all.skip(i as int)[0] == all[i as int]);
        assert(all.skip(i as int).skip(1) =~= all.skip(i + 1));
        let trimmed = trim(all_lines[i].as_str());
        let normalized = ascii_lower(trimmed.as_str());
        if contains(normalized.as_str(), "sun.arch.data.model") {
            if contains(normalized.as_str(), "64") {
                return Some(64);
            }
            if contains(normalized.as_str(), "32") {
                return Some(32);
            }
        }
        i = i + 1;
    }
    None
}

/// Whether a runtime is known to be older than needed.
pub fn check_java_version(
    required: u8,
    minecraft_version: &str,
    found: Option<u8>,
    path: &str,
) -> (checked: Result<(), LauncherError>)
    ensures
        checked is Err <==> (found matches Some(major) && major < required),
        checked matches Err(error) ==> (error matches LauncherError::JavaTooOld {
            required: r,
            minecraft_version: v,
            found: f,
            path: p,
        } && r == required && v@ == minecraft_version@ && Some(f) == found && p@ == path@),
{
    if let Some(major) = found {
        if major < required {
            return Err(
                LauncherError::JavaTooOld {
                    required,
                    minecraft_version: minecraft_version.to_owned(),
                    found: major,
                    path: path.to_owned(),
                },
            );
        }
    }
    Ok(())
}

// ---------------------------------------------------------------------------
// Memory and arguments
// ---------------------------------------------------------------------------

/// The memory that the game gets: at least 1024 megabytes, at most 8192, and no more than 1024
/// with a 32-bit runtime.
pub open spec fn ram_for(requested: u32, java_bits: Option<u32>) -> u32 {
    let base = if requested < 1024 {
        1024u32
    } else {
        requested
    };
    let limit = if java_bits == Some(32u32) {
        1024u32
    } else {
        8192u32
    };
    if base < limit {
        base
    } else {
        limit
    }
}

/// The memory that the game gets, in megabytes.
pub fn effective_ram_mb(requested: u32, java_bits: Option<u32>) -> (ram: u32)
    ensures
        ram == ram_for(requested, java_bits),
{
    let base: u32 = if requested < 1024 {
        1024
    } else {
        requested
    };
    let limit: u32 = match java_bits {
        Some(bits) => if bits == 32 {
            1024
        } else {
            8192
        },
        None => 8192,
    };
    if base < limit {
        base
    } else {
        limit
    }
}

/// Whether an argument is passed on to the runtime: it is an option, and not one on memory.
pub open spec fn is_kept_jvm_arg(arg: Seq<char>) -> bool {
    let a = trim_text(arg);
    &&& a.len() > 0
    &&& "-"@.is_prefix_of(a)
    &&& !"-Xmx"@.is_prefix_of(a)
    &&& !"-Xms"@.is_prefix_of(a)
}

/// The arguments that are passed on to the runtime.
pub open spec fn kept_jvm_args(args: Seq<Seq<char>>) -> Seq<Seq<char>> {
    args.filter(|arg: Seq<char>| is_kept_jvm_arg(arg))
}

/// The arguments that are passed on to the runtime, in order.
pub fn sanitized_jvm_args(args: &Vec<String>) -> (kept: Vec<String>)
    ensures
        kept.deep_view() == kept_jvm_args(args.deep_view()),
{
    let mut kept: Vec<String> = Vec::new();
    let mut i: usize = 0;
    let ghost wanted = |arg: Seq<char>| is_kept_jvm_arg(arg);
    let ghost all = args.deep_view();
    proof {
        reveal(Seq::filter);
        assert(all.take(0).filter(wanted) =~= Seq::<Seq<char>>::empty());
    }
    while i < args.len()
        invariant
            i <= args@.len(),
            all == args.deep_view(),
            wanted == (|arg: Seq<char>| is_kept_jvm_arg(arg)),
            kept.deep_view() == all.take(i as int).filter(wanted),
        decreases args@.len() - i,
    {
        let ghost old_kept = kept.deep_view();
        proof {
            reveal(Seq::filter);
            assert(all.take(i + 1).drop_last() =~= all.take(i as int));
        }
        let a = trim(args[i].as_str());
        let keep = !a.as_str().is_empty() && starts_with(a.as_str(), "-") && !starts_with(
            a.as_str(),
            "-Xmx",
        ) && !starts_with(a.as_str(), "-Xms");
        if keep {
            kept.push(args[i].clone());
            assert(kept.deep_view() =~= old_kept.push(all[i as int]));
        }
        i = i + 1;
    }
    assert(all.take(i as int) =~= all);
    kept
}

// ---------------------------------------------------------------------------
// Finding runtimes
// ---------------------------------------------------------------------------

/// The programs that start a Java runtime.
pub open spec fn java_program_names() -> Seq<Seq<char>> {
    seq!["java.exe"@, "javaw.exe"@]
}

/// The programs that start a Java runtime.
pub fn java_programs() -> (names: Vec<String>)
    ensures
        names.deep_view() == java_program_names(),
{
    let mut names: Vec<String> = Vec::new();
    names.push("java.exe".to_owned());
    names.push("javaw.exe".to_owned());
    assert(names.deep_view() =~= java_program_names());
    names
}

/// The directories that vendors install Java runtimes to.
pub open spec fn vendor_names() -> Seq<Seq<char>> {
    seq![
        "Java"@,
        "Eclipse Adoptium"@,
        "Adoptium"@,
        "Microsoft"@,
        "BellSoft"@,
        "Amazon Corretto"@,
        "Zulu"@,
        "Azul"@,
        "Oracle"@,
        "GraalVM"@,
    ]
}

fn vendors() -> (names: Vec<String>)
    ensures
        names.deep_view() == vendor_names(),
{
    let mut names: Vec<String> = Vec::new();
    names.push("Java".to_owned());
    names.push("Eclipse Adoptium".to_owned());
    names.push("Adoptium".to_owned());
    names.push("Microsoft".to_owned());
    names.push("BellSoft".to_owned());
    names.push("Amazon Corretto".to_owned());
    names.push("Zulu".to_owned());
    names.push("Azul".to_owned());
    names.push("Oracle".to_owned());
    names.push("GraalVM".to_owned());
    assert(names.deep_view() =~= vendor_names());
    names
}

/// A place to look for Java runtimes.
#[derive(Debug)]
pub enum JavaSearch {
    /// A program of the runtime that comes with the launcher.
    Bundled(AppPath),
    /// The program `bin/<program>` of the runtime at `home`.
    Home { home: String, program: String },
    /// The programs of every runtime in the directory `vendor` of `root`.
    Vendor { root: String, vendor: String },
    /// Every program of this name on the search path.
    OnPath(String),
}

/// What a [`JavaSearch`] holds.
pub enum JavaSearchModel {
    Bundled(Seq<Seq<char>>),
    Home { home: Seq<char>, program: Seq<char> },
    Vendor { root: Seq<char>, vendor: Seq<char> },
    OnPath(Seq<char>),
}

impl DeepView for JavaSearch {
    type V = JavaSearchModel;

    open spec fn deep_view(&self) -> JavaSearchModel {
        match self {
            JavaSearch::Bundled(path) => JavaSearchModel::Bundled(path@),
            JavaSearch::Home { home, program } => JavaSearchModel::Home {
                home: home@,
                program: program@,
            },
            JavaSearch::Vendor { root, vendor } => JavaSearchModel::Vendor {
                root: root@,
                vendor: vendor@,
            },
            JavaSearch::OnPath(program) => JavaSearchModel::OnPath(program@),
        }
    }
}

/// The places below the runtime that the environment names.
pub open spec fn home_searches(java_home: Option<Seq<char>>) -> Seq<JavaSearchModel> {
    match java_home {
        Some(home) => seq![
            JavaSearchModel::Home { home, program: "java.exe"@ },
            JavaSearchModel::Home { home, program: "javaw.exe"@ },
        ],
        None => Seq::empty(),
    }
}

/// The places of every vendor below one directory.
pub open spec fn vendor_searches_in(root: Seq<char>) -> Seq<JavaSearchModel> {
    vendor_names().map_values(|vendor: Seq<char>| JavaSearchModel::Vendor { root, vendor })
}

/// The places of every vendor below every directory.
pub open spec fn vendor_searches(roots: Seq<Seq<char>>) -> Seq<JavaSearchModel>
    decreases roots.len(),
{
    if roots.len() == 0 {
        Seq::empty()
    } else {
        vendor_searches(roots.drop_last()) + vendor_searches_in(roots.last())
    }
}

/// The places to look for Java runtimes, in order.
pub open spec fn java_searches(
    required_major: u8,
    java_home: Option<Seq<char>>,
    roots: Seq<Seq<char>>,
) -> Seq<JavaSearchModel> {
    seq![
        JavaSearchModel::Bundled(bundled_java(required_major, "java.exe"@)),
        JavaSearchModel::Bundled(bundled_java(required_major, "javaw.exe"@)),
    ] + home_searches(java_home) + vendor_searches(roots) + seq![
        JavaSearchModel::OnPath("java.exe"@),
        JavaSearchModel::OnPath("javaw.exe"@),
    ]
}

/// The places to look for Java runtimes, in order: the runtime of the launcher, the one that the
/// environment names, those that vendors install below `roots`, and those on the search path.
pub fn java_search_plan(
    required_major: u8,
    java_home: Option<&str>,
    roots: &Vec<String>,
) -> (plan: Vec<JavaSearch>)
    ensures
        plan.deep_view() == java_searches(required_major, java_home.deep_view(), roots.deep_view()),
{
    let mut plan: Vec<JavaSearch> = Vec::new();
    plan.push(JavaSearch::Bundled(bundled_java_path(required_major, "java.exe")));
    plan.push(JavaSearch::Bundled(bundled_java_path(required_major, "javaw.exe")));
    if let Some(home) = java_home {
        plan.push(JavaSearch::Home { home: home.to_owned(), program: "java.exe".to_owned() });
        plan.push(JavaSearch::Home { home: home.to_owned(), program: "javaw.exe".to_owned() });
    }
    let ghost head = seq![
        JavaSearchModel::Bundled(bundled_java(required_major, "java.exe"@)),
        JavaSearchModel::Bundled(bundled_java(required_major, "javaw.exe"@)),
    ] + home_searches(java_home.deep_view());
    assert(plan.deep_view() =~= head);
    let names = vendors();
    let ghost all = roots.deep_view();
    let mut i: usize = 0;
    assert(all.take(0) =~= Seq::empty());
    assert(head + vendor_searches(all.take(0)) =~= head);
    while i < roots.len()
        invariant
            i <= roots@.len(),
            all == roots.deep_view(),
            names.deep_view() == vendor_names(),
            plan.deep_view() == head + vendor_searches(all.take(i as int)),
        decreases roots@.len() - i,
    {
        let ghost before_root = plan.deep_view();
        let ghost here = vendor_searches_in(all[i as int]);
        assert(all.take(i + 1).drop_last() =~= all.take(i as int));
        let mut j: usize = 0;
        assert(before_root + here.take(0) =~= before_root);
        while j < names.len()
            invariant
                i < roots@.len(),
                all == roots.deep_view(),
                j <= names@.len(),
                names.deep_view() == vendor_names(),
                here == vendor_searches_in(all[i as int]),
                plan.deep_view() == before_root + here.take(j as int),
            decreases names@.len() - j,
        {
            let ghost old_plan = plan.deep_view();
            plan.push(JavaSearch::Vendor { root: roots[i].clone(), vendor: names[j].clone() });
            assert(names.deep_view()[j as int] == vendor_names()[j as int]);
            assert(plan.deep_view() =~= old_plan.push(here[j as int]));
            assert(here.take(j + 1) =~= here.take(j as int).push(here[j as int]));
            assert(plan.deep_view() =~= before_root + here.take(j + 1));
            j = j + 1;
        }
        assert(names.deep_view().len() == here.len());
        assert(here.take(j as int) =~= here);
        assert(plan.deep_view() =~= head + vendor_searches(all.take(i + 1)));
        i = i + 1;
    }
    assert(all.take(i as int) =~= all);
    let ghost old_plan = plan.deep_view();
    plan.push(JavaSearch::OnPath("java.exe".to_owned()));
    plan.push(JavaSearch::OnPath("javaw.exe".to_owned()));
    assert(plan.deep_view() =~= old_plan + seq![
        JavaSearchModel::OnPath("java.exe"@),
        JavaSearchModel::OnPath("javaw.exe"@),
    ]);
    plan
}

/// The paths in the output of a search on the search path: one on each line.
pub fn paths_in_output(output: &str) -> (paths: Vec<String>)
    ensures
        paths.deep_view() == lines_text(output@).map_values(|line: Seq<char>| trim_text(line)),
{
    let all_lines = lines(output);
    let ghost all = all_lines.deep_view();
    let ghost wanted = all.map_values(|line: Seq<char>| trim_text(line));
    let mut paths: Vec<String> = Vec::new();
    let mut i: usize = 0;
    while i < all_lines.len()
        invariant
            i <= all_lines@.len(),
            all == all_lines.deep_view(),
            wanted == all.map_values(|line: Seq<char>| trim_text(line)),
            paths.deep_view() == wanted.take(i as int),
        decreases all_lines@.len() - i,
    {
        let ghost old_paths = paths.deep_view();
        let path = trim(all_lines[i].as_str());
        assert(path@ == wanted[i as int]);
        paths.push(path);
        assert(paths.deep_view() =~= old_paths.push(wanted[i as int]));
        assert(wanted.take(i + 1) =~= wanted.take(i as int).push(wanted[i as int]));
        i = i + 1;
    }
    assert(wanted.take(i as int) =~= wanted);
    paths
}

/// A file system path: how it is written, and the components that it is made of. Paths with the
/// same components are the same path.
#[derive(Debug)]
pub struct JavaPath {
    pub text: String,
    pub components: Vec<String>,
}

/// What a [`JavaPath`] holds.
pub struct JavaPathModel {
    pub text: Seq<char>,
    pub components: Seq<Seq<char>>,
}

impl DeepView for JavaPath {
    type V = JavaPathModel;

    open spec fn deep_view(&self) -> JavaPathModel {
        JavaPathModel { text: self.text@, components: self.components.deep_view() }
    }
}

/// A path that was looked at.
#[derive(Debug)]
pub struct ProbedPath {
    pub path: JavaPath,
    pub exists: bool,
}

/// What a [`ProbedPath`] holds.
pub struct ProbedPathModel {
    pub path: JavaPathModel,
    pub exists: bool,
}

impl DeepView for ProbedPath {
    type V = ProbedPathModel;

    open spec fn deep_view(&self) -> ProbedPathModel {
        ProbedPathModel { path: self.path.deep_view(), exists: self.exists }
    }
}

/// Whether a path is among the candidates.
pub open spec fn has_candidate(
    candidates: Seq<JavaPathModel>,
    components: Seq<Seq<char>>,
) -> bool {
    exists|i: int| 0 <= i < candidates.len() && (#[trigger] candidates[i]).components == components
}

/// The candidates with one more, if it exists and is not among them.
pub open spec fn with_candidate(
    candidates: Seq<JavaPathModel>,
    path: JavaPathModel,
    exists: bool,
) -> Seq<JavaPathModel> {
    if exists && !has_candidate(candidates, path.components) {
        candidates.push(path)
    } else {
        candidates
    }
}

/// The candidates among the paths that were looked at: those that exist, each once, in order.
pub open spec fn java_candidates(found: Seq<ProbedPathModel>) -> Seq<JavaPathModel>
    decreases found.len(),
{
    if found.len() == 0 {
        Seq::empty()
    } else {
        with_candidate(java_candidates(found.drop_last()), found.last().path, found.last().exists)
    }
}

fn same_components(left: &Vec<String>, right: &Vec<String>) -> (same: bool)
    ensures
        same == (left.deep_view() == right.deep_view()),
{
    if left.len() != right.len() {
        assert(left.deep_view().len() != right.deep_view().len());
        return false;
    }
    let mut i: usize = 0;
    while i < left.len()
        invariant
            i <= left@.len(),
            left@.len() == right@.len(),
            forall|k: int| 0 <= k < i ==> left.deep_view()[k] == right.deep_view()[k],
        decreases left@.len() - i,
    {
        if !same_text(left[i].as_str(), right[i].as_str()) {
            assert(left.deep_view()[i as int] != right.deep_view()[i as int]);
            return false;
        }
        i = i + 1;
    }
    assert(left.deep_view() =~= right.deep_view());
    true
}

/// Adds a path to the candidates, if it exists and is not among them.
pub fn push_java_candidate(candidates: &mut Vec<JavaPath>, path: JavaPath, exists: bool)
    ensures
        final(candidates).deep_view() == with_candidate(
            old(candidates).deep_view(),
            path.deep_view(),
            exists,
        ),
{
    let ghost all = candidates.deep_view();
    let ghost model = path.deep_view();
    let mut known = false;
    let mut i: usize = 0;
    while i < candidates.len()
        invariant
            i <= candidates@.len(),
            all == candidates.deep_view(),
            model == path.deep_view(),
            known == exists|k: int|
                0 <= k < i && (#[trigger] all[k]).components == model.components,
        decreases candidates@.len() - i,
    {
        if same_components(&candidates[i].components, &path.components) {
            assert(all[i as int].components == model.components);
            known = true;
        } else {
            assert(all[i as int].components != model.components);
        }
        i = i + 1;
    }
    assert(known == has_candidate(all, model.components));
    if exists && !known {
        candidates.push(path);
        assert(candidates.deep_view() =~= all.push(model));
    }
}

/// The candidates among the paths that were looked at.
pub fn collect_java_candidates(found: Vec<ProbedPath>) -> (candidates: Vec<JavaPath>)
    ensures
        candidates.deep_view() == java_candidates(found.deep_view()),
{
    let mut candidates: Vec<JavaPath> = Vec::new();
    let ghost all = found.deep_view();
    assert(all.take(0) =~= Seq::empty());
    assert(candidates.deep_view() =~= Seq::empty());
    for probed in it: found
        invariant
            it.seq() == found@,
            all == found.deep_view(),
            candidates.deep_view() == java_candidates(all.take(it.index())),
    {
        assert(all.take(it.index() + 1).drop_last() =~= all.take(it.index()));
        assert(all.take(it.index() + 1).last() == probed.deep_view());
        push_java_candidate(&mut candidates, probed.path, probed.exists);
    }
    assert(all.take(all.len() as int) =~= all);
    candidates
}

// ---------------------------------------------------------------------------
// Choosing a runtime
// ---------------------------------------------------------------------------

/// A runtime that was asked for its version.
#[derive(Debug)]
pub struct ProbedJava {
    pub path: String,
    pub major: Option<u8>,
    pub bits: Option<u32>,
}

/// What a [`ProbedJava`] holds.
pub struct ProbedJavaModel {
    pub path: Seq<char>,
    pub major: Option<u8>,
    pub bits: Option<u32>,
}

impl DeepView for ProbedJava {
    type V = ProbedJavaModel;

    open spec fn deep_view(&self) -> ProbedJavaModel {
        ProbedJavaModel { path: self.path@, major: self.major, bits: self.bits }
    }
}

/// Whether a runtime is new enough.
pub open spec fn is_suitable(java: ProbedJavaModel, required_major: u8) -> bool {
    java.major matches Some(major) && major >= required_major
}

/// The width of a pointer in a runtime, zero when it is not known.
pub open spec fn bits_of(java: ProbedJavaModel) -> u32 {
    match java.bits {
        Some(bits) => bits,
        None => 0,
    }
}

/// Whether one runtime is preferred to another: the newer one, then the one with wider pointers,
/// then the one whose path stands first.
pub open spec fn is_preferred(a: ProbedJavaModel, b: ProbedJavaModel) -> bool {
    let major_a = a.major->Some_0;
    let major_b = b.major->Some_0;
    ||| major_a > major_b
    ||| major_a == major_b && bits_of(a) > bits_of(b)
    ||| major_a == major_b && bits_of(a) == bits_of(b) && text_before(a.path, b.path)
}

/// Whether `path` is that of the runtime to use among `found`: one that is new enough, and to
/// which none that is new enough is preferred.
pub open spec fn is_best_path(
    found: Seq<ProbedJavaModel>,
    required_major: u8,
    path: Seq<char>,
) -> bool {
    exists|i: int|
        0 <= i < found.len() && is_best(found, required_major, i) && (#[trigger] found[i]).path
            == path
}

/// Whether the runtime at `i` is new enough, and none that is new enough is preferred to it.
pub open spec fn is_best(found: Seq<ProbedJavaModel>, required_major: u8, i: int) -> bool {
    &&& is_suitable(found[i], required_major)
    &&& forall|j: int|
        0 <= j < found.len() && is_suitable(#[trigger] found[j], required_major) ==> !is_preferred(
            found[j],
            found[i],
        )
}

/// Whether none of `found` is new enough.
pub open spec fn none_suitable(found: Seq<ProbedJavaModel>, required_major: u8) -> bool {
    forall|i: int| 0 <= i < found.len() ==> !is_suitable(#[trigger] found[i], required_major)
}

proof fn lemma_preferred_negatively_transitive(
    a: ProbedJavaModel,
    b: ProbedJavaModel,
    c: ProbedJavaModel,
)
    requires
        is_preferred(a, b),
        !is_preferred(c, b),
    ensures
        !is_preferred(c, a),
{
    if is_preferred(c, a) {
        if text_before(c.path, a.path) && text_before(a.path, b.path) {
            crate::order::law_before_transitive(c.path, a.path, b.path);
        }
    }
}

fn preferred(a: &ProbedJava, b: &ProbedJava) -> (r: bool)
    requires
        a.major is Some,
        b.major is Some,
    ensures
        r == is_preferred(a.deep_view(), b.deep_view()),
{
    let major_a: u8 = a.major.unwrap();
    let major_b: u8 = b.major.unwrap();
    let bits_a: u32 = match a.bits {
        Some(bits) => bits,
        None => 0,
    };
    let bits_b: u32 = match b.bits {
        Some(bits) => bits,
        None => 0,
    };
    if major_a != major_b {
        major_a > major_b
    } else if bits_a != bits_b {
        bits_a > bits_b
    } else {
        before(a.path.as_str(), b.path.as_str())
    }
}

/// The best of the installed runtimes that were found: its path, and where it comes from.
pub fn resolve_best_system_java(required_major: u8, found: &Vec<ProbedJava>) -> (best: Option<
    (String, String),
>)
    ensures
        best is None <==> none_suitable(found.deep_view(), required_major),
        best matches Some((path, source)) ==> source@ == "systemInstalled"@ && is_best_path(
            found.deep_view(),
            required_major,
            path@,
        ),
{
    let ghost all = found.deep_view();
    let mut best: Option<usize> = None;
    let mut i: usize = 0;
    while i < found.len()
        invariant
            i <= found@.len(),
            all == found.deep_view(),
            best is None ==> forall|k: int|
                0 <= k < i ==> !is_suitable(#[trigger] all[k], required_major),
            best matches Some(b) ==> b < i && is_suitable(all[b as int], required_major)
                && forall|k: int|
                0 <= k < i && is_suitable(#[trigger] all[k], required_major) ==> !is_preferred(
                    all[k],
                    all[b as int],
                ),
        decreases found@.len() - i,
    {
        let suitable = match found[i].major {
            Some(major) => major >= required_major,
            None => false,
        };
        assert(suitable == is_suitable(all[i as int], required_major));
        if suitable {
            match best {
                None => {
                    proof {
                        crate::order::law_before_irreflexive(all[i as int].path);
                    }
                    best = Some(i);
                },
                Some(b) => {
                    if preferred(&found[i], &found[b]) {
                        proof {
                            crate::order::law_before_irreflexive(all[i as int].path);
                            assert forall|k: int|
                                0 <= k < i + 1 && is_suitable(
                                    #[trigger] all[k],
                                    required_major,
                                ) implies !is_preferred(all[k], all[i as int]) by {
                                if k < i {
                                    lemma_preferred_negatively_transitive(
                                        all[i as int],
                                        all[b as int],
                                        all[k],
                                    );
                                }
                            }
                        }
                        best = Some(i);
                    }
                },
            }
        }
        i = i + 1;
    }
    match best {
        None => None,
        Some(b) => {
            assert(is_best(all, required_major, b as int));
            assert(all[b as int].path == found@[b as int].path@);
            Some((found[b].path.clone(), "systemInstalled".to_owned()))
        },
    }
}

/// What was found where a profile looks for its runtime first.
#[derive(Debug)]
pub struct JavaProbe {
    /// Whether the path that the profile names exists.
    pub override_exists: bool,
    /// The path of the bundled `java.exe`, if it exists.
    pub bundled_java: Option<String>,
    /// The path of the bundled `javaw.exe`, if it exists.
    pub bundled_javaw: Option<String>,
}

/// The runtime that a profile gets.
#[derive(Debug)]
pub struct JavaResolution {
    pub required_major: u8,
    pub resolved_path: Option<String>,
    pub source: Option<String>,
}

/// The runtime that a profile gets without a search: its own, else the bundled one.
pub open spec fn local_java(profile: ProfileModel, probe: JavaProbe) -> Option<
    (Seq<char>, Seq<char>),
> {
    if profile.java_path is Some && probe.override_exists {
        Some((profile.java_path->Some_0, "profileOverride"@))
    } else if probe.bundled_java is Some {
        Some((probe.bundled_java->Some_0@, "bundledTemurin"@))
    } else if probe.bundled_javaw is Some {
        Some((probe.bundled_javaw->Some_0@, "bundledTemurin"@))
    } else {
        None
    }
}

/// Whether the installed runtimes have to be searched.
pub fn needs_system_java(profile: &Profile, probe: &JavaProbe) -> (needed: bool)
    ensures
        needed <==> local_java(profile.deep_view(), *probe) is None,
{
    !(profile.java_path.is_some() && probe.override_exists) && probe.bundled_java.is_none()
        && probe.bundled_javaw.is_none()
}

/// The runtime that a profile gets: its own, else the bundled one, else the best of `system`.
pub fn resolve_java_for_profile(
    profile: &Profile,
    installed_major: Option<u8>,
    probe: &JavaProbe,
    system: &Vec<ProbedJava>,
) -> (java: JavaResolution)
    ensures
        java.required_major == required_major_for(profile.deep_view(), installed_major),
        local_java(profile.deep_view(), *probe) matches Some((path, source))
            ==> java.resolved_path.deep_view() == Some(path) && java.source.deep_view() == Some(
            source,
        ),
        local_java(profile.deep_view(), *probe) is None ==> {
            &&& java.resolved_path is None <==> none_suitable(
                system.deep_view(),
                java.required_major,
            )
            &&& java.resolved_path is None <==> java.source is None
            &&& java.resolved_path matches Some(path) ==> is_best_path(
                system.deep_view(),
                java.required_major,
                path@,
            )
            &&& java.source matches Some(source) ==> source@ == "systemInstalled"@
        },
{
    let required_major: u8 = required_java_major(profile, installed_major);
    if let Some(path) = &profile.java_path {
        if probe.override_exists {
            return JavaResolution {
                required_major,
                resolved_path: Some(path.clone()),
                source: Some("profileOverride".to_owned()),
            };
        }
    }
    if let Some(path) = &probe.bundled_java {
        return JavaResolution {
            required_major,
            resolved_path: Some(path.clone()),
            source: Some("bundledTemurin".to_owned()),
        };
    }
    if let Some(path) = &probe.bundled_javaw {
        return JavaResolution {
            required_major,
            resolved_path: Some(path.clone()),
            source: Some("bundledTemurin".to_owned()),
        };
    }
    match resolve_best_system_java(required_major, system) {
        Some((path, source)) => JavaResolution {
            required_major,
            resolved_path: Some(path),
            source: Some(source),
        },
        None => JavaResolution { required_major, resolved_path: None, source: None },
    }
}

/// The program to start the runtime at `path` with: in the place of `javaw.exe` the `java.exe`
/// beside it, if there is one.
pub open spec fn console_program_path(
    path: Seq<char>,
    file_name: Option<Seq<char>>,
    sibling: Option<Seq<char>>,
) -> Seq<char> {
    if file_name is Some && ascii_lower_text(file_name->Some_0) == "javaw.exe"@ && sibling is Some {
        sibling->Some_0
    } else {
        path
    }
}

/// The program to start a runtime with, where `file_name` is the name that `path` ends in, and
/// `sibling` the path of the `java.exe` beside it, if that exists.
pub fn console_program(path: &str, file_name: Option<&str>, sibling: Option<&str>) -> (console:
    String)
    ensures
        console@ == console_program_path(path@, file_name.deep_view(), sibling.deep_view()),
{
    if let Some(name) = file_name {
        let lowered = ascii_lower(name);
        if same_text(lowered.as_str(), "javaw.exe") {
            if let Some(java) = sibling {
                return java.to_owned();
            }
        }
    }
    path.to_owned()
}

/// Whether a path ends in `javaw.exe`, in any case of its ASCII letters, by some reading of it.
pub open spec fn may_end_in_javaw(path: Seq<char>) -> bool {
    exists|name: Seq<char>| #[trigger]
        ends_in(path, name) && ascii_lower_text(name) == "javaw.exe"@
}

/// The program to start the runtime at `path` with, where `sibling` is the path of the `java.exe`
/// beside it, if that exists. It goes by the name of the path on this machine.
pub fn to_java_console_path(path: &str, sibling: Option<&str>) -> (console: String)
    ensures
        exists|name: Option<Seq<char>>| #[trigger]
            may_be_name(path@, name) && console@ == console_program_path(
                path@,
                name,
                sibling.deep_view(),
            ),
        is_portable_path(path@) ==> console@ == console_program_path(
            path@,
            name_in(path@, PathStyle::Unix),
            sibling.deep_view(),
        ),
        console@ != path@ ==> sibling.deep_view() == Some(console@) && may_end_in_javaw(path@),
{
    let file_name = file_name_of(path);
    proof {
        assert(may_be_name(path@, file_name.deep_view()));
        if is_portable_path(path@) {
            law_portable_path_has_one_name(path@);
        }
    }
    match &file_name {
        Some(name) => console_program(path, Some(name.as_str()), sibling),
        None => console_program(path, None, sibling),
    }
}

// ---------------------------------------------------------------------------
// Laws
// ---------------------------------------------------------------------------

/// The memory of the game lies between 1024 and 8192 megabytes, whatever is asked for.
pub proof fn law_ram_is_bounded(requested: u32, java_bits: Option<u32>)
    ensures
        1024 <= ram_for(requested, java_bits) <= 8192,
        java_bits == Some(32u32) ==> ram_for(requested, java_bits) == 1024,
{
}

/// Who asks for more memory does not get less.
pub proof fn law_ram_is_monotone(less: u32, more: u32, java_bits: Option<u32>)
    requires
        less <= more,
    ensures
        ram_for(less, java_bits) <= ram_for(more, java_bits),
{
}

/// The memory that the game gets is left as it is when it is asked for again.
pub proof fn law_ram_is_stable(requested: u32, java_bits: Option<u32>)
    ensures
        ram_for(ram_for(requested, java_bits), java_bits) == ram_for(requested, java_bits),
{
}

/// No argument that is passed on sets the memory of the runtime, and every one is an option.
pub proof fn law_passed_arguments_leave_memory_alone(args: Seq<Seq<char>>, i: int)
    requires
        0 <= i < kept_jvm_args(args).len(),
    ensures
        is_kept_jvm_arg(kept_jvm_args(args)[i]),
{
    args.lemma_filter_pred(|arg: Seq<char>| is_kept_jvm_arg(arg), i);
}

/// Passing arguments through the filter twice is passing them once.
pub proof fn law_filtering_arguments_is_idempotent(args: Seq<Seq<char>>)
    ensures
        kept_jvm_args(kept_jvm_args(args)) == kept_jvm_args(args),
    decreases args.len(),
{
    reveal(Seq::filter);
    let wanted = |arg: Seq<char>| is_kept_jvm_arg(arg);
    if args.len() > 0 {
        law_filtering_arguments_is_idempotent(args.drop_last());
        let head = args.drop_last().filter(wanted);
        if is_kept_jvm_arg(args.last()) {
            assert(args.filter(wanted) == head.push(args.last()));
            assert(head.push(args.last()).drop_last() =~= head);
        }
    }
}

/// The candidates are different paths.
pub proof fn law_candidates_are_distinct(found: Seq<ProbedPathModel>, i: int, j: int)
    requires
        0 <= i < j < java_candidates(found).len(),
    ensures
        java_candidates(found)[i].components != java_candidates(found)[j].components,
    decreases found.len(),
{
    let head = java_candidates(found.drop_last());
    if j < head.len() {
        law_candidates_are_distinct(found.drop_last(), i, j);
    } else {
        assert(head[i].components == java_candidates(found)[i].components);
    }
}

/// A path is a candidate exactly if it was found to exist.
pub proof fn law_candidates_are_what_exists(
    found: Seq<ProbedPathModel>,
    components: Seq<Seq<char>>,
)
    ensures
        has_candidate(java_candidates(found), components) <==> exists|i: int|
            0 <= i < found.len() && (#[trigger] found[i]).exists && found[i].path.components
                == components,
    decreases found.len(),
{
    if found.len() > 0 {
        let before_last = found.drop_last();
        let head = java_candidates(before_last);
        let all = java_candidates(found);
        law_candidates_are_what_exists(before_last, components);
        if has_candidate(head, components) {
            let k = choose|k: int|
                0 <= k < head.len() && (#[trigger] head[k]).components == components;
            assert(all[k] == head[k]);
            let i = choose|i: int|
                0 <= i < before_last.len() && (#[trigger] before_last[i]).exists
                    && before_last[i].path.components == components;
            assert(found[i] == before_last[i]);
        }
        let last = found[found.len() - 1];
        if last.exists && last.path.components == components {
            if !has_candidate(head, components) {
                assert(all[head.len() as int] == last.path);
            }
        }
        if has_candidate(all, components) && !has_candidate(head, components) {
            let k = choose|k: int|
                0 <= k < all.len() && (#[trigger] all[k]).components == components;
            if k < head.len() {
                assert(head[k].components == components);
            }
            assert(k == head.len());
        }
        if exists|i: int|
            0 <= i < found.len() && (#[trigger] found[i]).exists && found[i].path.components
                == components {
            let i = choose|i: int|
                0 <= i < found.len() && (#[trigger] found[i]).exists && found[i].path.components
                    == components;
            if i < before_last.len() {
                assert(before_last[i].exists && before_last[i].path.components == components);
            }
        }
    }
}

/// There is one choice among installed runtimes: ties do not leave it open.
pub proof fn law_best_java_is_unique(
    found: Seq<ProbedJavaModel>,
    required_major: u8,
    a: Seq<char>,
    b: Seq<char>,
)
    requires
        is_best_path(found, required_major, a),
        is_best_path(found, required_major, b),
    ensures
        a == b,
{
    let i = choose|i: int|
        0 <= i < found.len() && is_best(found, required_major, i) && (#[trigger] found[i]).path
            == a;
    let j = choose|j: int|
        0 <= j < found.len() && is_best(found, required_major, j) && (#[trigger] found[j]).path
            == b;
    if a != b {
        crate::order::law_before_total(a, b);
        assert(!is_preferred(found[i], found[j]));
        assert(!is_preferred(found[j], found[i]));
    }
}

/// A path that ends in `java.exe` ends in `javaw.exe` by no reading of it.
pub proof fn law_java_is_not_javaw(path: Seq<char>)
    requires
        "java.exe"@.is_suffix_of(path),
    ensures
        !may_end_in_javaw(path),
{
    reveal_strlit("java.exe");
    reveal_strlit("javaw.exe");
    if may_end_in_javaw(path) {
        let name = choose|name: Seq<char>| #[trigger]
            ends_in(path, name) && ascii_lower_text(name) == "javaw.exe"@;
        let i = choose|i: int| is_last_at(path, name, i);
        assert(ascii_lower_text(name).len() == 9);
        assert(path.subrange(path.len() - 8, path.len() as int) =~= "java.exe"@);
        assert(path[path.len() - 1] == path.subrange(path.len() - 8, path.len() as int)[7]);
        assert(i + 9 == path.len());
        assert(path[i + 4] == path.subrange(path.len() - 8, path.len() as int)[3]);
        assert(path[i + 4] == path.subrange(i, i + 9)[4]);
        assert(ascii_lower_text(name)[4] == 'w');
    }
}

/// Asking again for the program to start a runtime with changes nothing: the second answer is the
/// first one, whatever the path looks like. A path that was left alone is read and has its
/// sibling as before; a sibling ends in `java.exe`, and is left alone whatever its name is taken to
/// be and whatever lies beside it.
pub proof fn law_console_path_is_stable(
    path: Seq<char>,
    name: Option<Seq<char>>,
    sibling: Option<Seq<char>>,
    next_name: Option<Seq<char>>,
    next_sibling: Option<Seq<char>>,
)
    requires
        may_be_name(path, name),
        may_be_name(console_program_path(path, name, sibling), next_name),
        sibling matches Some(java) ==> "java.exe"@.is_suffix_of(java),
        console_program_path(path, name, sibling) == path ==> next_name == name && next_sibling
            == sibling,
    ensures
        console_program_path(
            console_program_path(path, name, sibling),
            next_name,
            next_sibling,
        ) == console_program_path(path, name, sibling),
{
    let once = console_program_path(path, name, sibling);
    if once != path {
        law_java_is_not_javaw(once);
        if let Some(n) = next_name {
            assert(ends_in(once, n));
        }
    }
}

proof fn lemma_numbers_of(first: Seq<char>, second: Seq<char>, rest: Seq<char>)
    requires
        !first.contains('.'),
        !second.contains('.'),
    ensures
        split_text(first, Separator::Char('.')) == seq![first],
        split_text(first + "."@ + second, Separator::Char('.')) == seq![first, second],
        split_text(first + "."@ + second + "."@ + rest, Separator::Char('.')) == seq![first, second]
            + split_text(rest, Separator::Char('.')),
{
    reveal_strlit(".");
    let sep = Separator::Char('.');
    assert forall|k: int| 0 <= k < first.len() implies !separates(sep, #[trigger] first[k]) by {
        assert(first.contains(first[k]));
    }
    assert forall|k: int| 0 <= k < second.len() implies !separates(sep, #[trigger] second[k]) by {
        assert(second.contains(second[k]));
    }
    law_text_without_separator_is_one_part(first, sep);
    law_text_without_separator_is_one_part(second, sep);
    assert(first + "."@ + second =~= first.push('.') + second);
    law_separator_divides(first, '.', second, sep);
    assert(seq![first] + seq![second] =~= seq![first, second]);
    let tail = second.push('.') + rest;
    assert(first + "."@ + second + "."@ + rest =~= first.push('.') + tail);
    law_separator_divides(first, '.', tail, sep);
    law_separator_divides(second, '.', rest, sep);
    assert(seq![first] + (seq![second] + split_text(rest, sep)) =~= seq![first, second]
        + split_text(rest, sep));
}

/// The numbers of a game version are what stands before its first dot and between its first two dots;
/// a further part does not count, and a text without a dot has none.
pub proof fn law_numbers_of_a_game_version(first: Seq<char>, second: Seq<char>, rest: Seq<char>)
    requires
        !first.contains('.'),
        !second.contains('.'),
    ensures
        mc_numbers(first) is None,
        mc_numbers(first + "."@ + second + "."@ + rest) == mc_numbers(first + "."@ + second),
        parse_u8_text(first) matches Some(major) ==> (parse_u8_text(second) matches Some(minor)
            ==> mc_numbers(first + "."@ + second) == Some((major, minor))),
        parse_u8_text(first) is None || parse_u8_text(second) is None ==> mc_numbers(
            first + "."@ + second,
        ) is None,
{
    lemma_numbers_of(first, second, rest);
    crate::text::lemma_split_nonempty(rest, Separator::Char('.'));
    let parts = split_text(first + "."@ + second + "."@ + rest, Separator::Char('.'));
    assert(parts[0] == first && parts[1] == second);
}

/// The game version that is written with two numbers has these numbers.
pub proof fn law_game_version_of_two_numbers(major: u8, minor: u8, rest: Seq<char>)
    ensures
        mc_numbers(decimal_text(major as nat) + "."@ + decimal_text(minor as nat)) == Some(
            (major, minor),
        ),
        mc_numbers(
            decimal_text(major as nat) + "."@ + decimal_text(minor as nat) + "."@ + rest,
        ) == Some((major, minor)),
{
    let first = decimal_text(major as nat);
    let second = decimal_text(minor as nat);
    law_decimal_reads_back(major as nat);
    law_decimal_reads_back(minor as nat);
    assert(!first.contains('.'));
    assert(!second.contains('.'));
    law_numbers_of_a_game_version(first, second, rest);
}

/// Of the versions before 2.0, those up to 1.17 need Java 8, those from 1.18 to 1.20 Java 17, and
/// those from 1.21 on Java 21, as do all from 2.0 on. A version without numbers gets Java 17.
pub proof fn law_java_for_a_game_version(version: Seq<char>, major: u8, minor: u8)
    ensures
        mc_numbers(version) == Some((major, minor)) && major <= 1 ==> {
            &&& java_major_for(version) == 8 <==> minor <= 17
            &&& java_major_for(version) == 17 <==> 18 <= minor <= 20
            &&& java_major_for(version) == 21 <==> minor >= 21
        },
        mc_numbers(version) == Some((major, minor)) && major >= 2 ==> java_major_for(version) == 21,
        mc_numbers(version) is None ==> java_major_for(version) == 17,
{
}

/// The same, of versions as they are written: `1.17.1` needs Java 8, `1.20.4` Java 17, `1.21` Java
/// 21, and so for all.
pub proof fn law_java_for_a_written_version(minor: u8, rest: Seq<char>)
    ensures
        minor <= 17 ==> java_major_for("1."@ + decimal_text(minor as nat)) == 8 && java_major_for(
            "1."@ + decimal_text(minor as nat) + "."@ + rest,
        ) == 8,
        18 <= minor <= 20 ==> java_major_for("1."@ + decimal_text(minor as nat)) == 17
            && java_major_for("1."@ + decimal_text(minor as nat) + "."@ + rest) == 17,
        minor >= 21 ==> java_major_for("1."@ + decimal_text(minor as nat)) == 21 && java_major_for(
            "1."@ + decimal_text(minor as nat) + "."@ + rest,
        ) == 21,
{
    reveal_strlit("1.");
    reveal_strlit(".");
    law_game_version_of_two_numbers(1, minor, rest);
    assert(decimal_text(1) =~= seq!['1']);
    let digits = decimal_text(minor as nat);
    assert("1."@ + digits =~= decimal_text(1) + "."@ + digits);
    assert("1."@ + digits + "."@ + rest =~= decimal_text(1) + "."@ + digits + "."@ + rest);
    law_java_for_a_game_version("1."@ + digits, 1, minor);
    law_java_for_a_game_version("1."@ + digits + "."@ + rest, 1, minor);
}

/// A later game version never needs an older Java.
pub proof fn law_later_versions_need_no_older_java(
    earlier: Seq<char>,
    later: Seq<char>,
    major: u8,
    minor: u8,
    later_major: u8,
    later_minor: u8,
)
    requires
        mc_numbers(earlier) == Some((major, minor)),
        mc_numbers(later) == Some((later_major, later_minor)),
        major == later_major && minor <= later_minor || 1 <= major < later_major,
    ensures
        java_major_for(earlier) <= java_major_for(later),
{
}

/// What installed metadata asks for counts; without it the game version decides.
pub proof fn law_installed_metadata_decides(profile: ProfileModel, major: u8)
    ensures
        required_major_for(profile, Some(major)) == major,
        required_major_for(profile, None) == java_major_for(profile.minecraft_version),
{
}

/// The first output comes first, the second behind a line feed, and both are whole.
pub proof fn law_outputs_stand_one_below_the_other(stdout: Seq<char>, stderr: Seq<char>)
    ensures
        command_output(stdout, stderr).len() == stdout.len() + 1 + stderr.len(),
        command_output(stdout, stderr).take(stdout.len() as int) == stdout,
        command_output(stdout, stderr)[stdout.len() as int] == '\n',
        command_output(stdout, stderr).skip(stdout.len() as int + 1) == stderr,
{
    reveal_strlit("\n");
    let all = command_output(stdout, stderr);
    assert(all.take(stdout.len() as int) =~= stdout);
    assert(all.skip(stdout.len() as int + 1) =~= stderr);
}

/// The version in a line is what stands between the first `version "` and the next quote; without
/// either there is none.
pub proof fn law_version_stands_in_quotes(before: Seq<char>, version: Seq<char>, after: Seq<char>)
    requires
        !version.contains('"'),
        !before.contains('"'),
    ensures
        quoted_version(before + "version \""@ + version + "\""@ + after) == Some(version),
        quoted_version(before + "version \""@ + version) is None,
        quoted_version(before) is None,
{
    reveal_strlit("version \"");
    reveal_strlit("\"");
    let mark = "version \""@;
    let quote = "\""@;
    let closed = before + mark + version + quote + after;
    let open = before + mark + version;
    lemma_mark_found(before, mark, version + quote + after, '"');
    lemma_mark_found(before, mark, version, '"');
    assert(closed =~= before + mark + (version + quote + after));
    let rest = closed.skip(before.len() as int + 9);
    assert(rest =~= version + quote + after);
    lemma_find_text(rest, quote);
    assert(rest.subrange(version.len() as int, version.len() as int + 1) =~= quote);
    assert(occurs_at(rest, quote, version.len() as int));
    let end = find_text(rest, quote)->Some_0;
    assert(rest.subrange(end as int, end as int + 1)[0] == rest[end as int]);
    if end < version.len() {
        assert(version.contains(version[end as int]));
    }
    assert(end == version.len());
    assert(rest.take(end as int) =~= version);
    let open_rest = open.skip(before.len() as int + 9);
    assert(open_rest =~= version);
    lemma_find_text(version, quote);
    if find_text(version, quote) is Some {
        let k = find_text(version, quote)->Some_0 as int;
        assert(version.subrange(k, k + 1)[0] == version[k]);
        assert(version.contains(version[k]));
    }
    lemma_find_text(before, mark);
    if find_text(before, mark) is Some {
        let k = find_text(before, mark)->Some_0 as int;
        assert(before.subrange(k, k + 9)[8] == before[k + 8]);
        assert(before.contains(before[k + 8]));
    }
}

proof fn lemma_mark_found(before: Seq<char>, mark: Seq<char>, rest: Seq<char>, c: char)
    requires
        !before.contains(c),
        mark.len() > 0,
        mark[mark.len() - 1] == c,
        forall|m: int| 0 <= m < mark.len() - 1 ==> #[trigger] mark[m] != c,
    ensures
        find_text(before + mark + rest, mark) == Some(before.len()),
{
    let line = before + mark + rest;
    let at = before.len() as int;
    assert(occurs_at(line, mark, at)) by {
        assert(line.subrange(at, at + mark.len()) =~= mark);
    }
    assert forall|k: int| 0 <= k < at implies !#[trigger] occurs_at(line, mark, k) by {
        lemma_mark_not_before(before, mark, rest, c, k);
    }
    lemma_found_first(line, mark, before.len());
}

proof fn lemma_found_first(line: Seq<char>, mark: Seq<char>, at: nat)
    requires
        occurs_at(line, mark, at as int),
        forall|k: int| 0 <= k < at ==> !#[trigger] occurs_at(line, mark, k),
    ensures
        find_text(line, mark) == Some(at),
{
    lemma_find_text(line, mark);
    assert(contains_text(line, mark));
    let found = find_text(line, mark)->Some_0;
    assert(occurs_at(line, mark, found as int));
    assert(found >= at);
    if at < found {
        assert(!occurs_at(line, mark, at as int));
    }
}

proof fn lemma_mark_not_before(
    before: Seq<char>,
    mark: Seq<char>,
    rest: Seq<char>,
    c: char,
    k: int,
)
    requires
        !before.contains(c),
        mark.len() > 0,
        mark[mark.len() - 1] == c,
        forall|m: int| 0 <= m < mark.len() - 1 ==> #[trigger] mark[m] != c,
        0 <= k < before.len(),
    ensures
        !occurs_at(before + mark + rest, mark, k),
{
    let line = before + mark + rest;
    let last = k + mark.len() - 1;
    if occurs_at(line, mark, k) {
        assert(line.subrange(k, k + mark.len())[mark.len() - 1] == line[last]);
        if last < before.len() {
            assert(before.contains(before[last]));
        } else {
            assert(line[last] == mark[last - before.len()]);
        }
    }
}

/// The version of the first line that has one counts: lines before it that have none do not, and
/// lines behind it do not.
pub proof fn law_first_line_with_a_version_counts(line: Seq<char>, more: Seq<Seq<char>>)
    ensures
        first_quoted_version(Seq::empty()) is None,
        quoted_version(line) is Some ==> first_quoted_version(seq![line] + more) == quoted_version(
            line,
        ),
        quoted_version(line) is None ==> first_quoted_version(seq![line] + more)
            == first_quoted_version(more),
{
    let all = seq![line] + more;
    assert(all[0] == line);
    assert(all.skip(1) =~= more);
}

/// The digits at the beginning of a text end where the first other character stands.
pub proof fn law_leading_digits_end_at_the_first_other_character(
    digits: Seq<char>,
    rest: Seq<char>,
)
    requires
        forall|i: int| 0 <= i < digits.len() ==> '0' <= #[trigger] digits[i] <= '9',
        rest.len() > 0 ==> !('0' <= rest[0] <= '9'),
    ensures
        leading_digits(digits + rest) == digits,
    decreases digits.len(),
{
    let s = digits + rest;
    if digits.len() == 0 {
        assert(s =~= rest);
    } else {
        let tail = digits.skip(1);
        assert(s[0] == digits[0]);
        assert(s.skip(1) =~= tail + rest);
        assert forall|i: int| 0 <= i < tail.len() implies '0' <= #[trigger] tail[i] <= '9' by {
            assert(tail[i] == digits[i + 1]);
        }
        law_leading_digits_end_at_the_first_other_character(tail, rest);
        assert(seq![digits[0]] + tail =~= digits);
    }
}

/// A version text stands for the number that it begins with, or for the number behind `1.` where it
/// begins with that, whatever follows the number.
pub proof fn law_major_of_a_version_text(major: u8, rest: Seq<char>)
    requires
        rest.len() > 0 ==> !('0' <= rest[0] <= '9') && !is_white_space(rest[rest.len() - 1]),
    ensures
        version_major("1."@ + decimal_text(major as nat) + rest) == Some(major),
        major != 1 || rest.len() == 0 || rest[0] != '.' ==> version_major(
            decimal_text(major as nat) + rest,
        ) == Some(major),
{
    reveal_strlit("1.");
    let digits = decimal_text(major as nat);
    law_decimal_reads_back(major as nat);
    law_leading_digits_end_at_the_first_other_character(digits, rest);
    let old_style = "1."@ + digits + rest;
    let none = Seq::<char>::empty();
    assert(none + old_style + none =~= old_style);
    let new_style = digits + rest;
    assert(none + new_style + none =~= new_style);
    assert(!is_white_space(digits[digits.len() - 1]));
    assert(!is_white_space(digits[0]));
    law_trim_leaves_what_is_between(none, old_style, none);
    law_trim_leaves_what_is_between(none, new_style, none);
    assert("1."@.is_prefix_of(old_style));
    assert(old_style.skip(2) =~= digits + rest);
    if "1."@.is_prefix_of(new_style) {
        assert(new_style.subrange(0, 2) =~= "1."@);
        assert(new_style[0] == new_style.subrange(0, 2)[0]);
        assert(new_style[1] == new_style.subrange(0, 2)[1]);
        if digits.len() >= 2 {
            assert(new_style[1] == digits[1]);
        } else {
            assert(new_style[1] == rest[0]);
            assert(digits =~= seq!['1']);
            law_digit_adds_ten_times(none, 1);
            assert(none.push('1') =~= digits);
            assert(major == 1);
        }
    }
}

/// White space around a version text does not count.
pub proof fn law_space_around_a_version_does_not_count(
    before: Seq<char>,
    version: Seq<char>,
    after: Seq<char>,
)
    requires
        forall|k: int| 0 <= k < before.len() ==> is_white_space(#[trigger] before[k]),
        forall|k: int| 0 <= k < after.len() ==> is_white_space(#[trigger] after[k]),
        version.len() > 0 ==> !is_white_space(version[0]) && !is_white_space(
            version[version.len() - 1],
        ),
    ensures
        version_major(before + version + after) == version_major(version),
{
    let none = Seq::<char>::empty();
    assert(none + version + none =~= version);
    law_trim_leaves_what_is_between(before, version, after);
    law_trim_leaves_what_is_between(none, version, none);
}

/// A runtime is taken at the first line of its output that has a version: earlier lines without one
/// do not count, and without any such line the version is not known.
pub proof fn law_reported_version_is_the_first(line: Seq<char>, more: Seq<char>)
    requires
        !line.contains('\n'),
        line.len() > 0 ==> line.last() != '\r',
    ensures
        quoted_version(line) matches Some(version) ==> reported_major(line.push('\n') + more)
            == version_major(version),
        quoted_version(line) is None ==> reported_major(line.push('\n') + more) == reported_major(
            more,
        ),
        reported_major(Seq::empty()) is None,
{
    law_line_feed_ends_a_line(line, more);
    law_first_line_with_a_version_counts(line, lines_text(more));
    law_text_without_line_feed_is_one_line(Seq::empty());
}

/// A line speaks of the width of a pointer where it has the name of the setting, in whatever case;
/// then it is 64 where the line has that number, else 32 where it has that one.
pub proof fn law_width_in_a_line(line: Seq<char>)
    ensures
        ({
            let lowered = ascii_lower_text(trim_text(line));
            &&& !contains_text(lowered, "sun.arch.data.model"@) ==> line_bitness(line) is None
            &&& contains_text(lowered, "sun.arch.data.model"@) && contains_text(lowered, "64"@)
                ==> line_bitness(line) == Some(64u32)
            &&& contains_text(lowered, "sun.arch.data.model"@) && !contains_text(lowered, "64"@)
                && contains_text(lowered, "32"@) ==> line_bitness(line) == Some(32u32)
            &&& !contains_text(lowered, "64"@) && !contains_text(lowered, "32"@) ==> line_bitness(
                line,
            ) is None
        }),
{
}

/// The first line that speaks of the width of a pointer counts.
pub proof fn law_first_line_with_a_width_counts(line: Seq<char>, more: Seq<Seq<char>>)
    ensures
        first_bitness(Seq::empty()) is None,
        line_bitness(line) is Some ==> first_bitness(seq![line] + more) == line_bitness(line),
        line_bitness(line) is None ==> first_bitness(seq![line] + more) == first_bitness(more),
{
    let all = seq![line] + more;
    assert(all[0] == line);
    assert(all.skip(1) =~= more);
}

/// The memory is what is asked for where that lies between 1024 and 8192 megabytes, else the nearer
/// of the two; a 32-bit runtime always gets 1024.
pub proof fn law_memory_is_what_is_asked_for(requested: u32, java_bits: Option<u32>)
    ensures
        java_bits == Some(32u32) ==> ram_for(requested, java_bits) == 1024,
        java_bits != Some(32u32) && requested <= 1024 ==> ram_for(requested, java_bits) == 1024,
        java_bits != Some(32u32) && 1024 <= requested <= 8192 ==> ram_for(requested, java_bits)
            == requested,
        java_bits != Some(32u32) && requested >= 8192 ==> ram_for(requested, java_bits) == 8192,
{
}

/// An argument is passed on if it begins with a hyphen and neither with `-Xmx` nor with `-Xms`, white
/// space around it aside.
pub proof fn law_which_arguments_are_passed_on(
    before: Seq<char>,
    arg: Seq<char>,
    after: Seq<char>,
)
    requires
        forall|k: int| 0 <= k < before.len() ==> is_white_space(#[trigger] before[k]),
        forall|k: int| 0 <= k < after.len() ==> is_white_space(#[trigger] after[k]),
        arg.len() > 0 ==> !is_white_space(arg[0]) && !is_white_space(arg[arg.len() - 1]),
    ensures
        is_kept_jvm_arg(before + arg + after) <==> {
            &&& arg.len() > 0
            &&& arg[0] == '-'
            &&& !(arg.len() >= 4 && arg[1] == 'X' && arg[2] == 'm' && (arg[3] == 'x' || arg[3]
                == 's'))
        },
{
    reveal_strlit("-");
    reveal_strlit("-Xmx");
    reveal_strlit("-Xms");
    law_trim_leaves_what_is_between(before, arg, after);
    if arg.len() > 0 {
        if arg[0] == '-' {
            assert(arg.subrange(0, 1) =~= "-"@);
        } else if "-"@.is_prefix_of(arg) {
            assert(arg.subrange(0, 1)[0] == arg[0]);
        }
    }
    if arg.len() >= 4 {
        let head = arg.subrange(0, 4);
        assert(head[0] == arg[0] && head[1] == arg[1] && head[2] == arg[2] && head[3] == arg[3]);
        if arg[0] == '-' && arg[1] == 'X' && arg[2] == 'm' {
            if arg[3] == 'x' {
                assert(head =~= "-Xmx"@);
            }
            if arg[3] == 's' {
                assert(head =~= "-Xms"@);
            }
        }
    }
}

/// Arguments are passed on one by one, in order: each that is passed on stands behind those before
/// it, and any other is left out.
pub proof fn law_arguments_are_passed_on_in_order(
    first: Seq<Seq<char>>,
    second: Seq<Seq<char>>,
    arg: Seq<char>,
)
    ensures
        kept_jvm_args(first + second) == kept_jvm_args(first) + kept_jvm_args(second),
        kept_jvm_args(Seq::empty()).len() == 0,
        is_kept_jvm_arg(arg) ==> kept_jvm_args(seq![arg]) == seq![arg],
        !is_kept_jvm_arg(arg) ==> kept_jvm_args(seq![arg]).len() == 0,
{
    let wanted = |a: Seq<char>| is_kept_jvm_arg(a);
    Seq::filter_distributes_over_add(first, second, wanted);
    reveal(Seq::filter);
    let one = seq![arg];
    assert(one.drop_last() =~= Seq::empty());
    assert(one.last() == arg);
    assert(one.drop_last().filter(wanted) =~= Seq::empty());
    if is_kept_jvm_arg(arg) {
        assert(one.filter(wanted) =~= one);
    }
}

/// The programs that start a runtime, and the directories that vendors install runtimes to.
pub proof fn law_names_to_look_for()
    ensures
        java_program_names() == seq!["java.exe"@] + seq!["javaw.exe"@],
        vendor_names() == seq!["Java"@, "Eclipse Adoptium"@, "Adoptium"@, "Microsoft"@] + seq![
            "BellSoft"@,
            "Amazon Corretto"@,
            "Zulu"@,
        ] + seq!["Azul"@, "Oracle"@, "GraalVM"@],
{
    assert(java_program_names() =~= seq!["java.exe"@] + seq!["javaw.exe"@]);
    assert(vendor_names() =~= seq!["Java"@, "Eclipse Adoptium"@, "Adoptium"@, "Microsoft"@] + seq![
        "BellSoft"@,
        "Amazon Corretto"@,
        "Zulu"@,
    ] + seq!["Azul"@, "Oracle"@, "GraalVM"@]);
}

proof fn lemma_vendor_place(roots: Seq<Seq<char>>, i: int, j: int)
    requires
        0 <= i < roots.len(),
        0 <= j < 10,
    ensures
        vendor_searches(roots).len() == 10 * roots.len(),
        vendor_searches(roots)[10 * i + j] == (JavaSearchModel::Vendor {
            root: roots[i],
            vendor: vendor_names()[j],
        }),
    decreases roots.len(),
{
    let init = roots.drop_last();
    let before = vendor_searches(init);
    let here = vendor_searches_in(roots.last());
    assert(here.len() == 10);
    if i < init.len() {
        lemma_vendor_place(init, i, j);
        assert(vendor_searches(roots)[10 * i + j] == before[10 * i + j]);
    } else {
        if init.len() > 0 {
            lemma_vendor_place(init, 0, 0);
        }
        assert(before.len() == 10 * init.len());
        assert(vendor_searches(roots)[10 * i + j] == here[j]);
    }
}

proof fn lemma_four_parts(
    front: Seq<JavaSearchModel>,
    homes: Seq<JavaSearchModel>,
    vendors: Seq<JavaSearchModel>,
    back: Seq<JavaSearchModel>,
    k: int,
)
    requires
        front.len() == 2,
        back.len() == 2,
        0 <= k < vendors.len(),
    ensures
        ({
            let all = front + homes + vendors + back;
            &&& all.len() == 4 + homes.len() + vendors.len()
            &&& all[0] == front[0]
            &&& all[1] == front[1]
            &&& homes.len() == 2 ==> all[2] == homes[0] && all[3] == homes[1]
            &&& all[2 + homes.len() + k] == vendors[k]
            &&& all[all.len() - 2] == back[0]
            &&& all[all.len() - 1] == back[1]
        }),
{
}

/// The places to look in, by their position: the two programs of the bundled runtime, the two of the
/// runtime that the environment names if it names one, every vendor below every directory, and the
/// two programs on the search path.
pub proof fn law_places_to_look_in(
    required_major: u8,
    home: Seq<char>,
    roots: Seq<Seq<char>>,
    i: int,
    j: int,
)
    requires
        0 <= i < roots.len(),
        0 <= j < 10,
    ensures
        ({
            let plan = java_searches(required_major, Some(home), roots);
            &&& plan.len() == 6 + 10 * roots.len()
            &&& plan[0] == JavaSearchModel::Bundled(bundled_java(required_major, "java.exe"@))
            &&& plan[1] == JavaSearchModel::Bundled(bundled_java(required_major, "javaw.exe"@))
            &&& plan[2] == (JavaSearchModel::Home { home, program: "java.exe"@ })
            &&& plan[3] == (JavaSearchModel::Home { home, program: "javaw.exe"@ })
            &&& plan[4 + 10 * i + j] == (JavaSearchModel::Vendor {
                root: roots[i],
                vendor: vendor_names()[j],
            })
            &&& plan[plan.len() - 2] == JavaSearchModel::OnPath("java.exe"@)
            &&& plan[plan.len() - 1] == JavaSearchModel::OnPath("javaw.exe"@)
        }),
        ({
            let plan = java_searches(required_major, None, roots);
            &&& plan.len() == 4 + 10 * roots.len()
            &&& plan[0] == JavaSearchModel::Bundled(bundled_java(required_major, "java.exe"@))
            &&& plan[1] == JavaSearchModel::Bundled(bundled_java(required_major, "javaw.exe"@))
            &&& plan[2 + 10 * i + j] == (JavaSearchModel::Vendor {
                root: roots[i],
                vendor: vendor_names()[j],
            })
            &&& plan[plan.len() - 2] == JavaSearchModel::OnPath("java.exe"@)
            &&& plan[plan.len() - 1] == JavaSearchModel::OnPath("javaw.exe"@)
        }),
{
    lemma_vendor_place(roots, i, j);
    let vendors = vendor_searches(roots);
    let homes = home_searches(Some(home));
    let front = seq![
        JavaSearchModel::Bundled(bundled_java(required_major, "java.exe"@)),
        JavaSearchModel::Bundled(bundled_java(required_major, "javaw.exe"@)),
    ];
    let back = seq![JavaSearchModel::OnPath("java.exe"@), JavaSearchModel::OnPath("javaw.exe"@)];
    lemma_four_parts(front, homes, vendors, back, 10 * i + j);
    lemma_four_parts(front, home_searches(None), vendors, back, 10 * i + j);
}

/// A path that was looked at becomes the last candidate if it exists and no path with the same
/// components was found to exist before it; else the candidates stay as they are.
pub proof fn law_new_candidate_comes_last(found: Seq<ProbedPathModel>, probed: ProbedPathModel)
    ensures
        java_candidates(Seq::empty()).len() == 0,
        probed.exists && (forall|i: int|
            0 <= i < found.len() && (#[trigger] found[i]).exists ==> found[i].path.components
                != probed.path.components) ==> java_candidates(found.push(probed))
            == java_candidates(found).push(probed.path),
        !probed.exists || (exists|i: int|
            0 <= i < found.len() && (#[trigger] found[i]).exists && found[i].path.components
                == probed.path.components) ==> java_candidates(found.push(probed))
            == java_candidates(found),
{
    let all = found.push(probed);
    assert(all.drop_last() =~= found);
    assert(all.last() == probed);
    law_candidates_are_what_exists(found, probed.path.components);
}

/// A path joins candidates that it is not among, if it exists, behind them.
pub proof fn law_candidate_joins_once(
    candidates: Seq<JavaPathModel>,
    path: JavaPathModel,
    there: bool,
)
    ensures
        there && (forall|i: int|
            0 <= i < candidates.len() ==> (#[trigger] candidates[i]).components != path.components)
            ==> with_candidate(candidates, path, there) == candidates.push(path),
        !there || (exists|i: int|
            0 <= i < candidates.len() && (#[trigger] candidates[i]).components == path.components)
            ==> with_candidate(candidates, path, there) == candidates,
{
}

/// The runtime that is chosen is new enough, and of those that are new enough none is newer; of those
/// that are as new none has wider pointers; of those that are alike in both none has an earlier path.
pub proof fn law_newest_and_widest_is_chosen(
    found: Seq<ProbedJavaModel>,
    required_major: u8,
    path: Seq<char>,
)
    requires
        is_best_path(found, required_major, path),
    ensures
        exists|i: int|
            {
                &&& 0 <= i < found.len()
                &&& (#[trigger] found[i]).path == path
                &&& found[i].major matches Some(major) && major >= required_major
                &&& forall|j: int|
                    0 <= j < found.len() && ((#[trigger] found[j]).major matches Some(major)
                        && major >= required_major) ==> {
                        let newest = found[i].major->Some_0;
                        let widest = if found[i].bits is Some {
                            found[i].bits->Some_0
                        } else {
                            0
                        };
                        let other = if found[j].bits is Some {
                            found[j].bits->Some_0
                        } else {
                            0
                        };
                        &&& found[j].major->Some_0 <= newest
                        &&& found[j].major->Some_0 == newest ==> other <= widest
                        &&& found[j].major->Some_0 == newest && other == widest ==> !text_before(
                            found[j].path,
                            path,
                        )
                    }
            },
{
    let i = choose|i: int|
        0 <= i < found.len() && is_best(found, required_major, i) && (#[trigger] found[i]).path
            == path;
    assert(found[i].path == path);
    assert forall|j: int|
        0 <= j < found.len() && ((#[trigger] found[j]).major matches Some(major) && major
            >= required_major) implies !is_preferred(found[j], found[i]) by {
        assert(is_suitable(found[j], required_major));
    }
}

/// None of the runtimes will do exactly if each is older than needed or of unknown age.
pub proof fn law_when_no_runtime_will_do(found: Seq<ProbedJavaModel>, required_major: u8)
    ensures
        none_suitable(found, required_major) <==> forall|i: int|
            0 <= i < found.len() ==> ((#[trigger] found[i]).major is None || found[i].major->Some_0
                < required_major),
{
    if forall|i: int|
        0 <= i < found.len() ==> ((#[trigger] found[i]).major is None || found[i].major->Some_0
            < required_major) {
        assert forall|i: int| 0 <= i < found.len() implies !is_suitable(
            #[trigger] found[i],
            required_major,
        ) by {
            assert(found[i].major is None || found[i].major->Some_0 < required_major);
        }
    }
    if none_suitable(found, required_major) {
        assert forall|i: int| 0 <= i < found.len() implies ((#[trigger] found[i]).major is None
            || found[i].major->Some_0 < required_major) by {
            assert(!is_suitable(found[i], required_major));
        }
    }
}

/// A profile gets its own runtime where that exists, else the bundled `java.exe`, else the bundled
/// `javaw.exe`, and each is marked with where it comes from; without any there is nothing at hand.
pub proof fn law_runtime_at_hand(profile: ProfileModel, probe: JavaProbe, path: Seq<char>)
    ensures
        profile.java_path == Some(path) && probe.override_exists ==> local_java(profile, probe)
            == Some((path, "profileOverride"@)),
        !(profile.java_path is Some && probe.override_exists) ==> {
            &&& probe.bundled_java matches Some(java) ==> local_java(profile, probe) == Some(
                (java@, "bundledTemurin"@),
            )
            &&& probe.bundled_java is None ==> (probe.bundled_javaw matches Some(java)
                ==> local_java(profile, probe) == Some((java@, "bundledTemurin"@)))
            &&& probe.bundled_java is None && probe.bundled_javaw is None ==> local_java(
                profile,
                probe,
            ) is None
        },
{
}

/// The `java.exe` beside a runtime takes its place exactly if the runtime is called `javaw.exe`, in
/// whatever case, and the other is there.
pub proof fn law_console_program_replaces_javaw(
    path: Seq<char>,
    name: Seq<char>,
    sibling: Seq<char>,
)
    ensures
        console_program_path(path, None, Some(sibling)) == path,
        console_program_path(path, Some(name), None) == path,
        ascii_lower_text(name) == "javaw.exe"@ ==> console_program_path(
            path,
            Some(name),
            Some(sibling),
        ) == sibling,
        ascii_lower_text(name) != "javaw.exe"@ ==> console_program_path(
            path,
            Some(name),
            Some(sibling),
        ) == path,
{
}

/// The Java that is given for a game version with two numbers, as it is written.
pub proof fn law_java_that_a_version_gets(version: &str, given: u8, minor: u8, rest: Seq<char>)
    requires
        call_ensures(minecraft_java_major, (version,), given),
        version@ == "1."@ + decimal_text(minor as nat) || version@ == "1."@ + decimal_text(
            minor as nat,
        ) + "."@ + rest,
    ensures
        given == 8 <==> minor <= 17,
        given == 17 <==> 18 <= minor <= 20,
        given == 21 <==> minor >= 21,
{
    law_java_for_a_written_version(minor, rest);
}

/// A runtime is refused exactly if it is known to be older than needed.
pub proof fn law_only_old_runtimes_are_refused(
    required: u8,
    minecraft_version: &str,
    found: Option<u8>,
    path: &str,
    checked: Result<(), LauncherError>,
    major: u8,
)
    requires
        call_ensures(check_java_version, (required, minecraft_version, found, path), checked),
    ensures
        found is None ==> checked is Ok,
        found == Some(major) ==> (checked is Ok <==> major >= required),
        checked matches Err(error) ==> error is JavaTooOld,
{
}

/// Every line of the output of a search is one path, without the white space around it.
pub proof fn law_every_line_is_a_path(output: &str, paths: Vec<String>, i: int)
    requires
        call_ensures(paths_in_output, (output,), paths),
    ensures
        paths.deep_view().len() == lines_text(output@).len(),
        0 <= i < paths.deep_view().len() ==> paths.deep_view()[i] == trim_text(
            lines_text(output@)[i],
        ),
{
}

/// The memory that is given is what is asked for, within its bounds.
pub proof fn law_memory_that_is_given(requested: u32, java_bits: Option<u32>, ram: u32)
    requires
        call_ensures(effective_ram_mb, (requested, java_bits), ram),
    ensures
        1024 <= ram <= 8192,
        java_bits == Some(32u32) ==> ram == 1024,
        java_bits != Some(32u32) && 1024 <= requested <= 8192 ==> ram == requested,
        java_bits != Some(32u32) && requested > 8192 ==> ram == 8192,
{
    law_memory_is_what_is_asked_for(requested, java_bits);
}

/// The installed runtimes are searched exactly where none is at hand.
pub proof fn law_search_only_without_a_runtime_at_hand(
    profile: &Profile,
    probe: &JavaProbe,
    needed: bool,
)
    requires
        call_ensures(needs_system_java, (profile, probe), needed),
    ensures
        needed <==> !(profile.java_path is Some && probe.override_exists)
            && probe.bundled_java is None && probe.bundled_javaw is None,
{
}

/// The runtime that a profile gets, and where it is said to come from: its own, else a bundled one,
/// else an installed one that is new enough.
pub proof fn law_runtime_of_a_profile(
    profile: &Profile,
    installed_major: Option<u8>,
    probe: &JavaProbe,
    system: &Vec<ProbedJava>,
    java: JavaResolution,
)
    requires
        call_ensures(resolve_java_for_profile, (profile, installed_major, probe, system), java),
    ensures
        installed_major matches Some(major) ==> java.required_major == major,
        profile.java_path is Some && probe.override_exists ==> java.resolved_path.deep_view()
            == profile.java_path.deep_view() && java.source.deep_view() == Some("profileOverride"@),
        !(profile.java_path is Some && probe.override_exists) && probe.bundled_java is Some ==> {
            &&& java.resolved_path.deep_view() == probe.bundled_java.deep_view()
            &&& java.source.deep_view() == Some("bundledTemurin"@)
        },
        !(profile.java_path is Some && probe.override_exists) && probe.bundled_java is None
            && probe.bundled_javaw is Some ==> {
            &&& java.resolved_path.deep_view() == probe.bundled_javaw.deep_view()
            &&& java.source.deep_view() == Some("bundledTemurin"@)
        },
        !(profile.java_path is Some && probe.override_exists) && probe.bundled_java is None
            && probe.bundled_javaw is None ==> {
            &&& java.resolved_path is None <==> forall|i: int|
                0 <= i < system.deep_view().len() ==> ((#[trigger] system.deep_view()[i]).major
                    is None || system.deep_view()[i].major->Some_0 < java.required_major)
            &&& java.resolved_path is Some ==> java.source.deep_view() == Some("systemInstalled"@)
        },
{
    law_when_no_runtime_will_do(system.deep_view(), java.required_major);
}

} // verus!
