//! Library files and native libraries on disk.
//!
//! A directory is given as a [`Listing`], a tree of what was found there.
use vstd::prelude::*;

use crate::error::LauncherError;
use crate::external::file_name_of;
use crate::filename::{
    has_name, is_portable_path, law_portable_path_has_one_name, may_be_name, name_in, PathStyle,
};
use crate::text::{
    ascii_lower, ascii_lower_text, contains, contains_text, law_ascii_lower_changes_capitals_only,
    law_replace_of_one_character, occurs_at, replace, replace_text, same_ignoring_ascii_case,
    same_text, starts_with,
};

verus! {

/// A file: its path, and its name and its extension where they can be read as text.
#[derive(Debug)]
pub struct FoundFile {
    pub path: String,
    pub name: Option<String>,
    pub extension: Option<String>,
}

/// What a [`FoundFile`] holds.
pub struct FileModel {
    pub path: Seq<char>,
    pub name: Option<Seq<char>>,
    pub extension: Option<Seq<char>>,
}

impl DeepView for FoundFile {
    type V = FileModel;

    open spec fn deep_view(&self) -> FileModel {
        FileModel {
            path: self.path@,
            name: self.name.deep_view(),
            extension: self.extension.deep_view(),
        }
    }
}

impl FoundFile {
    /// The same file once more.
    pub fn copy(&self) -> (copy: FoundFile)
        ensures
            copy.deep_view() == self.deep_view(),
    {
        let name = match &self.name {
            Some(name) => Some(name.clone()),
            None => None,
        };
        let extension = match &self.extension {
            Some(extension) => Some(extension.clone()),
            None => None,
        };
        FoundFile { path: self.path.clone(), name, extension }
    }
}

/// An entry of a directory.
#[derive(Debug)]
pub enum Node {
    /// An entry that could not be read.
    Unreadable,
    Directory(Listing),
    File(FoundFile),
}

/// What was found at the place of a directory.
#[derive(Debug)]
pub enum Listing {
    /// Nothing is there.
    Missing,
    /// It could not be read.
    Failed,
    Entries(Vec<Node>),
}

// ---------------------------------------------------------------------------
// Library files
// ---------------------------------------------------------------------------

/// Whether a file is a library file.
pub open spec fn is_jar(file: FileModel) -> bool {
    file.extension matches Some(extension) && ascii_lower_text(extension) == ascii_lower_text(
        "jar"@,
    )
}

/// The library files in a directory and below it, in the order of the entries; nothing where the
/// directory, one below it or an entry of one cannot be read.
pub open spec fn jars_in(listing: Listing) -> Option<Seq<FileModel>>
    decreases listing, 0nat,
{
    match listing {
        Listing::Missing => Some(Seq::empty()),
        Listing::Failed => None,
        Listing::Entries(nodes) => jars_among(nodes@, nodes@.len()),
    }
}

/// The library files in the first `count` entries of a directory.
pub open spec fn jars_among(nodes: Seq<Node>, count: nat) -> Option<Seq<FileModel>>
    decreases nodes, count,
{
    if count == 0 || count > nodes.len() {
        Some(Seq::empty())
    } else {
        match jars_among(nodes, (count - 1) as nat) {
            None => None,
            Some(before) => match nodes[count - 1] {
                Node::Unreadable => None,
                Node::Directory(listing) => match jars_in(listing) {
                    None => None,
                    Some(more) => Some(before + more),
                },
                Node::File(file) => if is_jar(file.deep_view()) {
                    Some(before.push(file.deep_view()))
                } else {
                    Some(before)
                },
            },
        }
    }
}

fn is_jar_file(file: &FoundFile) -> (jar: bool)
    ensures
        jar == is_jar(file.deep_view()),
{
    match &file.extension {
        Some(extension) => same_ignoring_ascii_case(extension.as_str(), "jar"),
        None => false,
    }
}

/// The library files in a directory and below it; nothing where something cannot be read.
pub fn collect_jars_recursive(root: &Listing) -> (jars: Option<Vec<FoundFile>>)
    ensures
        jars.deep_view() == jars_in(*root),
    decreases root,
{
    match root {
        Listing::Missing => {
            let none: Vec<FoundFile> = Vec::new();
            assert(none.deep_view() =~= Seq::empty());
            Some(none)
        },
        Listing::Failed => None,
        Listing::Entries(nodes) => {
            let mut jars: Vec<FoundFile> = Vec::new();
            let mut i: usize = 0;
            assert(jars.deep_view() =~= Seq::empty());
            while i < nodes.len()
                invariant
                    i <= nodes@.len(),
                    root == Listing::Entries(*nodes),
                    jars_among(nodes@, i as nat) == Some(jars.deep_view()),
                decreases nodes@.len() - i,
            {
                let ghost before = jars.deep_view();
                match &nodes[i] {
                    Node::Unreadable => {
                        proof {
                            lemma_failure_spreads(nodes@, (i + 1) as nat, nodes@.len());
                        }
                        return None;
                    },
                    Node::Directory(listing) => {
                        assert(decreases_to!(*root => root->Entries_0));
                        assert(decreases_to!(*nodes => nodes@[i as int]));
                        assert(decreases_to!(nodes@[i as int] => nodes@[i as int]->Directory_0));
                        match collect_jars_recursive(listing) {
                            Some(found) => {
                                let mut more = found;
                                let ghost added = more.deep_view();
                                jars.append(&mut more);
                                assert(jars.deep_view() =~= before + added);
                            },
                            None => {
                                proof {
                                    lemma_failure_spreads(nodes@, (i + 1) as nat, nodes@.len());
                                }
                                return None;
                            },
                        }
                    },
                    Node::File(file) => {
                        if is_jar_file(file) {
                            jars.push(file.copy());
                            assert(jars.deep_view() =~= before.push(file.deep_view()));
                        }
                    },
                }
                i = i + 1;
            }
            Some(jars)
        },
    }
}

proof fn lemma_failure_spreads(nodes: Seq<Node>, at: nat, count: nat)
    requires
        at <= count <= nodes.len(),
        jars_among(nodes, at) is None,
    ensures
        jars_among(nodes, count) is None,
    decreases count,
{
    if at < count {
        lemma_failure_spreads(nodes, at, (count - 1) as nat);
    }
}

// ---------------------------------------------------------------------------
// Native libraries
// ---------------------------------------------------------------------------

/// Whether a file is a native library.
pub open spec fn is_native_library(file: FileModel) -> bool {
    file.extension matches Some(extension) && {
        let lowered = ascii_lower_text(extension);
        lowered == "dll"@ || lowered == "so"@ || lowered == "dylib"@
    }
}

/// Whether a directory has something native in it or below it: a library file, or a native
/// library. Entries that cannot be read do not count.
pub open spec fn has_natives(listing: Listing) -> bool
    decreases listing,
{
    match listing {
        Listing::Entries(nodes) => {
            ||| jars_in(listing) matches Some(jars) && jars.len() > 0
            ||| exists|i: int|
                0 <= i < nodes@.len() && (match #[trigger] nodes@[i] {
                    Node::Unreadable => false,
                    Node::Directory(below) => has_natives(below),
                    Node::File(file) => is_native_library(file.deep_view()),
                })
        },
        _ => false,
    }
}

fn is_native_file(file: &FoundFile) -> (native: bool)
    ensures
        native == is_native_library(file.deep_view()),
{
    match &file.extension {
        Some(extension) => {
            let lowered = ascii_lower(extension.as_str());
            same_text(lowered.as_str(), "dll") || same_text(lowered.as_str(), "so") || same_text(
                lowered.as_str(),
                "dylib",
            )
        },
        None => false,
    }
}

/// Whether a directory has something native in it or below it.
pub fn has_native_binaries(dir: &Listing) -> (found: bool)
    ensures
        found == has_natives(*dir),
    decreases dir,
{
    match dir {
        Listing::Entries(nodes) => {
            if let Some(jars) = collect_jars_recursive(dir) {
                assert(jars.deep_view().len() == jars@.len());
                if jars.len() > 0 {
                    return true;
                }
            }
            let mut i: usize = 0;
            while i < nodes.len()
                invariant
                    i <= nodes@.len(),
                    dir == Listing::Entries(*nodes),
                    forall|k: int|
                        0 <= k < i ==> !(match #[trigger] nodes@[k] {
                            Node::Unreadable => false,
                            Node::Directory(below) => has_natives(below),
                            Node::File(file) => is_native_library(file.deep_view()),
                        }),
                decreases nodes@.len() - i,
            {
                let found = match &nodes[i] {
                    Node::Unreadable => false,
                    Node::Directory(below) => {
                        assert(decreases_to!(*dir => dir->Entries_0));
                        assert(decreases_to!(*nodes => nodes@[i as int]));
                        assert(decreases_to!(nodes@[i as int] => nodes@[i as int]->Directory_0));
                        has_native_binaries(below)
                    },
                    Node::File(file) => is_native_file(file),
                };
                if found {
                    assert(match nodes@[i as int] {
                        Node::Unreadable => false,
                        Node::Directory(below) => has_natives(below),
                        Node::File(file) => is_native_library(file.deep_view()),
                    });
                    return true;
                }
                i = i + 1;
            }
            false
        },
        _ => false,
    }
}

/// Whether a library file holds native libraries, going by its name.
pub open spec fn is_native_jar(file: FileModel) -> bool {
    file.name matches Some(name) && contains_text(ascii_lower_text(name), "natives"@)
}

/// The library files that native libraries are restored from, in order; nothing where the library
/// directory cannot be read.
pub fn restore_natives_from_library_cache(libraries: &Listing) -> (jars: Option<Vec<FoundFile>>)
    ensures
        jars.deep_view() == (match jars_in(*libraries) {
            Some(all) => Some(all.filter(|file: FileModel| is_native_jar(file))),
            None => None,
        }),
{
    let found = match collect_jars_recursive(libraries) {
        Some(found) => found,
        None => return None,
    };
    let mut jars: Vec<FoundFile> = Vec::new();
    let mut i: usize = 0;
    let ghost wanted = |file: FileModel| is_native_jar(file);
    let ghost all = found.deep_view();
    proof {
        reveal(Seq::filter);
        assert(all.take(0).filter(wanted) =~= Seq::<FileModel>::empty());
    }
    while i < found.len()
        invariant
            i <= found@.len(),
            all == found.deep_view(),
            wanted == (|file: FileModel| is_native_jar(file)),
            jars.deep_view() == all.take(i as int).filter(wanted),
        decreases found@.len() - i,
    {
        let ghost before = jars.deep_view();
        proof {
            reveal(Seq::filter);
            assert(all.take(i + 1).drop_last() =~= all.take(i as int));
        }
        let native = match &found[i].name {
            Some(name) => {
                let lowered = ascii_lower(name.as_str());
                contains(lowered.as_str(), "natives")
            },
            None => false,
        };
        assert(native == is_native_jar(all[i as int]));
        if native {
            jars.push(found[i].copy());
            assert(jars.deep_view() =~= before.push(all[i as int]));
        }
        i = i + 1;
    }
    assert(all.take(i as int) =~= all);
    Some(jars)
}

// ---------------------------------------------------------------------------
// Extracting native libraries
// ---------------------------------------------------------------------------

/// The name of an archive entry with `/` as its only separator.
pub open spec fn entry_path(entry_name: Seq<char>) -> Seq<char> {
    replace_text(entry_name, "\\"@, "/"@)
}

/// Whether an archive entry is passed over: a directory, or a file of the manifest.
pub open spec fn is_skipped_entry(entry_name: Seq<char>) -> bool {
    let path = entry_path(entry_name);
    ||| path.len() > 0 && path.last() == '/'
    ||| "META-INF/"@.is_prefix_of(path)
}

proof fn lemma_entry_path_has_no_backslash(name: Seq<char>)
    ensures
        !entry_path(name).contains('\\'),
    decreases name.len(),
{
    reveal_strlit("\\");
    reveal_strlit("/");
    let path = entry_path(name);
    if name.len() > 0 {
        let rest = name.skip(1);
        lemma_entry_path_has_no_backslash(rest);
        assert("\\"@ =~= seq!['\\']);
        assert("/"@ =~= seq!['/']);
        if "\\"@.is_prefix_of(name) {
            assert(path =~= seq!['/'] + entry_path(rest));
        } else {
            assert(name[0] != '\\') by {
                if name[0] == '\\' {
                    assert("\\"@ =~= name.subrange(0, 1));
                }
            }
            assert(path =~= seq![name[0]] + entry_path(rest));
        }
        assert forall|i: int| 0 <= i < path.len() implies path[i] != '\\' by {
            if i > 0 {
                assert(path[i] == entry_path(rest)[i - 1]);
                assert(entry_path(rest).contains(entry_path(rest)[i - 1]));
            }
        }
    }
}

fn skips_entry(path: &str) -> (skipped: bool)
    ensures
        skipped == (path@.len() > 0 && path@.last() == '/' || "META-INF/"@.is_prefix_of(path@)),
{
    let chars = crate::text::chars_of(path);
    (chars.len() > 0 && chars[chars.len() - 1] == '/') || starts_with(path, "META-INF/")
}

/// What becomes of an archive entry whose last component is `file_name`, if it has a usable one:
/// it is passed over, extracted under that name, or refused.
pub fn native_entry_target(entry_name: &str, file_name: Option<String>) -> (target: Result<
    Option<String>,
    LauncherError,
>)
    ensures
        is_skipped_entry(entry_name@) ==> target == Ok::<Option<String>, LauncherError>(None),
        !is_skipped_entry(entry_name@) && file_name is Some ==> target == Ok::<
            Option<String>,
            LauncherError,
        >(file_name),
        !is_skipped_entry(entry_name@) && file_name is None ==> target == Err::<
            Option<String>,
            LauncherError,
        >(LauncherError::InvalidNativeEntry),
{
    proof {
        reveal_strlit("\\");
    }
    let path = replace(entry_name, "\\", "/");
    if skips_entry(path.as_str()) {
        return Ok(None);
    }
    match file_name {
        Some(name) => Ok(Some(name)),
        None => Err(LauncherError::InvalidNativeEntry),
    }
}

/// What becomes of an archive entry: it is passed over, extracted under the name that its path ends
/// in, or refused where it ends in none. It is extracted into the native directory itself: the name has no separator and does
/// not lead out.
pub fn extract_native_jar(entry_name: &str) -> (target: Result<Option<String>, LauncherError>)
    ensures
        match target {
            Ok(None) => is_skipped_entry(entry_name@),
            Ok(Some(name)) => {
                &&& !is_skipped_entry(entry_name@)
                &&& name@.len() > 0
                &&& !name@.contains('/')
                &&& name@ != seq!['.', '.']
                &&& may_be_name(entry_path(entry_name@), Some(name@))
            },
            Err(error) => {
                &&& !is_skipped_entry(entry_name@)
                &&& error is InvalidNativeEntry
                &&& may_be_name(entry_path(entry_name@), None)
            },
        },
        !is_skipped_entry(entry_name@) && has_name(entry_path(entry_name@)) ==> target is Ok,
        !is_skipped_entry(entry_name@) && is_portable_path(entry_path(entry_name@)) ==> {
            match name_in(entry_path(entry_name@), PathStyle::Unix) {
                Some(name) => target is Ok && target->Ok_0.deep_view() == Some(name),
                None => target is Err,
            }
        },
{
    proof {
        reveal_strlit("\\");
        lemma_entry_path_has_no_backslash(entry_name@);
        if is_portable_path(entry_path(entry_name@)) {
            law_portable_path_has_one_name(entry_path(entry_name@));
        }
    }
    let path = replace(entry_name, "\\", "/");
    let file_name = file_name_of(path.as_str());
    native_entry_target(entry_name, file_name)
}

// ---------------------------------------------------------------------------
// Laws
// ---------------------------------------------------------------------------

/// Only library files are collected.
pub proof fn law_only_jars_are_collected(listing: Listing, i: int)
    requires
        jars_in(listing) is Some,
        0 <= i < jars_in(listing)->Some_0.len(),
    ensures
        is_jar(jars_in(listing)->Some_0[i]),
    decreases listing, 0nat,
{
    if let Listing::Entries(nodes) = listing {
        assert(decreases_to!(listing => nodes@));
        lemma_only_jars_are_among(nodes@, nodes@.len(), i);
    }
}

proof fn lemma_only_jars_are_among(nodes: Seq<Node>, count: nat, i: int)
    requires
        jars_among(nodes, count) is Some,
        0 <= i < jars_among(nodes, count)->Some_0.len(),
    ensures
        is_jar(jars_among(nodes, count)->Some_0[i]),
    decreases nodes, count,
{
    if 0 < count <= nodes.len() {
        let before = jars_among(nodes, (count - 1) as nat)->Some_0;
        if i < before.len() {
            lemma_only_jars_are_among(nodes, (count - 1) as nat, i);
        } else if let Node::Directory(below) = nodes[count - 1] {
            assert(decreases_to!(nodes => nodes[count - 1]));
            law_only_jars_are_collected(below, i - before.len());
        }
    }
}

/// A directory with a native library in it is found to have one, whatever else is in it.
pub proof fn law_native_library_is_found(nodes: Vec<Node>, i: int)
    requires
        0 <= i < nodes@.len(),
        nodes@[i] is File,
        is_native_library(nodes@[i]->File_0.deep_view()),
    ensures
        has_natives(Listing::Entries(nodes)),
{
    let listing = Listing::Entries(nodes);
    assert(match nodes@[i] {
        Node::Unreadable => false,
        Node::Directory(below) => has_natives(below),
        Node::File(file) => is_native_library(file.deep_view()),
    });
    assert(listing is Entries);
}

/// A library file has the extension `jar`, in whatever case.
pub proof fn law_what_a_library_file_is(file: FileModel, extension: Seq<char>)
    ensures
        file.extension is None ==> !is_jar(file),
        file.extension == Some(extension) ==> (is_jar(file) <==> {
            &&& extension.len() == 3
            &&& extension[0] == 'j' || extension[0] == 'J'
            &&& extension[1] == 'a' || extension[1] == 'A'
            &&& extension[2] == 'r' || extension[2] == 'R'
        }),
{
    reveal_strlit("jar");
    let word = ascii_lower_text("jar"@);
    let lowered = ascii_lower_text(extension);
    law_ascii_lower_changes_capitals_only("jar"@);
    law_ascii_lower_changes_capitals_only(extension);
    assert(word.len() == 3);
    assert(word[0] == 'j' && word[1] == 'a' && word[2] == 'r');
    if extension.len() == 3 {
        assert(lowered[0] == word[0] <==> extension[0] == 'j' || extension[0] == 'J');
        assert(lowered[1] == word[1] <==> extension[1] == 'a' || extension[1] == 'A');
        assert(lowered[2] == word[2] <==> extension[2] == 'r' || extension[2] == 'R');
        if lowered[0] == word[0] && lowered[1] == word[1] && lowered[2] == word[2] {
            assert(lowered =~= word);
        }
    }
}

/// A native library has one of three extensions, in whatever case.
pub proof fn law_what_a_native_library_is(file: FileModel, extension: Seq<char>)
    ensures
        file.extension is None ==> !is_native_library(file),
        file.extension == Some(extension) ==> (is_native_library(file) <==> ascii_lower_text(
            extension,
        ) == "dll"@ || ascii_lower_text(extension) == "so"@ || ascii_lower_text(extension)
            == "dylib"@),
{
}

/// A library file holds native libraries where its name says so, in whatever case.
pub proof fn law_what_a_native_library_file_is(file: FileModel, name: Seq<char>)
    ensures
        file.name is None ==> !is_native_jar(file),
        file.name == Some(name) ==> (is_native_jar(file) <==> exists|i: int|
            0 <= i <= name.len() - 7 && #[trigger] ascii_lower_text(name).subrange(i, i + 7)
                == "natives"@),
{
    reveal_strlit("natives");
    let lowered = ascii_lower_text(name);
    if contains_text(lowered, "natives"@) {
        let i = choose|i: int| occurs_at(lowered, "natives"@, i);
        assert(lowered.subrange(i, i + 7) == "natives"@);
    }
    if exists|i: int|
        0 <= i <= name.len() - 7 && #[trigger] lowered.subrange(i, i + 7) == "natives"@ {
        let i = choose|i: int|
            0 <= i <= name.len() - 7 && #[trigger] lowered.subrange(i, i + 7) == "natives"@;
        assert(occurs_at(lowered, "natives"@, i));
    }
}

/// What is collected follows the entries: of a directory whose entries are those of two others, one
/// after the other, it is what is collected of the two, one after the other, and nothing where
/// either cannot be read.
pub proof fn law_library_files_follow_the_entries(
    whole: Vec<Node>,
    left: Vec<Node>,
    right: Vec<Node>,
)
    requires
        whole@ == left@ + right@,
    ensures
        jars_in(Listing::Entries(whole)) == (match (
            jars_in(Listing::Entries(left)),
            jars_in(Listing::Entries(right)),
        ) {
            (Some(first), Some(second)) => Some(first + second),
            _ => None,
        }),
{
    lemma_jars_add(left@, right@, right@.len());
}

proof fn lemma_jars_of_front(left: Seq<Node>, right: Seq<Node>, count: nat)
    requires
        count <= left.len(),
    ensures
        jars_among(left + right, count) == jars_among(left, count),
    decreases count,
{
    if count > 0 {
        lemma_jars_of_front(left, right, (count - 1) as nat);
        assert((left + right)[count - 1] == left[count - 1]);
    }
}

proof fn lemma_jars_add(left: Seq<Node>, right: Seq<Node>, count: nat)
    requires
        count <= right.len(),
    ensures
        jars_among(left + right, left.len() + count) == (match (
            jars_among(left, left.len()),
            jars_among(right, count),
        ) {
            (Some(first), Some(second)) => Some(first + second),
            _ => None,
        }),
    decreases count,
{
    if count == 0 {
        lemma_jars_of_front(left, right, left.len());
        if let Some(first) = jars_among(left, left.len()) {
            assert(first + Seq::<FileModel>::empty() =~= first);
        }
    } else {
        lemma_jars_add(left, right, (count - 1) as nat);
        assert((left + right)[left.len() + count - 1] == right[count - 1]);
        if let Some(first) = jars_among(left, left.len()) {
            if let Some(second) = jars_among(right, (count - 1) as nat) {
                match right[count - 1] {
                    Node::File(file) => {
                        assert((first + second).push(file.deep_view()) =~= first + second.push(
                            file.deep_view(),
                        ));
                    },
                    Node::Directory(below) => {
                        if let Some(more) = jars_in(below) {
                            assert((first + second) + more =~= first + (second + more));
                        }
                    },
                    Node::Unreadable => {},
                }
            }
        }
    }
}

/// What one entry gives: a library file itself, a directory what is collected in it, any other file
/// nothing, and an entry that cannot be read spoils all. A directory that is not there has nothing,
/// one that cannot be read gives no answer.
pub proof fn law_library_files_of_one_entry(nodes: Vec<Node>, node: Node)
    ensures
        jars_in(Listing::Missing) == Some(Seq::<FileModel>::empty()),
        jars_in(Listing::Failed) is None,
        nodes@.len() == 0 ==> jars_in(Listing::Entries(nodes)) == Some(Seq::<FileModel>::empty()),
        nodes@ == seq![node] ==> {
            &&& node is Unreadable ==> jars_in(Listing::Entries(nodes)) is None
            &&& node matches Node::Directory(below) ==> jars_in(Listing::Entries(nodes)) == jars_in(
                below,
            )
            &&& node matches Node::File(file) ==> (is_jar(file.deep_view()) ==> jars_in(
                Listing::Entries(nodes),
            ) == Some(seq![file.deep_view()]))
            &&& node matches Node::File(file) ==> (!is_jar(file.deep_view()) ==> jars_in(
                Listing::Entries(nodes),
            ) == Some(Seq::<FileModel>::empty()))
        },
{
    let none = Seq::<FileModel>::empty();
    if nodes@ == seq![node] {
        assert(nodes@.len() == 1);
        assert(nodes@[0] == node);
        assert(jars_among(nodes@, 0) == Some(none));
        match node {
            Node::File(file) => {
                assert(none.push(file.deep_view()) =~= seq![file.deep_view()]);
            },
            Node::Directory(below) => {
                if let Some(more) = jars_in(below) {
                    assert(none + more =~= more);
                }
            },
            Node::Unreadable => {},
        }
        let listing = Listing::Entries(nodes);
        assert(jars_in(listing) == jars_among(nodes@, 1));
    }
}

/// A directory has something native where it has a library file, itself or below it, all of it being
/// readable, or where one of its files is a native library, or where a directory in it has something
/// native; a directory that is not there or cannot be read has nothing.
pub proof fn law_what_counts_as_native(nodes: Vec<Node>)
    ensures
        !has_natives(Listing::Missing),
        !has_natives(Listing::Failed),
        has_natives(Listing::Entries(nodes)) <==> {
            ||| jars_in(Listing::Entries(nodes)) is Some && jars_in(
                Listing::Entries(nodes),
            )->Some_0.len() > 0
            ||| exists|i: int|
                0 <= i < nodes@.len() && (#[trigger] nodes@[i]) is File && is_native_library(
                    nodes@[i]->File_0.deep_view(),
                )
            ||| exists|i: int|
                0 <= i < nodes@.len() && (#[trigger] nodes@[i]) is Directory && has_natives(
                    nodes@[i]->Directory_0,
                )
        },
{
    let listing = Listing::Entries(nodes);
    assert(listing->Entries_0 == nodes);
    if exists|i: int|
        0 <= i < nodes@.len() && (#[trigger] nodes@[i]) is File && is_native_library(
            nodes@[i]->File_0.deep_view(),
        ) {
        let i = choose|i: int|
            0 <= i < nodes@.len() && (#[trigger] nodes@[i]) is File && is_native_library(
                nodes@[i]->File_0.deep_view(),
            );
        assert(match nodes@[i] {
            Node::Unreadable => false,
            Node::Directory(below) => has_natives(below),
            Node::File(file) => is_native_library(file.deep_view()),
        });
    }
    if exists|i: int|
        0 <= i < nodes@.len() && (#[trigger] nodes@[i]) is Directory && has_natives(
            nodes@[i]->Directory_0,
        ) {
        let i = choose|i: int|
            0 <= i < nodes@.len() && (#[trigger] nodes@[i]) is Directory && has_natives(
                nodes@[i]->Directory_0,
            );
        assert(match nodes@[i] {
            Node::Unreadable => false,
            Node::Directory(below) => has_natives(below),
            Node::File(file) => is_native_library(file.deep_view()),
        });
    }
}

/// In the name of an archive entry every backslash becomes a slash, and every other character stays.
pub proof fn law_entry_path_has_slashes(entry_name: Seq<char>)
    ensures
        entry_path(entry_name).len() == entry_name.len(),
        forall|i: int|
            0 <= i < entry_name.len() ==> #[trigger] entry_path(entry_name)[i] == (if entry_name[i]
                == '\\' {
                '/'
            } else {
                entry_name[i]
            }),
{
    reveal_strlit("\\");
    reveal_strlit("/");
    assert("\\"@ =~= seq!['\\']);
    assert("/"@ =~= seq!['/']);
    law_replace_of_one_character(entry_name, '\\', '/');
}

/// An archive entry is passed over exactly if its name ends in a separator, or begins with the
/// directory of the manifest.
pub proof fn law_which_entries_are_passed_over(entry_name: Seq<char>)
    ensures
        is_skipped_entry(entry_name) <==> {
            ||| entry_name.len() > 0 && (entry_name[entry_name.len() - 1] == '/'
                || entry_name[entry_name.len() - 1] == '\\')
            ||| entry_name.len() >= 9 && entry_name.take(8) == "META-INF"@ && (entry_name[8] == '/'
                || entry_name[8] == '\\')
        },
{
    reveal_strlit("META-INF/");
    reveal_strlit("META-INF");
    law_entry_path_has_slashes(entry_name);
    let path = entry_path(entry_name);
    let mark = "META-INF/"@;
    let word = "META-INF"@;
    if mark.is_prefix_of(path) {
        let head = path.subrange(0, 9);
        assert(head == mark);
        assert forall|i: int| 0 <= i < 8 implies entry_name[i] == #[trigger] word[i] by {
            assert(head[i] == path[i]);
            assert(mark[i] == word[i]);
        }
        assert(entry_name.take(8) =~= word);
        assert(head[8] == path[8]);
    }
    if entry_name.len() >= 9 && entry_name.take(8) == word && (entry_name[8] == '/'
        || entry_name[8] == '\\') {
        assert forall|i: int| 0 <= i < 9 implies path[i] == #[trigger] mark[i] by {
            if i < 8 {
                assert(entry_name.take(8)[i] == entry_name[i]);
                assert(mark[i] == word[i]);
                assert(word[i] != '\\');
            }
        }
        assert(path.subrange(0, 9) =~= mark);
    }
}

/// Native libraries are restored from the library files whose names speak of them, all of those and
/// in their order, where the library directory can be read.
pub proof fn law_restored_from_native_library_files(
    libraries: &Listing,
    jars: Option<Vec<FoundFile>>,
    i: int,
)
    requires
        call_ensures(restore_natives_from_library_cache, (libraries,), jars),
    ensures
        jars is Some <==> jars_in(*libraries) is Some,
        jars matches Some(jars) ==> {
            let all = jars_in(*libraries)->Some_0;
            &&& 0 <= i < all.len() && is_native_jar(all[i]) ==> jars.deep_view().contains(all[i])
            &&& 0 <= i < jars.deep_view().len() ==> is_native_jar(jars.deep_view()[i])
                && all.contains(jars.deep_view()[i])
        },
{
    let wanted = |file: FileModel| is_native_jar(file);
    if let Some(list) = jars {
        let all = jars_in(*libraries)->Some_0;
        let kept = all.filter(wanted);
        assert(jars.deep_view() == Some(kept));
        assert(list.deep_view() == kept);
        if 0 <= i < all.len() && is_native_jar(all[i]) {
            lemma_wanted_file_is_kept(all, wanted, i);
        }
        if 0 <= i < kept.len() {
            all.lemma_filter_pred(wanted, i);
            assert(kept.contains(kept[i]));
            all.lemma_filter_contains_rev(wanted, kept[i]);
        }
    }
}

proof fn lemma_wanted_file_is_kept(
    files: Seq<FileModel>,
    wanted: spec_fn(FileModel) -> bool,
    i: int,
)
    requires
        0 <= i < files.len(),
        wanted(files[i]),
    ensures
        files.filter(wanted).contains(files[i]),
    decreases files.len(),
{
    reveal(Seq::filter);
    let init = files.drop_last();
    let kept = files.filter(wanted);
    if i < init.len() {
        lemma_wanted_file_is_kept(init, wanted, i);
        let k = choose|k: int|
            0 <= k < init.filter(wanted).len() && init.filter(wanted)[k] == files[i];
        assert(kept[k] == files[i]);
    } else {
        assert(kept[kept.len() - 1] == files[i]);
    }
}

} // verus!
