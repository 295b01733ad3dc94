//! Version metadata: a mod loader's metadata laid over that of the game.
use vstd::prelude::*;

use crate::error::LauncherError;
use crate::json::{
    items_in, json_text, lemma_array_model, lemma_item_well_formed, lemma_member_well_formed,
    lemma_members_well_formed, lemma_object_model, member, members_in, print, text_in,
    text_of_json, well_formed, Json, JsonModel,
};
use crate::pairs::{
    distinct_keys, has_key, law_lookup_has_key, law_lookup_with_entry, law_lookup_without_key,
    lemma_lookup_push, lemma_with_entry_distinct, lemma_without_key_distinct, lookup, put, take,
    without_key,
};
use crate::text::same_text;

verus! {

/// What tells one library from another: its name, else the path of its artifact, else all of it.
pub open spec fn library_key(library: JsonModel) -> Seq<char> {
    let artifact = match member(library, "downloads"@) {
        Some(downloads) => member(downloads, "artifact"@),
        None => None,
    };
    let path = match artifact {
        Some(artifact) => text_in(member(artifact, "path"@)),
        None => None,
    };
    match text_in(member(library, "name"@)) {
        Some(name) => name,
        None => match path {
            Some(path) => path,
            None => json_text(library),
        },
    }
}

/// What tells one library from another.
pub fn unique_library_key(value: &Json) -> (key: String)
    ensures
        key@ == library_key(value.deep_view()),
{
    let name = text_of_json(value.member("name"));
    if let Some(name) = name {
        return name;
    }
    if let Some(downloads) = value.member("downloads") {
        if let Some(artifact) = downloads.member("artifact") {
            let path = text_of_json(artifact.member("path"));
            if let Some(path) = path {
                return path;
            }
        }
    }
    print(value)
}

/// Whether `libraries` has one with this key.
pub open spec fn has_library(libraries: Seq<JsonModel>, key: Seq<char>) -> bool {
    exists|i: int| 0 <= i < libraries.len() && library_key(#[trigger] libraries[i]) == key
}

/// The libraries with those of `more` added whose key is not there yet.
pub open spec fn added_libraries(libraries: Seq<JsonModel>, more: Seq<JsonModel>) -> Seq<JsonModel>
    decreases more.len(),
{
    if more.len() == 0 {
        libraries
    } else {
        let before = added_libraries(libraries, more.drop_last());
        if has_library(before, library_key(more.last())) {
            before
        } else {
            before.push(more.last())
        }
    }
}

/// Adds those of `more` whose key is not there yet.
fn add_libraries(libraries: Vec<Json>, more: Vec<Json>) -> (all: Vec<Json>)
    ensures
        all.deep_view() == added_libraries(libraries.deep_view(), more.deep_view()),
{
    let mut all = libraries;
    let mut keys: Vec<String> = Vec::new();
    let mut i: usize = 0;
    while i < all.len()
        invariant
            i <= all@.len(),
            keys@.len() == i,
            forall|k: int|
                0 <= k < i ==> (#[trigger] keys@[k])@ == library_key(all.deep_view()[k]),
        decreases all@.len() - i,
    {
        keys.push(unique_library_key(&all[i]));
        i = i + 1;
    }
    let ghost first = all.deep_view();
    let ghost extra = more.deep_view();
    assert(extra.take(0) =~= Seq::empty());
    for item in it: more
        invariant
            it.seq() == more@,
            extra == more.deep_view(),
            first == libraries.deep_view(),
            all.deep_view() == added_libraries(first, extra.take(it.index())),
            keys@.len() == all@.len(),
            forall|k: int|
                0 <= k < keys@.len() ==> (#[trigger] keys@[k])@ == library_key(all.deep_view()[k]),
    {
        let ghost before = all.deep_view();
        let ghost model = extra[it.index()];
        assert(extra.take(it.index() + 1).drop_last() =~= extra.take(it.index()));
        let key = unique_library_key(&item);
        let mut known = false;
        let mut j: usize = 0;
        while j < keys.len()
            invariant
                j <= keys@.len(),
                before == all.deep_view(),
                keys@.len() == all@.len(),
                forall|k: int|
                    0 <= k < keys@.len() ==> (#[trigger] keys@[k])@ == library_key(before[k]),
                known == exists|k: int| 0 <= k < j && library_key(#[trigger] before[k]) == key@,
            decreases keys@.len() - j,
        {
            if same_text(keys[j].as_str(), key.as_str()) {
                assert(library_key(before[j as int]) == key@);
                known = true;
            } else {
                assert(library_key(before[j as int]) != key@);
            }
            j = j + 1;
        }
        assert(known == has_library(before, key@));
        if !known {
            all.push(item);
            assert(all.deep_view() =~= before.push(model));
            keys.push(key);
        }
    }
    assert(extra.take(extra.len() as int) =~= extra);
    all
}

// ---------------------------------------------------------------------------
// Arguments
// ---------------------------------------------------------------------------

/// One list of arguments after the merge: the loader's follow the game's; what is not a list is
/// replaced.
pub open spec fn merged_argument(base: Option<JsonModel>, overlay: Option<JsonModel>) -> Option<
    JsonModel,
> {
    match overlay {
        Some(JsonModel::Array(more)) => Some(JsonModel::Array(items_in(base) + more)),
        Some(value) => Some(value),
        None => base,
    }
}

/// Whether `merged` is `overlay` laid over `base`, argument list by argument list.
pub open spec fn arguments_merged(
    base: Seq<(Seq<char>, JsonModel)>,
    overlay: Seq<(Seq<char>, JsonModel)>,
    merged: Seq<(Seq<char>, JsonModel)>,
) -> bool {
    &&& distinct_keys(merged)
    &&& forall|key: Seq<char>| #[trigger]
        lookup(merged, key) == merged_argument(lookup(base, key), lookup(overlay, key))
}

fn merge_arguments(base: Vec<(String, Json)>, overlay: Vec<(String, Json)>) -> (merged: Vec<
    (String, Json),
>)
    requires
        distinct_keys(base.deep_view()),
        distinct_keys(overlay.deep_view()),
    ensures
        arguments_merged(base.deep_view(), overlay.deep_view(), merged.deep_view()),
{
    broadcast use {lemma_array_model, lemma_object_model};

    let mut merged = base;
    let ghost first = base.deep_view();
    let ghost extra = overlay.deep_view();
    assert(extra.take(0) =~= Seq::empty());
    for entry in it: overlay
        invariant
            it.seq() == overlay@,
            extra == overlay.deep_view(),
            distinct_keys(extra),
            arguments_merged(first, extra.take(it.index()), merged.deep_view()),
    {
        let ghost done = extra.take(it.index());
        let ghost model = extra[it.index()];
        let ghost before = merged.deep_view();
        let ghost key = model.0;
        assert(extra.take(it.index() + 1) =~= done.push(model));
        proof {
            assert(lookup(done, key) is None) by {
                law_lookup_has_key(done, key);
                if has_key(done, key) {
                    let i = choose|i: int| 0 <= i < done.len() && (#[trigger] done[i]).0 == key;
                    assert(extra[i].0 == extra[it.index()].0);
                }
            }
            assert(lookup(before, key) == lookup(first, key));
        }
        let (name, value) = entry;
        let ghost value_model = model.1;
        match value {
            Json::Array(more) => {
                proof {
                    lemma_array_model(more);
                }
                let mut more = more;
                let (old_value, rest) = take(merged, name.as_str());
                let mut combined: Vec<Json> = match old_value {
                    Some(Json::Array(items)) => items,
                    _ => Vec::new(),
                };
                assert(combined.deep_view() =~= items_in(lookup(first, key)));
                let ghost head = combined.deep_view();
                let ghost tail = more.deep_view();
                combined.append(&mut more);
                assert(combined.deep_view() =~= head + tail);
                assert(value_model == JsonModel::Array(tail));
                merged = rest;
                proof {
                    lemma_array_model(combined);
                }
                let list = Json::Array(combined);
                let ghost list_model = list.deep_view();
                put(&mut merged, name, list);
                proof {
                    lemma_without_key_distinct(before, key);
                    lemma_with_entry_distinct(without_key(before, key), key, list_model);
                    assert forall|k: Seq<char>| #[trigger]
                        lookup(merged.deep_view(), k) == merged_argument(
                            lookup(first, k),
                            lookup(done.push(model), k),
                        ) by {
                        law_lookup_with_entry(without_key(before, key), key, list_model, k);
                        law_lookup_without_key(before, key, k);
                        lemma_lookup_push(done, model, k);
                        assert(lookup(before, k) == merged_argument(
                            lookup(first, k),
                            lookup(done, k),
                        ));
                    }
                }
            },
            other => {
                put(&mut merged, name, other);
                proof {
                    lemma_with_entry_distinct(before, key, value_model);
                    assert forall|k: Seq<char>| #[trigger]
                        lookup(merged.deep_view(), k) == merged_argument(
                            lookup(first, k),
                            lookup(done.push(model), k),
                        ) by {
                        law_lookup_with_entry(before, key, value_model, k);
                        lemma_lookup_push(done, model, k);
                        assert(lookup(before, k) == merged_argument(
                            lookup(first, k),
                            lookup(done, k),
                        ));
                    }
                }
            },
        }
    }
    assert(extra.take(extra.len() as int) =~= extra);
    merged
}

// ---------------------------------------------------------------------------
// Version metadata
// ---------------------------------------------------------------------------

/// Whether `merged` is the loader's metadata `overlay` laid over the game's metadata `base`:
/// - the libraries are the game's, and those of the loader that the game does not have;
/// - the argument lists are joined;
/// - the loader's own reference to the game version is dropped;
/// - for anything else the loader's word counts where it has one.
pub open spec fn versions_merged(
    base: Seq<(Seq<char>, JsonModel)>,
    overlay: Seq<(Seq<char>, JsonModel)>,
    merged: Seq<(Seq<char>, JsonModel)>,
) -> bool {
    &&& distinct_keys(merged)
    &&& lookup(merged, "libraries"@) == Some(
        JsonModel::Array(
            added_libraries(
                items_in(lookup(base, "libraries"@)),
                items_in(lookup(overlay, "libraries"@)),
            ),
        ),
    )
    &&& match lookup(overlay, "arguments"@) {
        None => lookup(merged, "arguments"@) == lookup(base, "arguments"@),
        Some(arguments) => {
            &&& lookup(merged, "arguments"@) matches Some(JsonModel::Object(together))
            &&& arguments_merged(
                members_in(lookup(base, "arguments"@)),
                members_in(Some(arguments)),
                together,
            )
        },
    }
    &&& forall|key: Seq<char>|
        key != "libraries"@ && key != "arguments"@ ==> #[trigger] lookup(merged, key) == (if key
            != "inheritsFrom"@ && lookup(overlay, key) is Some {
            lookup(overlay, key)
        } else {
            lookup(base, key)
        })
}

/// What holds while the members of `overlay` are laid over `base`: like [`versions_merged`], but
/// with the libraries still apart.
spec fn partly_merged(
    base: Seq<(Seq<char>, JsonModel)>,
    overlay: Seq<(Seq<char>, JsonModel)>,
    merged: Seq<(Seq<char>, JsonModel)>,
    libraries: Seq<JsonModel>,
) -> bool {
    &&& distinct_keys(merged)
    &&& libraries == added_libraries(
        items_in(lookup(base, "libraries"@)),
        items_in(lookup(overlay, "libraries"@)),
    )
    &&& match lookup(overlay, "arguments"@) {
        None => lookup(merged, "arguments"@) == lookup(base, "arguments"@),
        Some(arguments) => {
            &&& lookup(merged, "arguments"@) matches Some(JsonModel::Object(together))
            &&& arguments_merged(
                members_in(lookup(base, "arguments"@)),
                members_in(Some(arguments)),
                together,
            )
        },
    }
    &&& forall|key: Seq<char>|
        key != "libraries"@ && key != "arguments"@ ==> #[trigger] lookup(merged, key) == (if key
            != "inheritsFrom"@ && lookup(overlay, key) is Some {
            lookup(overlay, key)
        } else {
            lookup(base, key)
        })
}

proof fn lemma_names_differ()
    ensures
        "libraries"@ != "arguments"@,
        "libraries"@ != "inheritsFrom"@,
        "arguments"@ != "inheritsFrom"@,
{
    reveal_strlit("libraries");
    reveal_strlit("arguments");
    reveal_strlit("inheritsFrom");
    assert("libraries"@[0] == 'l' && "arguments"@[0] == 'a' && "inheritsFrom"@[0] == 'i');
}

/// What comes of laying `overlay` over `base`: both have to be objects.
pub open spec fn merge_outcome(
    base: JsonModel,
    overlay: JsonModel,
    merged: Result<Json, LauncherError>,
) -> bool {
    match merged {
        Ok(json) => {
            &&& base is Object
            &&& overlay is Object
            &&& json.deep_view() is Object
            &&& versions_merged(base->Object_0, overlay->Object_0, json.deep_view()->Object_0)
        },
        Err(LauncherError::BaseNotObject) => !(base is Object),
        Err(LauncherError::OverlayNotObject) => base is Object && !(overlay is Object),
        Err(_) => false,
    }
}

/// Lays the metadata of a mod loader over that of the game.
pub fn merge_version_values(base: Json, overlay: Json) -> (merged: Result<Json, LauncherError>)
    requires
        well_formed(base.deep_view()),
        well_formed(overlay.deep_view()),
    ensures
        merge_outcome(base.deep_view(), overlay.deep_view(), merged),
{
    let base_members = match base {
        Json::Object(members) => members,
        _ => return Err(LauncherError::BaseNotObject),
    };
    let overlay_members = match overlay {
        Json::Object(members) => members,
        _ => return Err(LauncherError::OverlayNotObject),
    };
    let ghost first = base_members.deep_view();
    let ghost extra = overlay_members.deep_view();
    proof {
        lemma_object_model(base_members);
        lemma_object_model(overlay_members);
        lemma_names_differ();
    }
    let (base_libraries, rest) = take(base_members, "libraries");
    let mut merged = rest;
    let mut libraries: Vec<Json> = match base_libraries {
        Some(Json::Array(items)) => {
            proof {
                lemma_array_model(items);
            }
            items
        },
        _ => Vec::new(),
    };
    proof {
        assert(libraries.deep_view() =~= items_in(lookup(first, "libraries"@)));
        assert(extra.take(0) =~= Seq::empty());
        lemma_without_key_distinct(first, "libraries"@);
        assert forall|key: Seq<char>| key != "libraries"@ implies #[trigger] lookup(
            merged.deep_view(),
            key,
        ) == lookup(first, key) by {
            law_lookup_without_key(first, "libraries"@, key);
        }
    }
    for entry in it: overlay_members
        invariant
            it.seq() == overlay_members@,
            extra == overlay_members.deep_view(),
            distinct_keys(extra),
            well_formed(JsonModel::Object(first)),
            well_formed(JsonModel::Object(extra)),
            partly_merged(
                first,
                extra.take(it.index()),
                merged.deep_view(),
                libraries.deep_view(),
            ),
    {
        let ghost done = extra.take(it.index());
        let ghost model = extra[it.index()];
        let ghost before = merged.deep_view();
        let ghost key = model.0;
        let ghost value_model = model.1;
        assert(extra.take(it.index() + 1) =~= done.push(model));
        proof {
            lemma_names_differ();
            assert(well_formed(extra[it.index()].1));
            assert(lookup(done, key) is None) by {
                law_lookup_has_key(done, key);
                if has_key(done, key) {
                    let i = choose|i: int| 0 <= i < done.len() && (#[trigger] done[i]).0 == key;
                    assert(extra[i].0 == extra[it.index()].0);
                }
            }
            assert forall|k: Seq<char>| #[trigger] lookup(done.push(model), k) == (if k == key {
                Some(value_model)
            } else {
                lookup(done, k)
            }) by {
                lemma_lookup_push(done, model, k);
            }
        }
        let (name, value) = entry;
        if same_text(name.as_str(), "libraries") {
            if let Json::Array(more) = value {
                proof {
                    lemma_array_model(more);
                }
                libraries = add_libraries(libraries, more);
            }
            assert(partly_merged(
                first,
                done.push(model),
                merged.deep_view(),
                libraries.deep_view(),
            ));
        } else if same_text(name.as_str(), "arguments") {
            let (base_arguments, rest) = take(merged, "arguments");
            let base_lists: Vec<(String, Json)> = match base_arguments {
                Some(Json::Object(members)) => {
                    proof {
                        lemma_object_model(members);
                    }
                    members
                },
                _ => Vec::new(),
            };
            let overlay_lists: Vec<(String, Json)> = match value {
                Json::Object(members) => {
                    proof {
                        lemma_object_model(members);
                    }
                    members
                },
                _ => Vec::new(),
            };
            proof {
                assert(base_lists.deep_view() =~= members_in(lookup(first, "arguments"@)));
                assert(overlay_lists.deep_view() =~= members_in(Some(value_model)));
                lemma_member_well_formed(first, "arguments"@);
            }
            let together = merge_arguments(base_lists, overlay_lists);
            proof {
                lemma_object_model(together);
            }
            merged = rest;
            let lists = Json::Object(together);
            let ghost lists_model = lists.deep_view();
            put(&mut merged, "arguments".to_owned(), lists);
            proof {
                lemma_without_key_distinct(before, key);
                lemma_with_entry_distinct(without_key(before, key), key, lists_model);
                assert forall|k: Seq<char>| #[trigger] lookup(merged.deep_view(), k) == (if k
                    == key {
                    Some(lists_model)
                } else {
                    lookup(before, k)
                }) by {
                    law_lookup_with_entry(without_key(before, key), key, lists_model, k);
                    law_lookup_without_key(before, key, k);
                }
            }
            assert(partly_merged(
                first,
                done.push(model),
                merged.deep_view(),
                libraries.deep_view(),
            ));
        } else if !same_text(name.as_str(), "inheritsFrom") {
            put(&mut merged, name, value);
            proof {
                lemma_with_entry_distinct(before, key, value_model);
                assert forall|k: Seq<char>| #[trigger] lookup(merged.deep_view(), k) == (if k
                    == key {
                    Some(value_model)
                } else {
                    lookup(before, k)
                }) by {
                    law_lookup_with_entry(before, key, value_model, k);
                }
            }
            assert(partly_merged(
                first,
                done.push(model),
                merged.deep_view(),
                libraries.deep_view(),
            ));
        } else {
            assert(partly_merged(
                first,
                done.push(model),
                merged.deep_view(),
                libraries.deep_view(),
            ));
        }
    }
    assert(extra.take(extra.len() as int) =~= extra);
    let ghost before = merged.deep_view();
    proof {
        lemma_array_model(libraries);
    }
    let list = Json::Array(libraries);
    let ghost list_model = list.deep_view();
    put(&mut merged, "libraries".to_owned(), list);
    proof {
        lemma_with_entry_distinct(before, "libraries"@, list_model);
        assert forall|k: Seq<char>| #[trigger] lookup(merged.deep_view(), k) == (if k
            == "libraries"@ {
            Some(list_model)
        } else {
            lookup(before, k)
        }) by {
            law_lookup_with_entry(before, "libraries"@, list_model, k);
        }
        lemma_object_model(merged);
    }
    Ok(Json::Object(merged))
}

// ---------------------------------------------------------------------------
// Laws
// ---------------------------------------------------------------------------

/// Whether no two libraries have the same key.
pub open spec fn distinct_libraries(libraries: Seq<JsonModel>) -> bool {
    forall|i: int, j: int|
        0 <= i < j < libraries.len() ==> library_key(#[trigger] libraries[i]) != library_key(
            #[trigger] libraries[j],
        )
}

/// The game's libraries stay, in front and in order.
pub proof fn law_merge_keeps_libraries(libraries: Seq<JsonModel>, more: Seq<JsonModel>)
    ensures
        libraries.is_prefix_of(added_libraries(libraries, more)),
    decreases more.len(),
{
    if more.len() > 0 {
        law_merge_keeps_libraries(libraries, more.drop_last());
        let before = added_libraries(libraries, more.drop_last());
        let after = added_libraries(libraries, more);
        assert(before.is_prefix_of(after));
        assert(after.subrange(0, libraries.len() as int) =~= before.subrange(
            0,
            libraries.len() as int,
        ));
    } else {
        assert(libraries.subrange(0, libraries.len() as int) =~= libraries);
    }
}

/// Every library of the game and of the loader is there after the merge, by its key, and no other.
pub proof fn law_merge_has_every_library(
    libraries: Seq<JsonModel>,
    more: Seq<JsonModel>,
    key: Seq<char>,
)
    ensures
        has_library(added_libraries(libraries, more), key) <==> has_library(libraries, key)
            || has_library(more, key),
    decreases more.len(),
{
    if more.len() > 0 {
        let head = more.drop_last();
        let before = added_libraries(libraries, head);
        let after = added_libraries(libraries, more);
        law_merge_has_every_library(libraries, head, key);
        if has_library(before, key) {
            let i = choose|i: int| 0 <= i < before.len() && library_key(#[trigger] before[i]) == key;
            assert(after[i] == before[i]);
        }
        if has_library(head, key) {
            let i = choose|i: int| 0 <= i < head.len() && library_key(#[trigger] head[i]) == key;
            assert(more[i] == head[i]);
        }
        if library_key(more.last()) == key {
            assert(more[more.len() - 1] == more.last());
            if !has_library(before, key) {
                assert(after[before.len() as int] == more.last());
            }
        }
        if has_library(after, key) {
            let i = choose|i: int| 0 <= i < after.len() && library_key(#[trigger] after[i]) == key;
            if i < before.len() {
                assert(before[i] == after[i]);
            }
        }
        if has_library(more, key) {
            let i = choose|i: int| 0 <= i < more.len() && library_key(#[trigger] more[i]) == key;
            if i < head.len() {
                assert(head[i] == more[i]);
            }
        }
    }
}

/// The merge brings no library in twice.
pub proof fn law_merge_keeps_libraries_distinct(libraries: Seq<JsonModel>, more: Seq<JsonModel>)
    requires
        distinct_libraries(libraries),
    ensures
        distinct_libraries(added_libraries(libraries, more)),
    decreases more.len(),
{
    if more.len() > 0 {
        let before = added_libraries(libraries, more.drop_last());
        law_merge_keeps_libraries_distinct(libraries, more.drop_last());
        let key = library_key(more.last());
        if !has_library(before, key) {
            let after = before.push(more.last());
            assert forall|i: int, j: int| 0 <= i < j < after.len() implies library_key(
                #[trigger] after[i],
            ) != library_key(#[trigger] after[j]) by {
                assert(after[i] == before[i]);
            }
        }
    }
}

/// Libraries that are there already are not added again.
pub proof fn law_merging_again_adds_no_library(libraries: Seq<JsonModel>, more: Seq<JsonModel>)
    requires
        forall|i: int|
            0 <= i < more.len() ==> has_library(libraries, library_key(#[trigger] more[i])),
    ensures
        added_libraries(libraries, more) == libraries,
    decreases more.len(),
{
    if more.len() > 0 {
        let head = more.drop_last();
        assert forall|i: int| 0 <= i < head.len() implies has_library(
            libraries,
            library_key(#[trigger] head[i]),
        ) by {
            assert(head[i] == more[i]);
        }
        law_merging_again_adds_no_library(libraries, head);
        assert(more[more.len() - 1] == more.last());
    }
}

/// Laying the same loader over a game twice gives the libraries of laying it once.
pub proof fn law_merging_libraries_is_idempotent(libraries: Seq<JsonModel>, more: Seq<JsonModel>)
    ensures
        added_libraries(added_libraries(libraries, more), more) == added_libraries(libraries, more),
{
    let once = added_libraries(libraries, more);
    assert forall|i: int| 0 <= i < more.len() implies has_library(
        once,
        library_key(#[trigger] more[i]),
    ) by {
        law_merge_has_every_library(libraries, more, library_key(more[i]));
        assert(has_library(more, library_key(more[i])));
    }
    law_merging_again_adds_no_library(once, more);
}

/// The metadata that a merge gives is well-formed.
pub proof fn law_merge_is_well_formed(
    base: Seq<(Seq<char>, JsonModel)>,
    overlay: Seq<(Seq<char>, JsonModel)>,
    merged: Seq<(Seq<char>, JsonModel)>,
)
    requires
        well_formed(JsonModel::Object(base)),
        well_formed(JsonModel::Object(overlay)),
        versions_merged(base, overlay, merged),
    ensures
        well_formed(JsonModel::Object(merged)),
{
    assert forall|key: Seq<char>| (#[trigger] lookup(merged, key)) is Some implies well_formed(
        lookup(merged, key)->Some_0,
    ) by {
        lemma_member_well_formed(base, key);
        lemma_member_well_formed(overlay, key);
        if key == "libraries"@ {
            let kept = items_in(lookup(base, key));
            let more = items_in(lookup(overlay, key));
            lemma_added_well_formed(kept, more);
        } else if key == "arguments"@ && lookup(overlay, key) is Some {
            let lists = members_in(lookup(base, key));
            let more = members_in(lookup(overlay, key));
            let together = lookup(merged, key)->Some_0->Object_0;
            assert(well_formed(JsonModel::Object(lists)));
            assert(well_formed(JsonModel::Object(more)));
            assert forall|k: Seq<char>| (#[trigger] lookup(
                together,
                k,
            )) is Some implies well_formed(lookup(together, k)->Some_0) by {
                lemma_member_well_formed(lists, k);
                lemma_member_well_formed(more, k);
                assert(lookup(together, k) == merged_argument(lookup(lists, k), lookup(more, k)));
            }
            lemma_members_well_formed(together);
        }
    }
    lemma_members_well_formed(merged);
}

proof fn lemma_added_well_formed(libraries: Seq<JsonModel>, more: Seq<JsonModel>)
    requires
        well_formed(JsonModel::Array(libraries)),
        well_formed(JsonModel::Array(more)),
    ensures
        well_formed(JsonModel::Array(added_libraries(libraries, more))),
    decreases more.len(),
{
    if more.len() > 0 {
        let head = more.drop_last();
        assert forall|i: int| 0 <= i < head.len() implies well_formed(#[trigger] head[i]) by {
            lemma_item_well_formed(more, i);
        }
        lemma_added_well_formed(libraries, head);
        lemma_item_well_formed(more, more.len() - 1);
        let before = added_libraries(libraries, head);
        let after = added_libraries(libraries, more);
        assert forall|i: int| 0 <= i < after.len() implies well_formed(#[trigger] after[i]) by {
            if i < before.len() {
                lemma_item_well_formed(before, i);
            }
        }
    }
}

/// Where game and loader both list arguments under a name, all of them are there after the merge:
/// as many as the two have together, the game's first, the loader's behind them, each in its own
/// order. A list that only one of the two has is there as it is.
pub proof fn law_joined_arguments_lose_nothing(
    base: Seq<(Seq<char>, JsonModel)>,
    overlay: Seq<(Seq<char>, JsonModel)>,
    merged: Seq<(Seq<char>, JsonModel)>,
    key: Seq<char>,
    first: Seq<JsonModel>,
    more: Seq<JsonModel>,
)
    requires
        arguments_merged(base, overlay, merged),
    ensures
        lookup(base, key) == Some(JsonModel::Array(first)) && lookup(overlay, key) == Some(
            JsonModel::Array(more),
        ) ==> (lookup(merged, key) matches Some(JsonModel::Array(all)) && {
            &&& all.len() == first.len() + more.len()
            &&& forall|i: int| 0 <= i < first.len() ==> #[trigger] all[i] == first[i]
            &&& forall|i: int| 0 <= i < more.len() ==> all[first.len() + i] == #[trigger] more[i]
        }),
        lookup(base, key) is None && lookup(overlay, key) == Some(JsonModel::Array(more)) ==> lookup(
            merged,
            key,
        ) == Some(JsonModel::Array(more)),
        lookup(overlay, key) is None ==> lookup(merged, key) == lookup(base, key),
{
    assert(lookup(merged, key) == merged_argument(lookup(base, key), lookup(overlay, key)));
    assert(Seq::<JsonModel>::empty() + more =~= more);
}

/// What the loader has under a name takes the place of what the game has there, unless both are
/// lists.
pub proof fn law_only_lists_are_joined(
    base: Seq<(Seq<char>, JsonModel)>,
    overlay: Seq<(Seq<char>, JsonModel)>,
    merged: Seq<(Seq<char>, JsonModel)>,
    key: Seq<char>,
    value: JsonModel,
)
    requires
        arguments_merged(base, overlay, merged),
        lookup(overlay, key) == Some(value),
    ensures
        !(value is Array) ==> lookup(merged, key) == Some(value),
        !(lookup(base, key) matches Some(JsonModel::Array(_))) ==> lookup(merged, key) == Some(
            value,
        ),
{
    assert(lookup(merged, key) == merged_argument(lookup(base, key), lookup(overlay, key)));
    if let JsonModel::Array(more) = value {
        assert(Seq::<JsonModel>::empty() + more =~= more);
    }
}

/// The merged metadata has every argument list of the game and of the loader: one that both have
/// holds the game's arguments and behind them the loader's.
pub proof fn law_merged_version_has_every_argument(
    base: Seq<(Seq<char>, JsonModel)>,
    overlay: Seq<(Seq<char>, JsonModel)>,
    merged: Seq<(Seq<char>, JsonModel)>,
    lists: Seq<(Seq<char>, JsonModel)>,
    more_lists: Seq<(Seq<char>, JsonModel)>,
    key: Seq<char>,
    first: Seq<JsonModel>,
    more: Seq<JsonModel>,
)
    requires
        versions_merged(base, overlay, merged),
        lookup(base, "arguments"@) == Some(JsonModel::Object(lists)),
        lookup(overlay, "arguments"@) == Some(JsonModel::Object(more_lists)),
    ensures
        lookup(merged, "arguments"@) matches Some(JsonModel::Object(together)) && {
            &&& lookup(lists, key) == Some(JsonModel::Array(first)) && lookup(more_lists, key)
                == Some(JsonModel::Array(more)) ==> (lookup(together, key) matches Some(
                JsonModel::Array(all),
            ) && {
                &&& all.len() == first.len() + more.len()
                &&& forall|i: int| 0 <= i < first.len() ==> #[trigger] all[i] == first[i]
                &&& forall|i: int|
                    0 <= i < more.len() ==> all[first.len() + i] == #[trigger] more[i]
            })
            &&& lookup(lists, key) is None && lookup(more_lists, key) == Some(
                JsonModel::Array(more),
            ) ==> lookup(together, key) == Some(JsonModel::Array(more))
            &&& lookup(more_lists, key) is None ==> lookup(together, key) == lookup(lists, key)
        },
{
    let together = lookup(merged, "arguments"@)->Some_0->Object_0;
    law_joined_arguments_lose_nothing(lists, more_lists, together, key, first, more);
}

/// A loader without arguments leaves those of the game as they are, and a game without arguments
/// gets those of the loader.
pub proof fn law_arguments_of_one_side_stay(
    base: Seq<(Seq<char>, JsonModel)>,
    overlay: Seq<(Seq<char>, JsonModel)>,
    merged: Seq<(Seq<char>, JsonModel)>,
    lists: Seq<(Seq<char>, JsonModel)>,
    key: Seq<char>,
)
    requires
        versions_merged(base, overlay, merged),
    ensures
        lookup(overlay, "arguments"@) is None ==> lookup(merged, "arguments"@) == lookup(
            base,
            "arguments"@,
        ),
        lookup(base, "arguments"@) is None && lookup(overlay, "arguments"@) == Some(
            JsonModel::Object(lists),
        ) ==> (lookup(merged, "arguments"@) matches Some(JsonModel::Object(together)) && lookup(
            together,
            key,
        ) == lookup(lists, key)),
{
    if lookup(base, "arguments"@) is None && lookup(overlay, "arguments"@) == Some(
        JsonModel::Object(lists),
    ) {
        let together = lookup(merged, "arguments"@)->Some_0->Object_0;
        let none = Seq::<(Seq<char>, JsonModel)>::empty();
        assert(arguments_merged(none, lists, together));
        assert(lookup(none, key) is None);
        assert(lookup(together, key) == merged_argument(lookup(none, key), lookup(lists, key)));
        if let Some(JsonModel::Array(more)) = lookup(lists, key) {
            assert(Seq::<JsonModel>::empty() + more =~= more);
        }
    }
}

/// For every name but those of the libraries, the arguments and the parent version, the loader's
/// word counts where it has one, else the game's; the parent version is the game's.
pub proof fn law_loader_has_the_last_word(
    base: Seq<(Seq<char>, JsonModel)>,
    overlay: Seq<(Seq<char>, JsonModel)>,
    merged: Seq<(Seq<char>, JsonModel)>,
    key: Seq<char>,
    value: JsonModel,
)
    requires
        versions_merged(base, overlay, merged),
        key != "libraries"@,
        key != "arguments"@,
    ensures
        key != "inheritsFrom"@ && lookup(overlay, key) == Some(value) ==> lookup(merged, key)
            == Some(value),
        lookup(overlay, key) is None ==> lookup(merged, key) == lookup(base, key),
        lookup(merged, "inheritsFrom"@) == lookup(base, "inheritsFrom"@),
{
    lemma_names_differ();
    assert(lookup(merged, key) == lookup(merged, key));
    assert(lookup(merged, "inheritsFrom"@) == lookup(base, "inheritsFrom"@));
}

/// Two documents that are not both objects are not merged, and it is said which one is wrong.
pub proof fn law_only_objects_are_merged(
    base: JsonModel,
    overlay: JsonModel,
    merged: Result<Json, LauncherError>,
)
    requires
        merge_outcome(base, overlay, merged),
    ensures
        merged is Ok <==> base is Object && overlay is Object,
        merged matches Err(error) ==> {
            &&& error is BaseNotObject <==> !(base is Object)
            &&& error is OverlayNotObject <==> base is Object
        },
        merged matches Ok(json) ==> json.deep_view() is Object,
{
}

/// The loader's libraries are taken one after the other: one whose key a library has that is there
/// already is passed over, any other is added behind those that are there.
pub proof fn law_libraries_are_added_one_by_one(
    libraries: Seq<JsonModel>,
    library: JsonModel,
    more: Seq<JsonModel>,
)
    ensures
        added_libraries(libraries, Seq::empty()) == libraries,
        (exists|i: int|
            0 <= i < libraries.len() && library_key(#[trigger] libraries[i]) == library_key(
                library,
            )) ==> added_libraries(libraries, seq![library] + more) == added_libraries(
            libraries,
            more,
        ),
        (forall|i: int|
            0 <= i < libraries.len() ==> library_key(#[trigger] libraries[i]) != library_key(
                library,
            )) ==> added_libraries(libraries, seq![library] + more) == added_libraries(
            libraries.push(library),
            more,
        ),
    decreases more.len(),
{
    let whole = seq![library] + more;
    if more.len() == 0 {
        assert(whole =~= seq![library]);
        assert(whole.drop_last() =~= Seq::empty());
        assert(whole.last() == library);
        assert(added_libraries(libraries, whole.drop_last()) == libraries);
        assert(more =~= Seq::empty());
    } else {
        let head = more.drop_last();
        assert(whole.drop_last() =~= seq![library] + head);
        assert(whole.last() == more.last());
        law_libraries_are_added_one_by_one(libraries, library, head);
    }
}

/// The merged metadata has the game's libraries as they are, in front, and behind them libraries of
/// the loader; one that has the key of no library before it is among them.
pub proof fn law_merged_version_has_every_library(
    base: Seq<(Seq<char>, JsonModel)>,
    overlay: Seq<(Seq<char>, JsonModel)>,
    merged: Seq<(Seq<char>, JsonModel)>,
    kept: Seq<JsonModel>,
    more: Seq<JsonModel>,
    j: int,
)
    requires
        versions_merged(base, overlay, merged),
        lookup(base, "libraries"@) == Some(JsonModel::Array(kept)),
        lookup(overlay, "libraries"@) == Some(JsonModel::Array(more)),
        0 <= j < more.len(),
        forall|i: int|
            0 <= i < kept.len() ==> library_key(#[trigger] kept[i]) != library_key(more[j]),
        forall|i: int| 0 <= i < j ==> library_key(#[trigger] more[i]) != library_key(more[j]),
    ensures
        lookup(merged, "libraries"@) matches Some(JsonModel::Array(all)) && {
            &&& all.len() <= kept.len() + more.len()
            &&& kept.is_prefix_of(all)
            &&& all.contains(more[j])
        },
{
    law_merge_keeps_libraries(kept, more);
    lemma_new_library_is_added(kept, more, j);
}

proof fn lemma_new_library_is_added(libraries: Seq<JsonModel>, more: Seq<JsonModel>, j: int)
    requires
        0 <= j < more.len(),
        forall|i: int|
            0 <= i < libraries.len() ==> library_key(#[trigger] libraries[i]) != library_key(
                more[j],
            ),
        forall|i: int| 0 <= i < j ==> library_key(#[trigger] more[i]) != library_key(more[j]),
    ensures
        added_libraries(libraries, more).contains(more[j]),
        added_libraries(libraries, more).len() <= libraries.len() + more.len(),
    decreases more.len(),
{
    let head = more.drop_last();
    let before = added_libraries(libraries, head);
    let all = added_libraries(libraries, more);
    lemma_no_more_libraries(libraries, head);
    if j < head.len() {
        assert forall|i: int| 0 <= i < j implies library_key(#[trigger] head[i]) != library_key(
            head[j],
        ) by {
            assert(head[i] == more[i]);
        }
        lemma_new_library_is_added(libraries, head, j);
        let k = choose|k: int| 0 <= k < before.len() && before[k] == more[j];
        assert(all[k] == more[j]);
    } else {
        let key = library_key(more[j]);
        law_merge_has_every_library(libraries, head, key);
        if has_library(head, key) {
            let i = choose|i: int| 0 <= i < head.len() && library_key(#[trigger] head[i]) == key;
            assert(more[i] == head[i]);
        }
        assert(!has_library(before, key));
        assert(all[before.len() as int] == more[j]);
    }
}

proof fn lemma_no_more_libraries(libraries: Seq<JsonModel>, more: Seq<JsonModel>)
    ensures
        added_libraries(libraries, more).len() <= libraries.len() + more.len(),
    decreases more.len(),
{
    if more.len() > 0 {
        lemma_no_more_libraries(libraries, more.drop_last());
    }
}

/// Libraries that are listed by one side only are there as they are listed, apart from those whose
/// key another has before them.
pub proof fn law_libraries_of_one_side_stay(
    base: Seq<(Seq<char>, JsonModel)>,
    overlay: Seq<(Seq<char>, JsonModel)>,
    merged: Seq<(Seq<char>, JsonModel)>,
    libraries: Seq<JsonModel>,
)
    requires
        versions_merged(base, overlay, merged),
    ensures
        lookup(base, "libraries"@) == Some(JsonModel::Array(libraries)) && lookup(
            overlay,
            "libraries"@,
        ) is None ==> lookup(merged, "libraries"@) == Some(JsonModel::Array(libraries)),
        lookup(overlay, "libraries"@) == Some(JsonModel::Array(libraries)) && lookup(
            base,
            "libraries"@,
        ) is None && distinct_libraries(libraries) ==> lookup(merged, "libraries"@) == Some(
            JsonModel::Array(libraries),
        ),
        lookup(base, "libraries"@) is None && lookup(overlay, "libraries"@) is None ==> lookup(
            merged,
            "libraries"@,
        ) == Some(JsonModel::Array(Seq::empty())),
{
    if distinct_libraries(libraries) {
        lemma_distinct_libraries_are_added(libraries);
    }
}

proof fn lemma_distinct_libraries_are_added(libraries: Seq<JsonModel>)
    requires
        distinct_libraries(libraries),
    ensures
        added_libraries(Seq::empty(), libraries) == libraries,
    decreases libraries.len(),
{
    if libraries.len() > 0 {
        let head = libraries.drop_last();
        assert forall|i: int, j: int| 0 <= i < j < head.len() implies library_key(
            #[trigger] head[i],
        ) != library_key(#[trigger] head[j]) by {
            assert(head[i] == libraries[i] && head[j] == libraries[j]);
        }
        lemma_distinct_libraries_are_added(head);
        let key = library_key(libraries.last());
        if has_library(head, key) {
            let i = choose|i: int| 0 <= i < head.len() && library_key(#[trigger] head[i]) == key;
            assert(libraries[i] == head[i]);
            assert(library_key(libraries[i]) != library_key(libraries[libraries.len() - 1]));
        }
        assert(head.push(libraries.last()) =~= libraries);
    }
}

/// A library goes by its name; without one by the path of its artifact; without either by the whole
/// of it.
pub proof fn law_what_tells_libraries_apart(library: JsonModel, text: Seq<char>)
    ensures
        member(library, "name"@) == Some(JsonModel::Text(text)) ==> library_key(library) == text,
        !(member(library, "name"@) matches Some(JsonModel::Text(_))) ==> {
            &&& (member(library, "downloads"@) matches Some(downloads) && member(
                downloads,
                "artifact"@,
            ) matches Some(artifact) && member(artifact, "path"@) == Some(JsonModel::Text(text)))
                ==> library_key(library) == text
            &&& !(member(library, "downloads"@) matches Some(downloads) && member(
                downloads,
                "artifact"@,
            ) matches Some(artifact) && member(artifact, "path"@) matches Some(JsonModel::Text(_)))
                ==> library_key(library) == json_text(library)
        },
{
}

/// What merging two documents gives: where both have a list of arguments under a name, the merged
/// document has the game's arguments there and behind them the loader's, all of them in order.
pub proof fn law_merged_document_has_every_argument(
    base: Json,
    overlay: Json,
    merged: Result<Json, LauncherError>,
    lists: JsonModel,
    more_lists: JsonModel,
    key: Seq<char>,
    first: Seq<JsonModel>,
    more: Seq<JsonModel>,
)
    requires
        call_ensures(merge_version_values, (base, overlay), merged),
        member(base.deep_view(), "arguments"@) == Some(lists),
        member(overlay.deep_view(), "arguments"@) == Some(more_lists),
        member(lists, key) == Some(JsonModel::Array(first)),
        member(more_lists, key) == Some(JsonModel::Array(more)),
    ensures
        merged matches Ok(json) && (member(json.deep_view(), "arguments"@) matches Some(together)
            && (member(together, key) matches Some(JsonModel::Array(all)) && {
            &&& all.len() == first.len() + more.len()
            &&& forall|i: int| 0 <= i < first.len() ==> #[trigger] all[i] == first[i]
            &&& forall|i: int| 0 <= i < more.len() ==> all[first.len() + i] == #[trigger] more[i]
        })),
{
    assert(merge_outcome(base.deep_view(), overlay.deep_view(), merged));
    law_only_objects_are_merged(base.deep_view(), overlay.deep_view(), merged);
    let json = merged->Ok_0;
    law_merged_version_has_every_argument(
        base.deep_view()->Object_0,
        overlay.deep_view()->Object_0,
        json.deep_view()->Object_0,
        lists->Object_0,
        more_lists->Object_0,
        key,
        first,
        more,
    );
}

} // verus!
