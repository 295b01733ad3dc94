//! Searching content on Modrinth, and choosing what to download from there.
use vstd::prelude::*;

use crate::error::LauncherError;
use crate::external::{percent_encoded, url_encode};
use crate::json::{
    items_in, json_text, member, plain_text, value_to_string, Json, JsonModel, JsonNumber,
};
use crate::loaders::{loader_label, loader_name};
use crate::number::{decimal, decimal_text};
use crate::paths::ContentKind;
use crate::profile::LoaderType;
use crate::text::{
    concat3, is_blank, is_white_space, join, join_text, law_blank_is_all_white_space,
    law_trim_leaves_what_is_between, same_text, trim, trim_text,
};

verus! {

// ---------------------------------------------------------------------------
// Searching
// ---------------------------------------------------------------------------

/// How many hits there are on a page.
pub const PAGE_SIZE: u32 = 20;

/// The page to show: the first, unless a later one is asked for.
pub open spec fn shown_page(page: Option<u32>) -> u32 {
    match page {
        Some(page) => if page < 1 {
            1
        } else {
            page
        },
        None => 1,
    }
}

/// The page to show.
pub fn search_page(page: Option<u32>) -> (shown: u32)
    ensures
        shown == shown_page(page),
{
    match page {
        Some(page) => if page < 1 {
            1
        } else {
            page
        },
        None => 1,
    }
}

/// The number of hits before a page.
pub open spec fn page_offset(page: u32) -> int {
    (page - 1) * 20
}

/// How Modrinth names a kind of content.
pub open spec fn project_type(kind: ContentKind) -> Seq<char> {
    match kind {
        ContentKind::Mod => "mod"@,
        ContentKind::Resourcepack => "resourcepack"@,
        ContentKind::Shaderpack => "shader"@,
    }
}

fn project_type_name(kind: ContentKind) -> (name: &'static str)
    ensures
        name@ == project_type(kind),
{
    match kind {
        ContentKind::Mod => "mod",
        ContentKind::Resourcepack => "resourcepack",
        ContentKind::Shaderpack => "shader",
    }
}

/// One condition of a search.
pub open spec fn facet(name: Seq<char>, value: Seq<char>) -> Seq<char> {
    "[\""@ + name + ":"@ + value + "\"]"@
}

fn facet_text(name: &str, value: &str) -> (text: String)
    ensures
        text@ == facet(name@, value@),
{
    let mut text = "[\"".to_owned();
    text.append(name);
    text.append(":");
    text.append(value);
    text.append("\"]");
    text
}

/// Whether a search is narrowed down to a loader: only for mods, and only where there is one.
pub open spec fn narrows_to_loader(kind: ContentKind, loader: Seq<char>) -> bool {
    kind == ContentKind::Mod && loader.len() > 0 && loader != "vanilla"@
}

/// The conditions of a search.
pub open spec fn facets(kind: ContentKind, version: Seq<char>, loader: Seq<char>) -> Seq<Seq<char>> {
    let both = seq![facet("project_type"@, project_type(kind)), facet("versions"@, version)];
    if narrows_to_loader(kind, loader) {
        both.push(facet("categories"@, loader))
    } else {
        both
    }
}

/// Whether hits can be put in this order.
pub open spec fn is_search_order(order: Seq<char>) -> bool {
    ||| order == "downloads"@
    ||| order == "follows"@
    ||| order == "updated"@
    ||| order == "newest"@
}

/// The order of the hits: by relevance, unless another known one is asked for.
pub open spec fn search_order(sort_index: Option<Seq<char>>) -> Seq<char> {
    match sort_index {
        Some(order) => if is_search_order(trim_text(order)) {
            trim_text(order)
        } else {
            "relevance"@
        },
        None => "relevance"@,
    }
}

fn search_order_name(sort_index: Option<&str>) -> (order: String)
    ensures
        order@ == search_order(sort_index.deep_view()),
{
    if let Some(given) = sort_index {
        let order = trim(given);
        let name = order.as_str();
        if same_text(name, "downloads") || same_text(name, "follows") || same_text(name, "updated")
            || same_text(name, "newest") {
            return order;
        }
    }
    "relevance".to_owned()
}

/// The address of a search.
pub open spec fn search_address(
    kind: ContentKind,
    query: Seq<char>,
    version: Seq<char>,
    loader: Seq<char>,
    sort_index: Option<Seq<char>>,
    page: u32,
) -> Seq<char> {
    "https://api.modrinth.com/v2/search?query="@ + percent_encoded(query) + "&limit="@
        + decimal_text(20) + "&offset="@ + decimal_text(page_offset(page) as nat) + "&index="@
        + percent_encoded(search_order(sort_index)) + "&facets="@ + percent_encoded(
        "["@ + join_text(facets(kind, version, loader), ","@) + "]"@,
    )
}

/// The address of a search, for a page that [`search_page`] gives.
pub fn search_url(
    kind: ContentKind,
    query: &str,
    version: &str,
    loader: &str,
    sort_index: Option<&str>,
    page: u32,
) -> (url: String)
    requires
        page >= 1,
        page_offset(page) <= u32::MAX,
    ensures
        url@ == search_address(kind, query@, version@, loader@, sort_index.deep_view(), page),
{
    let offset: u32 = (page - 1) * PAGE_SIZE;
    let mut parts: Vec<String> = Vec::new();
    parts.push(facet_text("project_type", project_type_name(kind)));
    parts.push(facet_text("versions", version));
    if kind == ContentKind::Mod && !loader.is_empty() && !same_text(loader, "vanilla") {
        parts.push(facet_text("categories", loader));
    }
    assert(parts.deep_view() =~= facets(kind, version@, loader@));
    let joined = join(&parts, ",");
    let all_facets = concat3("[", joined.as_str(), "]");
    let order = search_order_name(sort_index);
    let encoded_query = url_encode(query);
    let encoded_order = url_encode(order.as_str());
    let encoded_facets = url_encode(all_facets.as_str());
    let limit_digits = decimal(PAGE_SIZE as u64);
    let offset_digits = decimal(offset as u64);
    let mut url = "https://api.modrinth.com/v2/search?query=".to_owned();
    url.append(encoded_query.as_str());
    url.append("&limit=");
    url.append(limit_digits.as_str());
    url.append("&offset=");
    url.append(offset_digits.as_str());
    url.append("&index=");
    url.append(encoded_order.as_str());
    url.append("&facets=");
    url.append(encoded_facets.as_str());
    url
}

/// A project that a search found.
#[derive(Debug)]
pub struct ModrinthSearchHit {
    pub project_id: String,
    pub slug: String,
    pub title: String,
    pub description: String,
}

/// What a [`ModrinthSearchHit`] holds.
pub struct HitModel {
    pub project_id: Seq<char>,
    pub slug: Seq<char>,
    pub title: Seq<char>,
    pub description: Seq<char>,
}

impl DeepView for ModrinthSearchHit {
    type V = HitModel;

    open spec fn deep_view(&self) -> HitModel {
        HitModel {
            project_id: self.project_id@,
            slug: self.slug@,
            title: self.title@,
            description: self.description@,
        }
    }
}

/// A page of what a search found.
#[derive(Debug)]
pub struct ModrinthSearchPage {
    pub hits: Vec<ModrinthSearchHit>,
    pub total_hits: u32,
    pub page: u32,
    pub page_size: u32,
}

/// A document as plain text, or `default` where there is none.
pub open spec fn plain_text_or(json: Option<JsonModel>, default: Seq<char>) -> Seq<char> {
    match json {
        Some(json) => match plain_text(json) {
            Some(text) => text,
            None => default,
        },
        None => default,
    }
}

fn text_or(json: Option<&Json>, default: &str) -> (text: String)
    ensures
        text@ == plain_text_or(json.deep_view(), default@),
{
    match json {
        Some(json) => match value_to_string(json) {
            Some(text) => text,
            None => default.to_owned(),
        },
        None => default.to_owned(),
    }
}

/// The identifier of a project, under either of its two names; empty where there is none.
pub open spec fn hit_id(item: JsonModel) -> Seq<char> {
    plain_text_or(
        if member(item, "project_id"@) is Some {
            member(item, "project_id"@)
        } else {
            member(item, "projectId"@)
        },
        ""@,
    )
}

/// The project that an item of the answer describes, if it has an identifier.
pub open spec fn hit(item: JsonModel) -> Option<HitModel> {
    if hit_id(item).len() == 0 {
        None
    } else {
        Some(
            HitModel {
                project_id: hit_id(item),
                slug: plain_text_or(member(item, "slug"@), ""@),
                title: plain_text_or(member(item, "title"@), "Untitled"@),
                description: plain_text_or(member(item, "description"@), ""@),
            },
        )
    }
}

/// The projects that the items of the answer describe, in order.
pub open spec fn hits_among(items: Seq<JsonModel>) -> Seq<HitModel>
    decreases items.len(),
{
    if items.len() == 0 {
        Seq::empty()
    } else {
        let before = hits_among(items.drop_last());
        match hit(items.last()) {
            Some(found) => before.push(found),
            None => before,
        }
    }
}

/// The number of hits that the answer gives; 0 where it gives none that fits.
pub open spec fn total_among(payload: JsonModel) -> u32 {
    match member(payload, "total_hits"@) {
        Some(JsonModel::Number { unsigned: Some(total), .. }) => if total <= u32::MAX {
            total as u32
        } else {
            0
        },
        _ => 0,
    }
}

fn read_hit(item: &Json) -> (found: Option<ModrinthSearchHit>)
    ensures
        found.deep_view() == hit(item.deep_view()),
{
    let id_value = match item.member("project_id") {
        Some(value) => Some(value),
        None => item.member("projectId"),
    };
    let project_id = text_or(id_value, "");
    if project_id.as_str().is_empty() {
        return None;
    }
    Some(
        ModrinthSearchHit {
            project_id,
            slug: text_or(item.member("slug"), ""),
            title: text_or(item.member("title"), "Untitled"),
            description: text_or(item.member("description"), ""),
        },
    )
}

fn read_total(payload: &Json) -> (total: u32)
    ensures
        total == total_among(payload.deep_view()),
{
    match payload.member("total_hits") {
        Some(Json::Number(JsonNumber { unsigned: Some(total), .. })) => if *total
            <= u32::MAX as u64 {
            *total as u32
        } else {
            0
        },
        _ => 0,
    }
}

/// A page of what a search found, from the answer to it.
pub fn read_search_page(payload: &Json, page: u32) -> (found: ModrinthSearchPage)
    ensures
        found.hits.deep_view() == hits_among(items_in(member(payload.deep_view(), "hits"@))),
        found.total_hits == total_among(payload.deep_view()),
        found.page == page,
        found.page_size == PAGE_SIZE,
{
    let mut hits: Vec<ModrinthSearchHit> = Vec::new();
    let ghost all = items_in(member(payload.deep_view(), "hits"@));
    assert(hits.deep_view() =~= Seq::empty());
    let listed = match payload.member("hits") {
        Some(listed) => listed.as_items(),
        None => None,
    };
    if let Some(items) = listed {
        assert(items.deep_view() == all);
        let mut i: usize = 0;
        assert(all.take(0) =~= Seq::empty());
        while i < items.len()
            invariant
                i <= items@.len(),
                items.deep_view() == all,
                hits.deep_view() == hits_among(all.take(i as int)),
            decreases items@.len() - i,
        {
            let ghost before = hits.deep_view();
            assert(all.take(i + 1).drop_last() =~= all.take(i as int));
            assert(all[i as int] == items@[i as int].deep_view());
            if let Some(found) = read_hit(&items[i]) {
                hits.push(found);
                assert(hits.deep_view() =~= before.push(found.deep_view()));
            }
            i = i + 1;
        }
        assert(all.take(i as int) =~= all);
    }
    ModrinthSearchPage { hits, total_hits: read_total(payload), page, page_size: PAGE_SIZE }
}

// ---------------------------------------------------------------------------
// Versions of a project
// ---------------------------------------------------------------------------

/// How the version of a project is asked for.
#[derive(Debug)]
pub enum VersionRequest {
    /// One version, by its identifier.
    Single { url: String },
    /// The versions of the project that fit a game version.
    List { url: String },
}

/// The address of the versions of a project that fit a profile.
pub open spec fn version_list_address(
    project_id: Seq<char>,
    game_version: Seq<char>,
    kind: ContentKind,
    loader: LoaderType,
) -> Seq<char> {
    let address = "https://api.modrinth.com/v2/project/"@ + project_id
        + "/version?game_versions=[\""@ + game_version + "\"]"@;
    if kind == ContentKind::Mod && loader != LoaderType::Vanilla {
        address + "&loaders=[\""@ + loader_label(loader) + "\"]"@
    } else {
        address
    }
}

/// How the version of a project is asked for: by its identifier if there is one, else by what the
/// profile needs.
pub fn fetch_modrinth_version(
    project_id: &str,
    version_id: &str,
    game_version: &str,
    kind: ContentKind,
    loader: LoaderType,
) -> (request: VersionRequest)
    ensures
        match request {
            VersionRequest::Single { url } => {
                &&& trim_text(version_id@).len() > 0
                &&& url@ == "https://api.modrinth.com/v2/version/"@ + version_id@
            },
            VersionRequest::List { url } => {
                &&& trim_text(version_id@).len() == 0
                &&& url@ == version_list_address(project_id@, game_version@, kind, loader)
            },
        },
{
    if !is_blank(version_id) {
        let mut url = "https://api.modrinth.com/v2/version/".to_owned();
        url.append(version_id);
        return VersionRequest::Single { url };
    }
    let mut url = "https://api.modrinth.com/v2/project/".to_owned();
    url.append(project_id);
    url.append("/version?game_versions=[\"");
    url.append(game_version);
    url.append("\"]");
    if kind == ContentKind::Mod && loader != LoaderType::Vanilla {
        url.append("&loaders=[\"");
        url.append(loader_name(loader));
        url.append("\"]");
    }
    VersionRequest::List { url }
}

/// A file of a version of a project.
#[derive(Debug)]
pub struct ModrinthVersionFile {
    pub url: String,
    pub filename: String,
    pub primary: bool,
}

/// What a [`ModrinthVersionFile`] holds.
pub struct VersionFileModel {
    pub url: Seq<char>,
    pub filename: Seq<char>,
    pub primary: bool,
}

impl DeepView for ModrinthVersionFile {
    type V = VersionFileModel;

    open spec fn deep_view(&self) -> VersionFileModel {
        VersionFileModel { url: self.url@, filename: self.filename@, primary: self.primary }
    }
}

/// A version of a project.
#[derive(Debug)]
pub struct ModrinthVersion {
    pub files: Vec<ModrinthVersionFile>,
}

/// The version to install from a list: the first. A project without one is refused.
pub fn first_version(versions: Vec<ModrinthVersion>) -> (first: Result<
    ModrinthVersion,
    LauncherError,
>)
    ensures
        match first {
            Ok(version) => versions@.len() > 0 && version == versions@[0],
            Err(error) => versions@.len() == 0 && error is NoCompatibleVersion,
        },
{
    for version in it: versions
        invariant
            it.seq() == versions@,
            it.index() == 0,
    {
        return Ok(version);
    }
    Err(LauncherError::NoCompatibleVersion)
}

/// The first primary file.
pub open spec fn first_primary(files: Seq<VersionFileModel>) -> Option<VersionFileModel>
    decreases files.len(),
{
    if files.len() == 0 {
        None
    } else if files[0].primary {
        Some(files[0])
    } else {
        first_primary(files.skip(1))
    }
}

/// The file to download: the first primary one, else the first.
pub open spec fn chosen_file(files: Seq<VersionFileModel>) -> Option<VersionFileModel> {
    if first_primary(files) is Some {
        first_primary(files)
    } else if files.len() > 0 {
        Some(files[0])
    } else {
        None
    }
}

/// The file to download: the first primary one, else the first.
pub fn choose_file(version: &ModrinthVersion) -> (chosen: Option<&ModrinthVersionFile>)
    ensures
        chosen.deep_view() == chosen_file(version.files.deep_view()),
{
    let files = &version.files;
    let ghost all = files.deep_view();
    let mut i: usize = 0;
    assert(all.skip(0) =~= all);
    while i < files.len()
        invariant
            i <= files@.len(),
            all == files.deep_view(),
            all == version.files.deep_view(),
            first_primary(all) == first_primary(all.skip(i as int)),
        decreases files@.len() - i,
    {
        assert(all.skip(i as int)[0] == files@[i as int].deep_view());
        assert(all.skip(i as int).skip(1) =~= all.skip(i + 1));
        if files[i].primary {
            return Some(&files[i]);
        }
        i = i + 1;
    }
    assert(all.len() == files@.len());
    if files.len() > 0 {
        assert(all[0] == files@[0].deep_view());
        Some(&files[0])
    } else {
        None
    }
}

// ---------------------------------------------------------------------------
// Laws
// ---------------------------------------------------------------------------

/// Pages follow each other without a gap and without overlap, and the first begins at the start.
pub proof fn law_pages_follow_each_other(page: u32)
    requires
        1 <= page < u32::MAX,
    ensures
        page_offset(1) == 0,
        page_offset((page + 1) as u32) == page_offset(page) + PAGE_SIZE,
{
}

/// Every hit that is shown has an identifier.
pub proof fn law_hits_have_identifiers(items: Seq<JsonModel>, i: int)
    requires
        0 <= i < hits_among(items).len(),
    ensures
        hits_among(items)[i].project_id.len() > 0,
    decreases items.len(),
{
    if items.len() > 0 {
        let before = hits_among(items.drop_last());
        if i < before.len() {
            law_hits_have_identifiers(items.drop_last(), i);
        }
    }
}

/// There is a file to download exactly if the version has files, and it is one of them; it is a
/// primary one if there is one.
pub proof fn law_chosen_file_is_listed(files: Seq<VersionFileModel>)
    ensures
        chosen_file(files) is Some <==> files.len() > 0,
        chosen_file(files) matches Some(file) ==> files.contains(file),
        (exists|i: int| 0 <= i < files.len() && (#[trigger] files[i]).primary) ==> (
        chosen_file(files)->Some_0).primary,
{
    lemma_first_primary(files);
    if files.len() > 0 {
        assert(files.contains(files[0]));
    }
}

proof fn lemma_first_primary(files: Seq<VersionFileModel>)
    ensures
        first_primary(files) matches Some(file) ==> files.contains(file) && file.primary,
        first_primary(files) is Some <==> exists|i: int|
            0 <= i < files.len() && (#[trigger] files[i]).primary,
    decreases files.len(),
{
    if files.len() > 0 {
        if files[0].primary {
            assert(files.contains(files[0]));
        } else {
            let rest = files.skip(1);
            lemma_first_primary(rest);
            if first_primary(rest) is Some {
                let k = choose|k: int| 0 <= k < rest.len() && rest[k] == first_primary(rest)->Some_0;
                assert(files[k + 1] == rest[k]);
            }
            if exists|i: int| 0 <= i < files.len() && (#[trigger] files[i]).primary {
                let i = choose|i: int| 0 <= i < files.len() && (#[trigger] files[i]).primary;
                assert(rest[i - 1] == files[i]);
            }
        }
    }
}

/// The page that is shown is the one that is asked for, counted from 1; without a word it is the
/// first. Before it lie 20 hits for each earlier page.
pub proof fn law_which_page_is_shown(page: u32)
    ensures
        shown_page(None) == 1,
        shown_page(Some(0)) == 1,
        page >= 1 ==> shown_page(Some(page)) == page,
        page >= 1 ==> page_offset(page) == 20 * page - 20,
{
}

/// A search is narrowed down to the kind and the game version, in that order, and for a mod to its
/// loader, unless that is none or vanilla.
pub proof fn law_conditions_of_a_search(kind: ContentKind, version: Seq<char>, loader: Seq<char>)
    ensures
        project_type(ContentKind::Mod) == "mod"@,
        project_type(ContentKind::Resourcepack) == "resourcepack"@,
        project_type(ContentKind::Shaderpack) == "shader"@,
        facets(kind, version, loader)[0] == "[\""@ + "project_type"@ + ":"@ + project_type(kind)
            + "\"]"@,
        facets(kind, version, loader)[1] == "[\""@ + "versions"@ + ":"@ + version + "\"]"@,
        kind == ContentKind::Mod && loader.len() > 0 && loader != "vanilla"@ ==> {
            &&& facets(kind, version, loader).len() == 3
            &&& facets(kind, version, loader)[2] == "[\""@ + "categories"@ + ":"@ + loader + "\"]"@
        },
        kind != ContentKind::Mod || loader.len() == 0 || loader == "vanilla"@ ==> facets(
            kind,
            version,
            loader,
        ).len() == 2,
{
}

/// Hits come in the order that is asked for, if it is one of the four that can be asked for, white
/// space around it aside; else by relevance.
pub proof fn law_order_of_the_hits(before: Seq<char>, order: Seq<char>, after: Seq<char>)
    requires
        forall|k: int| 0 <= k < before.len() ==> is_white_space(#[trigger] before[k]),
        forall|k: int| 0 <= k < after.len() ==> is_white_space(#[trigger] after[k]),
        order.len() > 0 ==> !is_white_space(order[0]) && !is_white_space(order[order.len() - 1]),
    ensures
        search_order(None) == "relevance"@,
        order == "downloads"@ || order == "follows"@ || order == "updated"@ || order == "newest"@
            ==> search_order(Some(before + order + after)) == order,
        order != "downloads"@ && order != "follows"@ && order != "updated"@ && order != "newest"@
            ==> search_order(Some(before + order + after)) == "relevance"@,
{
    law_trim_leaves_what_is_between(before, order, after);
}

/// The address of a search: the query, the size of a page, the hits before it, the order, and the
/// conditions in brackets with commas between them, what the player writes being encoded.
pub proof fn law_address_of_a_search(
    kind: ContentKind,
    query: Seq<char>,
    version: Seq<char>,
    loader: Seq<char>,
    sort_index: Option<Seq<char>>,
    page: u32,
)
    requires
        page >= 1,
    ensures
        ({
            let conditions = facets(kind, version, loader);
            search_address(kind, query, version, loader, sort_index, page)
                == "https://api.modrinth.com/v2/search?query="@ + percent_encoded(query)
                + "&limit="@ + "20"@ + "&offset="@ + decimal_text((20 * page - 20) as nat)
                + "&index="@ + percent_encoded(search_order(sort_index)) + "&facets="@
                + percent_encoded(
                "["@ + (if conditions.len() == 3 {
                    conditions[0] + ","@ + conditions[1] + ","@ + conditions[2]
                } else {
                    conditions[0] + ","@ + conditions[1]
                }) + "]"@,
            )
        }),
{
    reveal_strlit("20");
    let conditions = facets(kind, version, loader);
    reveal_with_fuel(decimal_text, 2);
    assert(decimal_text(20) =~= "20"@);
    assert(page_offset(page) == 20 * page - 20);
    reveal_with_fuel(join_text, 3);
    if conditions.len() == 3 {
        assert(conditions.drop_last().drop_last()[0] == conditions[0]);
        assert(conditions.drop_last().last() == conditions[1]);
        assert(join_text(conditions, ","@) =~= conditions[0] + ","@ + conditions[1] + ","@
            + conditions[2]);
    } else {
        assert(conditions.drop_last()[0] == conditions[0]);
        assert(join_text(conditions, ","@) =~= conditions[0] + ","@ + conditions[1]);
    }
}

/// What is shown of a project: its identifier under either of its two names, the first name first;
/// its address, its title and its description, each with what stands for it where it is missing or
/// null. A project without an identifier is not shown.
pub proof fn law_what_is_shown_of_a_project(item: JsonModel, id: Seq<char>, other: Seq<char>)
    ensures
        member(item, "project_id"@) == Some(JsonModel::Text(id)) && id.len() > 0 ==> {
            &&& hit(item) is Some
            &&& hit(item)->Some_0.project_id == id
        },
        member(item, "project_id"@) == Some(JsonModel::Text(id)) && id.len() == 0 ==> hit(
            item,
        ) is None,
        member(item, "project_id"@) is None && member(item, "projectId"@) == Some(
            JsonModel::Text(other),
        ) && other.len() > 0 ==> {
            &&& hit(item) is Some
            &&& hit(item)->Some_0.project_id == other
        },
        member(item, "project_id"@) is None && member(item, "projectId"@) is None ==> hit(
            item,
        ) is None,
        member(item, "project_id"@) == Some(JsonModel::Null) ==> hit(item) is None,
        hit(item) matches Some(shown) ==> {
            &&& member(item, "slug"@) is None || member(item, "slug"@) == Some(JsonModel::Null)
                ==> shown.slug == ""@
            &&& member(item, "slug"@) == Some(JsonModel::Text(other)) ==> shown.slug == other
            &&& member(item, "title"@) is None || member(item, "title"@) == Some(JsonModel::Null)
                ==> shown.title == "Untitled"@
            &&& member(item, "title"@) == Some(JsonModel::Text(other)) ==> shown.title == other
            &&& member(item, "description"@) is None || member(item, "description"@) == Some(
                JsonModel::Null,
            ) ==> shown.description == ""@
            &&& member(item, "description"@) == Some(JsonModel::Text(other)) ==> shown.description
                == other
        },
{
    reveal_strlit("");
}

/// A value that is neither text nor null is shown as it is printed.
pub proof fn law_other_values_are_shown_as_printed(json: JsonModel, default: Seq<char>)
    ensures
        !(json is Text) && !(json is Null) ==> plain_text_or(Some(json), default) == json_text(json),
        plain_text_or(None, default) == default,
        plain_text_or(Some(JsonModel::Null), default) == default,
{
}

/// The hits follow the items of the answer: those of two lists one after the other are theirs one
/// after the other; an item gives the project that it describes, or nothing.
pub proof fn law_hits_follow_the_items(
    first: Seq<JsonModel>,
    second: Seq<JsonModel>,
    item: JsonModel,
)
    ensures
        hits_among(first + second) == hits_among(first) + hits_among(second),
        hits_among(Seq::empty()).len() == 0,
        hit(item) matches Some(found) ==> hits_among(seq![item]) == seq![found],
        hit(item) is None ==> hits_among(seq![item]).len() == 0,
    decreases second.len(),
{
    let one = seq![item];
    assert(one.drop_last() =~= Seq::empty());
    assert(one.last() == item);
    assert(hits_among(one.drop_last()) =~= Seq::empty());
    if second.len() == 0 {
        assert(first + second =~= first);
        assert(hits_among(first) + hits_among(second) =~= hits_among(first));
    } else {
        let init = second.drop_last();
        law_hits_follow_the_items(first, init, item);
        assert((first + second).drop_last() =~= first + init);
        assert((first + second).last() == second.last());
        assert(hits_among(first + second) =~= hits_among(first) + hits_among(second));
    }
}

/// The number of hits is what the answer gives, where that is a whole number that fits; else 0.
pub proof fn law_number_of_hits(payload: JsonModel, text: Seq<char>, total: u64)
    ensures
        member(payload, "total_hits"@) is None ==> total_among(payload) == 0,
        member(payload, "total_hits"@) matches Some(value) ==> (!(value is Number) ==> total_among(
            payload,
        ) == 0),
        member(payload, "total_hits"@) == Some(JsonModel::Number { text, unsigned: None })
            ==> total_among(payload) == 0,
        member(payload, "total_hits"@) == Some(JsonModel::Number { text, unsigned: Some(total) })
            && total <= u32::MAX ==> total_among(payload) as int == total as int,
        member(payload, "total_hits"@) == Some(JsonModel::Number { text, unsigned: Some(total) })
            && total > u32::MAX ==> total_among(payload) == 0,
{
}

/// The versions of a project are asked for by the game version, and for a mod by its loader too.
pub proof fn law_address_of_the_versions(
    project_id: Seq<char>,
    game_version: Seq<char>,
    kind: ContentKind,
    loader: LoaderType,
)
    ensures
        kind != ContentKind::Mod || loader == LoaderType::Vanilla ==> version_list_address(
            project_id,
            game_version,
            kind,
            loader,
        ) == "https://api.modrinth.com/v2/project/"@ + project_id
            + "/version?game_versions=[\""@ + game_version + "\"]"@,
        kind == ContentKind::Mod && loader == LoaderType::Fabric ==> version_list_address(
            project_id,
            game_version,
            kind,
            loader,
        ) == "https://api.modrinth.com/v2/project/"@ + project_id
            + "/version?game_versions=[\""@ + game_version + "\"]"@ + "&loaders=[\""@ + "fabric"@
            + "\"]"@,
        kind == ContentKind::Mod && loader == LoaderType::Forge ==> version_list_address(
            project_id,
            game_version,
            kind,
            loader,
        ) == "https://api.modrinth.com/v2/project/"@ + project_id
            + "/version?game_versions=[\""@ + game_version + "\"]"@ + "&loaders=[\""@ + "forge"@
            + "\"]"@,
{
}

/// The file to download is the first that is primary; where none is, the first of all.
pub proof fn law_first_primary_file_is_chosen(files: Seq<VersionFileModel>, i: int)
    requires
        0 <= i < files.len(),
        forall|j: int| 0 <= j < i ==> !(#[trigger] files[j]).primary,
    ensures
        files[i].primary ==> chosen_file(files) == Some(files[i]),
        i + 1 == files.len() && !files[i].primary ==> chosen_file(files) == Some(files[0]),
{
    lemma_first_primary(files);
    lemma_first_primary_at(files, i);
}

proof fn lemma_first_primary_at(files: Seq<VersionFileModel>, i: int)
    requires
        0 <= i < files.len(),
        forall|j: int| 0 <= j < i ==> !(#[trigger] files[j]).primary,
    ensures
        files[i].primary ==> first_primary(files) == Some(files[i]),
    decreases files.len(),
{
    if i > 0 {
        assert(!files[0].primary);
        let rest = files.skip(1);
        assert forall|j: int| 0 <= j < i - 1 implies !(#[trigger] rest[j]).primary by {
            assert(rest[j] == files[j + 1]);
        }
        lemma_first_primary_at(rest, i - 1);
    }
}

/// A version is asked for by its identifier where there is more to that than white space, else by
/// what the profile needs.
pub proof fn law_how_a_version_is_asked_for(
    project_id: &str,
    version_id: &str,
    game_version: &str,
    kind: ContentKind,
    loader: LoaderType,
    request: VersionRequest,
)
    requires
        call_ensures(
            fetch_modrinth_version,
            (project_id, version_id, game_version, kind, loader),
            request,
        ),
    ensures
        request is List <==> forall|k: int|
            0 <= k < version_id@.len() ==> is_white_space(#[trigger] version_id@[k]),
        request matches VersionRequest::Single { url } ==> url@
            == "https://api.modrinth.com/v2/version/"@ + version_id@,
        request matches VersionRequest::List { url } ==> url@ == version_list_address(
            project_id@,
            game_version@,
            kind,
            loader,
        ),
{
    law_blank_is_all_white_space(version_id@);
}

/// Of a list of versions the first is taken; an empty list is refused.
pub proof fn law_first_version_is_taken(
    versions: Vec<ModrinthVersion>,
    first: Result<ModrinthVersion, LauncherError>,
)
    requires
        call_ensures(first_version, (versions,), first),
    ensures
        first is Ok <==> versions@.len() > 0,
        first matches Ok(version) ==> version == versions@[0],
        first matches Err(error) ==> error is NoCompatibleVersion,
{
}

/// A page that was read has the hits of the answer, the number of the page, and 20 as its size.
pub proof fn law_page_that_is_read(payload: &Json, page: u32, found: ModrinthSearchPage)
    requires
        call_ensures(read_search_page, (payload, page), found),
    ensures
        found.page == page,
        found.page_size == 20,
        found.total_hits == total_among(payload.deep_view()),
        !(member(payload.deep_view(), "hits"@) matches Some(JsonModel::Array(_)))
            ==> found.hits.deep_view().len() == 0,
        member(payload.deep_view(), "hits"@) matches Some(JsonModel::Array(items))
            ==> found.hits.deep_view() == hits_among(items),
{
}

} // verus!
