//! The assets of the game: where they are kept, and which are fetched.
use vstd::prelude::*;

use crate::number::{decimal, decimal_text};
use crate::paths::{instance_dir, instance_dir_path, AppPath};
use crate::text::{chars_of, concat4, text_of};

verus! {

/// The first two bytes of a hash in UTF-8, where they are whole characters.
pub open spec fn hash_prefix(hash: Seq<char>) -> Option<Seq<char>> {
    if hash.len() >= 2 && (hash[0] as int) < 0x80 && (hash[1] as int) < 0x80 {
        Some(hash.take(2))
    } else if hash.len() >= 1 && 0x80 <= (hash[0] as int) < 0x800 {
        Some(hash.take(1))
    } else {
        None
    }
}

/// The first two bytes of a hash, which name the directory of the asset, where there are any.
pub fn asset_prefix(hash: &str) -> (prefix: Option<String>)
    ensures
        prefix.deep_view() == hash_prefix(hash@),
{
    let chars = chars_of(hash);
    if chars.len() >= 2 && chars[0] <= '\u{7f}' && chars[1] <= '\u{7f}' {
        let prefix = text_of(&chars, 0, 2);
        assert(prefix@ =~= hash@.take(2));
        Some(prefix)
    } else if chars.len() >= 1 && '\u{80}' <= chars[0] && chars[0] <= '\u{7ff}' {
        let prefix = text_of(&chars, 0, 1);
        assert(prefix@ =~= hash@.take(1));
        Some(prefix)
    } else {
        None
    }
}

/// Where an asset is kept.
pub open spec fn asset_path(id: Seq<char>, hash: Seq<char>) -> Seq<Seq<char>> {
    instance_dir_path(id, "assets"@).push("objects"@).push(hash_prefix(hash)->Some_0).push(hash)
}

/// Where an asset is fetched from.
pub open spec fn asset_url(hash: Seq<char>) -> Seq<char> {
    "https://resources.download.minecraft.net/"@ + hash_prefix(hash)->Some_0 + "/"@ + hash
}

fn known_prefix(hash: &str) -> (prefix: String)
    requires
        hash_prefix(hash@) is Some,
    ensures
        Some(prefix@) == hash_prefix(hash@),
{
    match asset_prefix(hash) {
        Some(prefix) => prefix,
        None => String::new(),
    }
}

/// Where an asset is kept.
pub fn asset_object_path(profile_id: &str, hash: &str) -> (path: AppPath)
    requires
        hash_prefix(hash@) is Some,
    ensures
        path@ == asset_path(profile_id@, hash@),
{
    let prefix = known_prefix(hash);
    instance_dir(profile_id, "assets").join("objects").join(prefix.as_str()).join(hash)
}

/// An asset that was looked for.
#[derive(Debug)]
pub struct ProbedAsset {
    pub hash: String,
    pub exists: bool,
}

/// What a [`ProbedAsset`] holds.
pub struct ProbedAssetModel {
    pub hash: Seq<char>,
    pub exists: bool,
}

impl DeepView for ProbedAsset {
    type V = ProbedAssetModel;

    open spec fn deep_view(&self) -> ProbedAssetModel {
        ProbedAssetModel { hash: self.hash@, exists: self.exists }
    }
}

/// A file to fetch, and where to keep it.
#[derive(Debug)]
pub struct AssetJob {
    pub url: String,
    pub path: AppPath,
}

/// What an [`AssetJob`] holds.
pub struct AssetJobModel {
    pub url: Seq<char>,
    pub path: Seq<Seq<char>>,
}

impl DeepView for AssetJob {
    type V = AssetJobModel;

    open spec fn deep_view(&self) -> AssetJobModel {
        AssetJobModel { url: self.url@, path: self.path@ }
    }
}

/// How an asset is fetched.
pub open spec fn asset_job(id: Seq<char>, hash: Seq<char>) -> AssetJobModel {
    AssetJobModel { url: asset_url(hash), path: asset_path(id, hash) }
}

/// The assets that are not there yet, in order.
pub open spec fn missing_assets(id: Seq<char>, assets: Seq<ProbedAssetModel>) -> Seq<AssetJobModel>
    decreases assets.len(),
{
    if assets.len() == 0 {
        Seq::empty()
    } else {
        let before = missing_assets(id, assets.drop_last());
        if assets.last().exists {
            before
        } else {
            before.push(asset_job(id, assets.last().hash))
        }
    }
}

/// The assets to fetch: those that are not there yet, in order.
pub fn asset_queue(profile_id: &str, assets: &Vec<ProbedAsset>) -> (queue: Vec<AssetJob>)
    requires
        forall|i: int|
            0 <= i < assets.deep_view().len() ==> hash_prefix(
                (#[trigger] assets.deep_view()[i]).hash,
            ) is Some,
    ensures
        queue.deep_view() == missing_assets(profile_id@, assets.deep_view()),
{
    let mut queue: Vec<AssetJob> = Vec::new();
    let mut i: usize = 0;
    let ghost all = assets.deep_view();
    assert(all.take(0) =~= Seq::empty());
    assert(queue.deep_view() =~= Seq::empty());
    while i < assets.len()
        invariant
            i <= assets@.len(),
            all == assets.deep_view(),
            forall|k: int| 0 <= k < all.len() ==> hash_prefix((#[trigger] all[k]).hash) is Some,
            queue.deep_view() == missing_assets(profile_id@, all.take(i as int)),
        decreases assets@.len() - i,
    {
        let ghost before = queue.deep_view();
        assert(all.take(i + 1).drop_last() =~= all.take(i as int));
        assert(all[i as int] == assets@[i as int].deep_view());
        if !assets[i].exists {
            let hash = assets[i].hash.as_str();
            let prefix = known_prefix(hash);
            let url = concat4(
                "https://resources.download.minecraft.net/",
                prefix.as_str(),
                "/",
                hash,
            );
            let job = AssetJob { url, path: asset_object_path(profile_id, hash) };
            assert(job.deep_view() == asset_job(profile_id@, hash@));
            queue.push(job);
            assert(queue.deep_view() =~= before.push(asset_job(profile_id@, hash@)));
        }
        i = i + 1;
    }
    assert(all.take(i as int) =~= all);
    queue
}

// ---------------------------------------------------------------------------
// Batches
// ---------------------------------------------------------------------------

/// How many files are fetched at the same time.
pub const ASSET_BATCH: usize = 24;

/// The number of batches for `total` files.
pub open spec fn batch_count(total: nat) -> nat {
    (total + 23) / 24
}

/// The files of one batch, from the first up to and without the second.
pub open spec fn batch(total: nat, i: int) -> (int, int) {
    (
        24 * i,
        if 24 * (i + 1) < total {
            24 * (i + 1)
        } else {
            total as int
        },
    )
}

/// The batches in which `total` files are fetched: each as large as it can be.
pub fn asset_batches(total: usize) -> (batches: Vec<(usize, usize)>)
    ensures
        batches@.len() == batch_count(total as nat),
        forall|i: int|
            0 <= i < batches@.len() ==> ((#[trigger] batches@[i]).0 as int, batches@[i].1 as int)
                == batch(total as nat, i),
{
    let mut batches: Vec<(usize, usize)> = Vec::new();
    let mut start: usize = 0;
    while start < total
        invariant
            start <= total,
            start < total ==> start == 24 * batches@.len(),
            start == total ==> batches@.len() == batch_count(total as nat),
            forall|i: int|
                0 <= i < batches@.len() ==> (
                    (#[trigger] batches@[i]).0 as int,
                    batches@[i].1 as int,
                ) == batch(total as nat, i),
        decreases total - start,
    {
        let end: usize = if total - start > ASSET_BATCH {
            start + ASSET_BATCH
        } else {
            total
        };
        batches.push((start, end));
        start = end;
    }
    batches
}

/// What the player is told after a batch.
pub fn asset_progress(done: usize, total: usize) -> (message: String)
    ensures
        message@ == "Downloading assets... "@ + decimal_text(done as nat) + "/"@ + decimal_text(
            total as nat,
        ),
{
    let done_digits = decimal(done as u64);
    let total_digits = decimal(total as u64);
    concat4("Downloading assets... ", done_digits.as_str(), "/", total_digits.as_str())
}

/// What the player is told when every asset is there already.
pub const ASSETS_CACHED: &'static str = "Assets already cached.";

// ---------------------------------------------------------------------------
// Laws
// ---------------------------------------------------------------------------

/// Every file is in one batch, and in one only; no batch is empty or holds more than 24 files.
pub proof fn law_batches_cover_all(total: nat, k: int, i: int)
    requires
        0 <= k < total,
        0 <= i < batch_count(total),
    ensures
        0 <= k / 24 < batch_count(total),
        batch(total, i).0 <= k < batch(total, i).1 <==> i == k / 24,
        0 < batch(total, i).1 - batch(total, i).0 <= 24,
        batch(total, i).1 <= total,
{
}

/// Nothing that is there already is fetched, and nothing is fetched that was not looked for.
pub proof fn law_only_missing_assets_are_fetched(
    id: Seq<char>,
    assets: Seq<ProbedAssetModel>,
    k: int,
)
    requires
        0 <= k < missing_assets(id, assets).len(),
    ensures
        exists|i: int|
            0 <= i < assets.len() && !(#[trigger] assets[i]).exists && missing_assets(id, assets)[k]
                == asset_job(id, assets[i].hash),
    decreases assets.len(),
{
    if assets.len() > 0 {
        let init = assets.drop_last();
        let before = missing_assets(id, init);
        if k < before.len() {
            law_only_missing_assets_are_fetched(id, init, k);
            let i = choose|i: int|
                0 <= i < init.len() && !(#[trigger] init[i]).exists && before[k] == asset_job(
                    id,
                    init[i].hash,
                );
            assert(assets[i] == init[i]);
            assert(missing_assets(id, assets)[k] == before[k]);
        } else {
            assert(!assets[assets.len() - 1].exists);
        }
    }
}

/// Every asset that is not there is fetched.
pub proof fn law_every_missing_asset_is_fetched(
    id: Seq<char>,
    assets: Seq<ProbedAssetModel>,
    i: int,
)
    requires
        0 <= i < assets.len(),
        !assets[i].exists,
    ensures
        missing_assets(id, assets).contains(asset_job(id, assets[i].hash)),
    decreases assets.len(),
{
    let all = missing_assets(id, assets);
    let init = assets.drop_last();
    let before = missing_assets(id, init);
    if i < init.len() {
        law_every_missing_asset_is_fetched(id, init, i);
        let k = choose|k: int| 0 <= k < before.len() && before[k] == asset_job(id, init[i].hash);
        assert(all[k] == before[k]);
    } else {
        assert(all[before.len() as int] == asset_job(id, assets[i].hash));
    }
}

/// The directory of an asset is named by the first two bytes of its hash: two ASCII characters, or
/// one character that takes two bytes; otherwise no whole characters make up two bytes.
pub proof fn law_directory_of_an_asset(hash: Seq<char>, a: char, b: char, rest: Seq<char>)
    ensures
        hash_prefix(Seq::empty()) is None,
        (a as int) < 128 && (b as int) < 128 ==> hash_prefix(seq![a, b] + rest) == Some(seq![a, b]),
        (a as int) < 128 && (b as int) >= 128 ==> hash_prefix(seq![a, b] + rest) is None,
        (a as int) < 128 ==> hash_prefix(seq![a]) is None,
        128 <= (a as int) < 2048 ==> hash_prefix(seq![a] + rest) == Some(seq![a]),
        (a as int) >= 2048 ==> hash_prefix(seq![a] + rest) is None,
{
    assert((seq![a, b] + rest).take(2) =~= seq![a, b]);
    assert((seq![a] + rest).take(1) =~= seq![a]);
}

/// Where an asset is fetched from and where it is kept, in terms of its directory.
pub proof fn law_place_of_an_asset(id: Seq<char>, hash: Seq<char>, prefix: Seq<char>)
    requires
        hash_prefix(hash) == Some(prefix),
    ensures
        asset_job(id, hash).url == "https://resources.download.minecraft.net/"@ + prefix + "/"@ + hash,
        asset_job(id, hash).path == seq!["profiles"@, id, "instance"@, "assets"@] + seq![
            "objects"@,
            prefix,
            hash,
        ],
        asset_path(id, hash) == asset_job(id, hash).path,
{
    crate::paths::law_where_a_profile_lies(id, "assets"@, hash, hash);
    assert(asset_path(id, hash) =~= seq!["profiles"@, id, "instance"@, "assets"@] + seq![
        "objects"@,
        prefix,
        hash,
    ]);
}

/// The assets to fetch follow the list: those of two lists one after the other are theirs one after
/// the other; an asset that is there gives nothing, any other one job.
pub proof fn law_jobs_follow_the_list(
    id: Seq<char>,
    first: Seq<ProbedAssetModel>,
    second: Seq<ProbedAssetModel>,
    asset: ProbedAssetModel,
)
    ensures
        missing_assets(id, first + second) == missing_assets(id, first) + missing_assets(id, second),
        missing_assets(id, Seq::empty()).len() == 0,
        asset.exists ==> missing_assets(id, seq![asset]).len() == 0,
        !asset.exists ==> missing_assets(id, seq![asset]) == seq![asset_job(id, asset.hash)],
    decreases second.len(),
{
    let one = seq![asset];
    assert(one.drop_last() =~= Seq::empty());
    assert(one.last() == asset);
    assert(missing_assets(id, one.drop_last()) =~= Seq::empty());
    if second.len() == 0 {
        assert(first + second =~= first);
        assert(missing_assets(id, first) + missing_assets(id, second) =~= missing_assets(id, first));
    } else {
        let init = second.drop_last();
        law_jobs_follow_the_list(id, first, init, asset);
        assert((first + second).drop_last() =~= first + init);
        assert((first + second).last() == second.last());
        assert(missing_assets(id, first + second) =~= missing_assets(id, first) + missing_assets(
            id,
            second,
        ));
    }
}

/// Every batch but the last holds 24 files, each begins where the one before it ends, the first at
/// the first file and the last ends at the last one; without files there is no batch.
pub proof fn law_batches_follow_each_other(total: nat, i: int)
    requires
        0 <= i < batch_count(total),
    ensures
        batch_count(0) == 0,
        batch(total, 0).0 == 0,
        i + 1 < batch_count(total) ==> batch(total, i).1 - batch(total, i).0 == 24 && batch(
            total,
            i + 1,
        ).0 == batch(total, i).1,
        i + 1 == batch_count(total) ==> batch(total, i).1 == total,
{
}

} // verus!
