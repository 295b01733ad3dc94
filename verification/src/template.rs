//! What filling in a template comes to: every placeholder is replaced, and nothing else.
use vstd::prelude::*;

use crate::external::{is_nickname, is_uuid_text};
use crate::identity::{law_identifier_is_a_plain_name, law_nickname_is_a_plain_word};
use crate::launch::{
    asset_index_name, filled_in, placeholder, replacements, version_type_of, LaunchEnvModel,
    VersionMetaModel,
};
use crate::pairs::{distinct_keys, law_lookup_entry, lemma_lookup_push, lookup};
use crate::profile::ProfileModel;
use crate::text::replace_text;

verus! {

/// A piece of a template.
pub enum Piece {
    /// Text that stands for itself.
    Text(Seq<char>),
    /// The place of a value.
    Place(Seq<char>),
}

/// How a piece is written.
pub open spec fn piece_text(piece: Piece) -> Seq<char> {
    match piece {
        Piece::Text(text) => text,
        Piece::Place(key) => placeholder(key),
    }
}

/// How a template is written.
pub open spec fn template_text(pieces: Seq<Piece>) -> Seq<char>
    decreases pieces.len(),
{
    if pieces.len() == 0 {
        Seq::empty()
    } else {
        piece_text(pieces[0]) + template_text(pieces.skip(1))
    }
}

/// Whether a text has no dollar sign, so that no placeholder begins in it.
pub open spec fn no_dollar(text: Seq<char>) -> bool {
    forall|i: int| 0 <= i < text.len() ==> #[trigger] text[i] != '$'
}

/// Whether a key has neither a dollar sign nor a closing brace, so that its placeholder ends where
/// the key does.
pub open spec fn is_plain_key(key: Seq<char>) -> bool {
    forall|i: int| 0 <= i < key.len() ==> #[trigger] key[i] != '$' && key[i] != '}'
}

/// Whether the pieces can be told apart in the written template.
pub open spec fn is_piece(piece: Piece) -> bool {
    match piece {
        Piece::Text(text) => no_dollar(text),
        Piece::Place(key) => is_plain_key(key),
    }
}

/// Whether the pieces can be told apart in the written template.
pub open spec fn is_template(pieces: Seq<Piece>) -> bool {
    forall|i: int| 0 <= i < pieces.len() ==> is_piece(#[trigger] pieces[i])
}

/// Whether values can be filled in without making a new placeholder.
pub open spec fn are_plain_values(values: Seq<(Seq<char>, Seq<char>)>) -> bool {
    forall|i: int|
        0 <= i < values.len() ==> is_plain_key((#[trigger] values[i]).0) && no_dollar(values[i].1)
}

/// A piece with its value in its place, if there is one.
pub open spec fn filled_piece(piece: Piece, values: Seq<(Seq<char>, Seq<char>)>) -> Piece {
    match piece {
        Piece::Text(_) => piece,
        Piece::Place(key) => match lookup(values, key) {
            Some(value) => Piece::Text(value),
            None => piece,
        },
    }
}

/// A template with every value in its place, all at once.
pub open spec fn filled_pieces(
    pieces: Seq<Piece>,
    values: Seq<(Seq<char>, Seq<char>)>,
) -> Seq<Piece> {
    pieces.map_values(|piece: Piece| filled_piece(piece, values))
}

/// A placeholder begins with a dollar sign.
proof fn lemma_placeholder(key: Seq<char>)
    ensures
        placeholder(key) == seq!['$', '{'] + key + seq!['}'],
        placeholder(key).len() == key.len() + 3,
        placeholder(key)[0] == '$',
{
    reveal_strlit("${");
    reveal_strlit("}");
    assert("${"@ =~= seq!['$', '{']);
    assert("}"@ =~= seq!['}']);
}

/// Replacing a placeholder passes over text without a dollar sign.
proof fn lemma_replace_skips(text: Seq<char>, rest: Seq<char>, key: Seq<char>, value: Seq<char>)
    requires
        no_dollar(text),
    ensures
        replace_text(text + rest, placeholder(key), value) == text + replace_text(
            rest,
            placeholder(key),
            value,
        ),
    decreases text.len(),
{
    let pat = placeholder(key);
    lemma_placeholder(key);
    if text.len() == 0 {
        assert(text + rest =~= rest);
        assert(text + replace_text(rest, pat, value) =~= replace_text(rest, pat, value));
    } else {
        let s = text + rest;
        let t = text.skip(1);
        assert(s[0] == text[0]);
        assert(!pat.is_prefix_of(s)) by {
            if pat.is_prefix_of(s) {
                assert(pat[0] == s[0]);
            }
        }
        assert(s.skip(1) =~= t + rest);
        lemma_replace_skips(t, rest, key, value);
        assert(text =~= seq![text[0]] + t);
        assert(seq![s[0]] + (t + replace_text(rest, pat, value)) =~= text + replace_text(
            rest,
            pat,
            value,
        ));
    }
}

/// Replacing a placeholder replaces it where it stands.
proof fn lemma_replace_hits(rest: Seq<char>, key: Seq<char>, value: Seq<char>)
    ensures
        replace_text(placeholder(key) + rest, placeholder(key), value) == value + replace_text(
            rest,
            placeholder(key),
            value,
        ),
{
    let pat = placeholder(key);
    lemma_placeholder(key);
    let s = pat + rest;
    assert(pat.is_prefix_of(s));
    assert(s.skip(pat.len() as int) =~= rest);
}

/// Replacing a placeholder leaves other placeholders.
proof fn lemma_replace_misses(rest: Seq<char>, other: Seq<char>, key: Seq<char>, value: Seq<char>)
    requires
        is_plain_key(other),
        is_plain_key(key),
        other != key,
    ensures
        replace_text(placeholder(other) + rest, placeholder(key), value) == placeholder(other)
            + replace_text(rest, placeholder(key), value),
{
    let pat = placeholder(key);
    let place = placeholder(other);
    lemma_placeholder(key);
    lemma_placeholder(other);
    let s = place + rest;
    assert(!pat.is_prefix_of(s)) by {
        if pat.is_prefix_of(s) {
            let shorter: int = if key.len() < other.len() {
                key.len() as int
            } else {
                other.len() as int
            };
            assert forall|i: int| 0 <= i < shorter implies #[trigger] key[i] == other[i] by {
                assert(pat[i + 2] == s[i + 2]);
            }
            assert(pat[shorter + 2] == s[shorter + 2]);
            if key.len() < other.len() {
                assert(s[shorter + 2] == other[shorter]);
                assert(false);
            } else if key.len() > other.len() {
                assert(pat[shorter + 2] == key[shorter]);
                assert(false);
            } else {
                assert(key =~= other);
            }
        }
    }
    let tail = place.skip(1);
    assert(s.skip(1) =~= tail + rest);
    assert(tail =~= seq!['{'] + other + seq!['}']);
    lemma_replace_skips(tail, rest, key, value);
    assert(place =~= seq!['$'] + tail);
    assert(seq![s[0]] + (tail + replace_text(rest, pat, value)) =~= place + replace_text(
        rest,
        pat,
        value,
    ));
}

/// Replacing one placeholder fills in one value.
proof fn lemma_replace_one(pieces: Seq<Piece>, key: Seq<char>, value: Seq<char>)
    requires
        is_template(pieces),
        is_plain_key(key),
    ensures
        replace_text(template_text(pieces), placeholder(key), value) == template_text(
            filled_pieces(pieces, seq![(key, value)]),
        ),
    decreases pieces.len(),
{
    let one = seq![(key, value)];
    let filled = filled_pieces(pieces, one);
    reveal_with_fuel(lookup, 2);
    if pieces.len() > 0 {
        let rest = pieces.skip(1);
        assert forall|i: int| 0 <= i < rest.len() implies is_piece(#[trigger] rest[i]) by {
            assert(rest[i] == pieces[i + 1]);
        }
        lemma_replace_one(rest, key, value);
        assert(filled.skip(1) =~= filled_pieces(rest, one));
        assert(is_piece(pieces[0]));
        match pieces[0] {
            Piece::Text(text) => {
                lemma_replace_skips(text, template_text(rest), key, value);
            },
            Piece::Place(other) => {
                if other == key {
                    assert(one[0] == (key, value));
                    assert(lookup(one, key) == Some(value));
                    assert(filled[0] == Piece::Text(value));
                    lemma_replace_hits(template_text(rest), key, value);
                } else {
                    assert(one.skip(1) =~= Seq::empty());
                    assert(lookup(one, other) is None);
                    assert(filled[0] == pieces[0]);
                    lemma_replace_misses(template_text(rest), other, key, value);
                }
            },
        }
    }
}

// ---------------------------------------------------------------------------
// Laws
// ---------------------------------------------------------------------------

/// Filling in a template puts every value in its place and leaves all else as it is, whatever the
/// order of the values.
pub proof fn law_filling_in_is_simultaneous(
    pieces: Seq<Piece>,
    values: Seq<(Seq<char>, Seq<char>)>,
)
    requires
        is_template(pieces),
        are_plain_values(values),
    ensures
        filled_in(template_text(pieces), values) == template_text(filled_pieces(pieces, values)),
        is_template(filled_pieces(pieces, values)),
    decreases values.len(),
{
    let filled = filled_pieces(pieces, values);
    if values.len() == 0 {
        assert(filled =~= pieces);
    } else {
        let init = values.drop_last();
        let (key, value) = values.last();
        assert(values[values.len() - 1] == (key, value));
        assert forall|i: int| 0 <= i < init.len() implies is_plain_key((#[trigger] init[i]).0)
            && no_dollar(init[i].1) by {
            assert(init[i] == values[i]);
        }
        law_filling_in_is_simultaneous(pieces, init);
        let before = filled_pieces(pieces, init);
        lemma_replace_one(before, key, value);
        let after = filled_pieces(before, seq![(key, value)]);
        assert forall|i: int| 0 <= i < pieces.len() implies #[trigger] after[i] == filled[i]
            && is_piece(filled[i]) by {
            assert(is_piece(pieces[i]));
            assert(is_piece(before[i]));
            reveal_with_fuel(lookup, 2);
            assert(seq![(key, value)].skip(1) =~= Seq::empty());
            if let Piece::Place(k) = pieces[i] {
                lemma_lookup_push(init, (key, value), k);
                assert(init.push((key, value)) =~= values);
            }
        }
        assert(after =~= filled);
    }
}

/// The order of the values does not matter: only which value goes with which key.
pub proof fn law_filling_in_ignores_order(
    pieces: Seq<Piece>,
    values: Seq<(Seq<char>, Seq<char>)>,
    reordered: Seq<(Seq<char>, Seq<char>)>,
)
    requires
        is_template(pieces),
        are_plain_values(values),
        are_plain_values(reordered),
        forall|key: Seq<char>| #[trigger] lookup(values, key) == lookup(reordered, key),
    ensures
        filled_in(template_text(pieces), values) == filled_in(template_text(pieces), reordered),
{
    law_filling_in_is_simultaneous(pieces, values);
    law_filling_in_is_simultaneous(pieces, reordered);
    assert(filled_pieces(pieces, values) =~= filled_pieces(pieces, reordered)) by {
        assert forall|i: int| 0 <= i < pieces.len() implies filled_piece(
            #[trigger] pieces[i],
            values,
        ) == filled_piece(pieces[i], reordered) by {
            if let Piece::Place(key) = pieces[i] {
                assert(lookup(values, key) == lookup(reordered, key));
            }
        }
    }
}

/// A text without a dollar sign is left as it is, whatever the values.
pub proof fn law_plain_text_is_left_alone(
    text: Seq<char>,
    values: Seq<(Seq<char>, Seq<char>)>,
)
    requires
        no_dollar(text),
    ensures
        filled_in(text, values) == text,
    decreases values.len(),
{
    if values.len() > 0 {
        law_plain_text_is_left_alone(text, values.drop_last());
        let (key, value) = values.last();
        lemma_replace_skips(text, Seq::empty(), key, value);
        assert(text + Seq::<char>::empty() =~= text);
        assert(replace_text(Seq::empty(), placeholder(key), value) =~= Seq::<char>::empty());
    }
}

/// A placeholder on its own becomes its value.
pub proof fn law_placeholder_becomes_its_value(
    key: Seq<char>,
    values: Seq<(Seq<char>, Seq<char>)>,
)
    requires
        is_plain_key(key),
        are_plain_values(values),
    ensures
        lookup(values, key) matches Some(value) ==> filled_in(placeholder(key), values) == value,
        lookup(values, key) is None ==> filled_in(placeholder(key), values) == placeholder(key),
{
    let pieces = seq![Piece::Place(key)];
    assert(is_template(pieces));
    law_filling_in_is_simultaneous(pieces, values);
    reveal_with_fuel(template_text, 2);
    let filled = filled_pieces(pieces, values);
    assert(pieces.skip(1) =~= Seq::empty());
    assert(filled.skip(1) =~= Seq::empty());
    assert(template_text(pieces) =~= placeholder(key));
    assert(filled[0] == filled_piece(pieces[0], values));
    assert(template_text(filled) =~= piece_text(filled[0]));
}

/// The values that a game is launched with can be filled in in any order, as long as no directory,
/// no version and no asset index has a dollar sign in its name.
pub proof fn law_launch_values_are_plain(
    profile: ProfileModel,
    meta: VersionMetaModel,
    env: LaunchEnvModel,
    uuid: Seq<char>,
)
    requires
        is_nickname(profile.nickname),
        is_uuid_text(uuid, '5'),
        no_dollar(meta.id),
        no_dollar(version_type_of(meta)),
        no_dollar(asset_index_name(meta, profile)),
        no_dollar(env.game_dir),
        no_dollar(env.assets_dir),
        no_dollar(env.natives_dir),
        no_dollar(env.libraries_dir),
        no_dollar(env.classpath),
    ensures
        are_plain_values(replacements(profile, meta, env, uuid)),
{
    assert(no_dollar(profile.nickname)) by {
        assert forall|i: int| 0 <= i < profile.nickname.len() implies #[trigger]
        profile.nickname[i] != '$' by {
            law_nickname_is_a_plain_word(profile.nickname, i);
        }
    }
    assert(no_dollar(uuid)) by {
        assert forall|i: int| 0 <= i < uuid.len() implies #[trigger] uuid[i] != '$' by {
            law_identifier_is_a_plain_name(uuid, '5', i);
        }
    }
    reveal_strlit("auth_player_name");
    reveal_strlit("auth_username");
    reveal_strlit("profile_name");
    reveal_strlit("user_name");
    reveal_strlit("username");
    reveal_strlit("version_name");
    reveal_strlit("game_directory");
    reveal_strlit("assets_root");
    reveal_strlit("assets_index_name");
    reveal_strlit("auth_uuid");
    reveal_strlit("auth_access_token");
    reveal_strlit("user_type");
    reveal_strlit("version_type");
    reveal_strlit("auth_session");
    reveal_strlit("user_properties");
    reveal_strlit("game_assets");
    reveal_strlit("natives_directory");
    reveal_strlit("launcher_name");
    reveal_strlit("launcher_version");
    reveal_strlit("library_directory");
    reveal_strlit("classpath_separator");
    reveal_strlit("classpath");
    reveal_strlit("clientid");
    reveal_strlit("client_id");
    reveal_strlit("xuid");
    reveal_strlit("auth_xuid");
    reveal_strlit("resolution_width");
    reveal_strlit("resolution_height");
    reveal_strlit("offline-token");
    reveal_strlit("legacy");
    reveal_strlit("{}");
    reveal_strlit("RoundStudioLauncher");
    reveal_strlit("0.1.0");
    reveal_strlit(";");
    reveal_strlit("");
    reveal_strlit("854");
    reveal_strlit("480");
    reveal_strlit("token:offline-token:");
}

/// A number that tells the keys of a launch apart: from the length, the fourth letter from the end
/// and the first letter.
spec fn key_mark(key: Seq<char>) -> int {
    key.len() * 65536 + (key[key.len() - 4] as int) * 256 + key[0] as int
}

/// The position of a key of a launch, by its mark.
spec fn key_position(mark: int) -> int {
    if mark == 1076833 {
        0
    } else if mark == 880225 {
        1
    } else if mark == 814704 {
        2
    } else if mark == 618101 {
        3
    } else if mark == 552565 {
        4
    } else if mark == 814710 {
        5
    } else if mark == 947303 {
        6
    } else if mark == 750177 {
        7
    } else if mark == 1142369 {
        8
    } else if mark == 619873 {
        9
    } else if mark == 1142625 {
        10
    } else if mark == 619637 {
        11
    } else if mark == 816246 {
        12
    } else if mark == 815969 {
        13
    } else if mark == 1012853 {
        14
    } else if mark == 750439 {
        15
    } else if mark == 1143918 {
        16
    } else if mark == 880236 {
        17
    } else if mark == 1078124 {
        18
    } else if mark == 1143916 {
        19
    } else if mark == 1270115 {
        20
    } else if mark == 618595 {
        21
    } else if mark == 552547 {
        22
    } else if mark == 619619 {
        23
    } else if mark == 292984 {
        24
    } else if mark == 620641 {
        25
    } else if mark == 1075570 {
        26
    } else if mark == 1141106 {
        27
    } else {
        -1
    }
}

/// No two values that a game is launched with go by the same key.
pub proof fn law_launch_keys_are_distinct(
    profile: ProfileModel,
    meta: VersionMetaModel,
    env: LaunchEnvModel,
    uuid: Seq<char>,
)
    ensures
        distinct_keys(replacements(profile, meta, env, uuid)),
{
    let values = replacements(profile, meta, env, uuid);
    assert(key_position(key_mark(values[0].0)) == 0) by {
        reveal_strlit("auth_player_name");
    }
    assert(key_position(key_mark(values[1].0)) == 1) by {
        reveal_strlit("auth_username");
    }
    assert(key_position(key_mark(values[2].0)) == 2) by {
        reveal_strlit("profile_name");
    }
    assert(key_position(key_mark(values[3].0)) == 3) by {
        reveal_strlit("user_name");
    }
    assert(key_position(key_mark(values[4].0)) == 4) by {
        reveal_strlit("username");
    }
    assert(key_position(key_mark(values[5].0)) == 5) by {
        reveal_strlit("version_name");
    }
    assert(key_position(key_mark(values[6].0)) == 6) by {
        reveal_strlit("game_directory");
    }
    assert(key_position(key_mark(values[7].0)) == 7) by {
        reveal_strlit("assets_root");
    }
    assert(key_position(key_mark(values[8].0)) == 8) by {
        reveal_strlit("assets_index_name");
    }
    assert(key_position(key_mark(values[9].0)) == 9) by {
        reveal_strlit("auth_uuid");
    }
    assert(key_position(key_mark(values[10].0)) == 10) by {
        reveal_strlit("auth_access_token");
    }
    assert(key_position(key_mark(values[11].0)) == 11) by {
        reveal_strlit("user_type");
    }
    assert(key_position(key_mark(values[12].0)) == 12) by {
        reveal_strlit("version_type");
    }
    assert(key_position(key_mark(values[13].0)) == 13) by {
        reveal_strlit("auth_session");
    }
    assert(key_position(key_mark(values[14].0)) == 14) by {
        reveal_strlit("user_properties");
    }
    assert(key_position(key_mark(values[15].0)) == 15) by {
        reveal_strlit("game_assets");
    }
    assert(key_position(key_mark(values[16].0)) == 16) by {
        reveal_strlit("natives_directory");
    }
    assert(key_position(key_mark(values[17].0)) == 17) by {
        reveal_strlit("launcher_name");
    }
    assert(key_position(key_mark(values[18].0)) == 18) by {
        reveal_strlit("launcher_version");
    }
    assert(key_position(key_mark(values[19].0)) == 19) by {
        reveal_strlit("library_directory");
    }
    assert(key_position(key_mark(values[20].0)) == 20) by {
        reveal_strlit("classpath_separator");
    }
    assert(key_position(key_mark(values[21].0)) == 21) by {
        reveal_strlit("classpath");
    }
    assert(key_position(key_mark(values[22].0)) == 22) by {
        reveal_strlit("clientid");
    }
    assert(key_position(key_mark(values[23].0)) == 23) by {
        reveal_strlit("client_id");
    }
    assert(key_position(key_mark(values[24].0)) == 24) by {
        reveal_strlit("xuid");
    }
    assert(key_position(key_mark(values[25].0)) == 25) by {
        reveal_strlit("auth_xuid");
    }
    assert(key_position(key_mark(values[26].0)) == 26) by {
        reveal_strlit("resolution_width");
    }
    assert(key_position(key_mark(values[27].0)) == 27) by {
        reveal_strlit("resolution_height");
    }
    assert forall|i: int| 0 <= i < values.len() implies key_position(
        key_mark((#[trigger] values[i]).0),
    ) == i by {}
}

/// The login is an offline one: the game gets the fixed token, and the identity of the nickname.
pub proof fn law_login_is_offline(
    profile: ProfileModel,
    meta: VersionMetaModel,
    env: LaunchEnvModel,
    uuid: Seq<char>,
)
    ensures
        lookup(replacements(profile, meta, env, uuid), "auth_access_token"@) == Some(
            "offline-token"@,
        ),
        lookup(replacements(profile, meta, env, uuid), "auth_uuid"@) == Some(uuid),
        lookup(replacements(profile, meta, env, uuid), "auth_player_name"@) == Some(
            profile.nickname,
        ),
{
    let values = replacements(profile, meta, env, uuid);
    law_launch_keys_are_distinct(profile, meta, env, uuid);
    law_lookup_entry(values, 0);
    law_lookup_entry(values, 9);
    law_lookup_entry(values, 10);
}

} // verus!
