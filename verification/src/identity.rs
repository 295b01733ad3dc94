//! Who the player is: nicknames, and the identity that goes with one.
use vstd::prelude::*;
use vstd::string::StringSliceAdditionalSpecFns;
use vstd::utf8::encode_utf8;

use crate::error::LauncherError;
use crate::external::{
    is_nickname, is_uuid_text, oid_name_uuid, random_uuid, regex_is_match, uuid_from_name,
};
use crate::text::concat2;

verus! {

/// Refuses a text that is not a nickname.
pub fn require_valid_nick(nick: &str) -> (checked: Result<(), LauncherError>)
    ensures
        checked is Ok <==> is_nickname(nick@),
        checked matches Err(error) ==> error is InvalidNickname,
{
    if regex_is_match("^[A-Za-z0-9_]{3,16}$", nick) {
        Ok(())
    } else {
        Err(LauncherError::InvalidNickname)
    }
}

/// The identity of the player with this nickname.
pub open spec fn offline_id(nickname: Seq<char>) -> Seq<char> {
    oid_name_uuid(encode_utf8("OfflinePlayer:"@ + nickname))
}

/// The identity of the player with this nickname: the same each time, and a version 5 UUID.
pub fn offline_uuid(nickname: &str) -> (id: String)
    ensures
        id@ == offline_id(nickname@),
        is_uuid_text(id@, '5'),
{
    let name = concat2("OfflinePlayer:", nickname);
    uuid_from_name(name.as_str().as_bytes())
}

/// A new identifier: a version 4 UUID.
pub fn fresh_id() -> (id: String)
    ensures
        is_uuid_text(id@, '4'),
{
    random_uuid()
}

/// When something was made, in seconds since the Unix epoch; `0` when the clock stands before it.
pub open spec fn timestamp_text(since_epoch: Option<u64>) -> Seq<char> {
    match since_epoch {
        Some(seconds) => crate::number::decimal_text(seconds as nat),
        None => "0"@,
    }
}

/// A moment as text, from the whole seconds since the Unix epoch, if the clock gives any.
pub fn now_rfc3339(since_epoch: Option<u64>) -> (text: String)
    ensures
        text@ == timestamp_text(since_epoch),
{
    match since_epoch {
        Some(seconds) => crate::number::decimal(seconds),
        None => "0".to_owned(),
    }
}

// ---------------------------------------------------------------------------
// Laws
// ---------------------------------------------------------------------------

/// An identifier is safe as the name of a directory: it has no separator, no dot, no drive, and
/// no placeholder.
pub proof fn law_identifier_is_a_plain_name(id: Seq<char>, version: char, i: int)
    requires
        is_uuid_text(id, version),
        0 <= i < id.len(),
    ensures
        id[i] != '/',
        id[i] != '\\',
        id[i] != '.',
        id[i] != ':',
        id[i] != '$',
{
}

/// A nickname needs no escaping: it has no white space, no quote and no placeholder.
pub proof fn law_nickname_is_a_plain_word(nickname: Seq<char>, i: int)
    requires
        is_nickname(nickname),
        0 <= i < nickname.len(),
    ensures
        !crate::text::is_white_space(nickname[i]),
        nickname[i] != '"',
        nickname[i] != '$',
        nickname[i] != '-',
{
    assert(crate::external::is_nickname_char(nickname[i]));
}

/// A moment is written as its seconds; without a clock it is `0`.
pub proof fn law_how_a_moment_is_written(seconds: u64)
    ensures
        timestamp_text(Some(seconds)) == crate::number::decimal_text(seconds as nat),
        timestamp_text(None) == "0"@,
{
}

/// The identity of a player is the name-based UUID of `OfflinePlayer:` and the nickname.
pub proof fn law_identity_goes_by_the_nickname(nickname: Seq<char>)
    ensures
        offline_id(nickname) == oid_name_uuid(encode_utf8("OfflinePlayer:"@ + nickname)),
{
}

/// A nickname has 3 to 16 characters, each a letter, a digit or an underscore, and every such text is
/// one.
pub proof fn law_what_a_nickname_is(text: Seq<char>)
    ensures
        is_nickname(text) <==> 3 <= text.len() <= 16 && forall|i: int|
            0 <= i < text.len() ==> {
                let n = #[trigger] text[i] as int;
                65 <= n <= 90 || 97 <= n <= 122 || 48 <= n <= 57 || n == 95
            },
{
    if is_nickname(text) {
        assert forall|i: int| 0 <= i < text.len() implies {
            let n = #[trigger] text[i] as int;
            65 <= n <= 90 || 97 <= n <= 122 || 48 <= n <= 57 || n == 95
        } by {
            assert(crate::external::is_nickname_char(text[i]));
        }
    }
}

} // verus!
