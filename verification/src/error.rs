//! What can go wrong, and what the player is told.
use vstd::prelude::*;

use crate::number::{decimal, decimal_text};

verus! {

/// A refusal of the launcher.
#[derive(Debug)]
pub enum LauncherError {
    /// A nickname has the wrong length or a character that is not allowed.
    InvalidNickname,
    /// The metadata of a game version is not an object.
    BaseNotObject,
    /// The metadata of a mod loader is not an object.
    OverlayNotObject,
    /// The official list does not have the game version.
    UnknownVersion,
    /// A Fabric profile has no loader version.
    FabricVersionNotSelected,
    /// A Forge profile has no loader version.
    ForgeVersionNotSelected,
    /// A Forge installer has no version metadata.
    ForgeMetadataMissing,
    /// A project has no version for the profile.
    NoCompatibleVersion,
    /// A version of a project has no files.
    NoVersionFiles,
    /// The version of the skin loader has no files.
    NoSkinLoaderFiles,
    /// A file to import is not there.
    FileNotFound,
    /// A file to import has no usable name.
    InvalidFileName,
    /// A skin to wear is not there.
    SkinNotFound,
    /// An entry of a native library has no usable name.
    InvalidNativeEntry,
    /// A profile has a critical issue.
    ValidationFailed,
    /// No Java runtime was found to launch with.
    JavaNotFound,
    /// The Java runtime is older than the game needs.
    JavaTooOld { required: u8, minecraft_version: String, found: u8, path: String },
    /// No process has this handle.
    ProcessNotFound,
    /// The table of processes cannot be used.
    ProcessTableUnavailable,
}

/// What the player is told.
pub open spec fn error_text(error: LauncherError) -> Seq<char> {
    match error {
        LauncherError::InvalidNickname => "Nickname must match [A-Za-z0-9_]{3,16}"@,
        LauncherError::BaseNotObject => "base version metadata is not an object"@,
        LauncherError::OverlayNotObject => "loader metadata is not an object"@,
        LauncherError::UnknownVersion => "Minecraft version is missing in official manifest"@,
        LauncherError::FabricVersionNotSelected => "Fabric loader version is not selected"@,
        LauncherError::ForgeVersionNotSelected => "Forge version is not selected"@,
        LauncherError::ForgeMetadataMissing
            => "Forge installer does not contain version metadata"@,
        LauncherError::NoCompatibleVersion => "No compatible file version found"@,
        LauncherError::NoVersionFiles => "Selected Modrinth version has no files"@,
        LauncherError::NoSkinLoaderFiles => "CustomSkinLoader: empty version payload"@,
        LauncherError::FileNotFound => "File not found"@,
        LauncherError::InvalidFileName => "Invalid file name"@,
        LauncherError::SkinNotFound => "PNG file not found"@,
        LauncherError::InvalidNativeEntry => "invalid native entry name"@,
        LauncherError::ValidationFailed => "Profile validation failed. Check diagnostics."@,
        LauncherError::JavaNotFound => "Java runtime for launch was not found"@,
        LauncherError::JavaTooOld { required, minecraft_version, found, path } => "Java "@
            + decimal_text(required as nat) + " required for Minecraft "@ + minecraft_version@
            + ", but found Java "@ + decimal_text(found as nat) + " ("@ + path@ + ")"@,
        LauncherError::ProcessNotFound => "Launch process not found"@,
        LauncherError::ProcessTableUnavailable => "Failed to access process table"@,
    }
}

impl LauncherError {
    /// What the player is told.
    pub fn message(&self) -> (text: String)
        ensures
            text@ == error_text(*self),
    {
        match self {
            LauncherError::InvalidNickname => "Nickname must match [A-Za-z0-9_]{3,16}".to_owned(),
            LauncherError::BaseNotObject => "base version metadata is not an object".to_owned(),
            LauncherError::OverlayNotObject => "loader metadata is not an object".to_owned(),
            LauncherError::UnknownVersion
                => "Minecraft version is missing in official manifest".to_owned(),
            LauncherError::FabricVersionNotSelected
                => "Fabric loader version is not selected".to_owned(),
            LauncherError::ForgeVersionNotSelected => "Forge version is not selected".to_owned(),
            LauncherError::ForgeMetadataMissing
                => "Forge installer does not contain version metadata".to_owned(),
            LauncherError::NoCompatibleVersion => "No compatible file version found".to_owned(),
            LauncherError::NoVersionFiles => "Selected Modrinth version has no files".to_owned(),
            LauncherError::NoSkinLoaderFiles => "CustomSkinLoader: empty version payload".to_owned(),
            LauncherError::FileNotFound => "File not found".to_owned(),
            LauncherError::InvalidFileName => "Invalid file name".to_owned(),
            LauncherError::SkinNotFound => "PNG file not found".to_owned(),
            LauncherError::InvalidNativeEntry => "invalid native entry name".to_owned(),
            LauncherError::ValidationFailed
                => "Profile validation failed. Check diagnostics.".to_owned(),
            LauncherError::JavaNotFound => "Java runtime for launch was not found".to_owned(),
            LauncherError::JavaTooOld { required, minecraft_version, found, path } => {
                let mut text = "Java ".to_owned();
                let required_digits = decimal(*required as u64);
                let found_digits = decimal(*found as u64);
                text.append(required_digits.as_str());
                text.append(" required for Minecraft ");
                text.append(minecraft_version.as_str());
                text.append(", but found Java ");
                text.append(found_digits.as_str());
                text.append(" (");
                text.append(path.as_str());
                text.append(")");
                text
            },
            LauncherError::ProcessNotFound => "Launch process not found".to_owned(),
            LauncherError::ProcessTableUnavailable => "Failed to access process table".to_owned(),
        }
    }
}

// ---------------------------------------------------------------------------
// Laws
// ---------------------------------------------------------------------------


/// What the player is told of each refusal.
pub proof fn law_what_a_refusal_says()
    ensures
        error_text(LauncherError::InvalidNickname) == "Nickname must match [A-Za-z0-9_]{3,16}"@,
        error_text(LauncherError::BaseNotObject) == "base version metadata is not an object"@,
        error_text(LauncherError::OverlayNotObject) == "loader metadata is not an object"@,
        error_text(LauncherError::UnknownVersion)
            == "Minecraft version is missing in official manifest"@,
        error_text(LauncherError::FabricVersionNotSelected)
            == "Fabric loader version is not selected"@,
        error_text(LauncherError::ForgeVersionNotSelected) == "Forge version is not selected"@,
        error_text(LauncherError::ForgeMetadataMissing)
            == "Forge installer does not contain version metadata"@,
        error_text(LauncherError::NoCompatibleVersion) == "No compatible file version found"@,
        error_text(LauncherError::NoVersionFiles) == "Selected Modrinth version has no files"@,
        error_text(LauncherError::NoSkinLoaderFiles) == "CustomSkinLoader: empty version payload"@,
        error_text(LauncherError::FileNotFound) == "File not found"@,
        error_text(LauncherError::InvalidFileName) == "Invalid file name"@,
        error_text(LauncherError::SkinNotFound) == "PNG file not found"@,
        error_text(LauncherError::InvalidNativeEntry) == "invalid native entry name"@,
        error_text(LauncherError::ValidationFailed)
            == "Profile validation failed. Check diagnostics."@,
        error_text(LauncherError::JavaNotFound) == "Java runtime for launch was not found"@,
        error_text(LauncherError::ProcessNotFound) == "Launch process not found"@,
        error_text(LauncherError::ProcessTableUnavailable) == "Failed to access process table"@,
{
}

/// A runtime that is too old is reported with what is needed, what for, what was found and where.
pub proof fn law_what_is_said_of_an_old_runtime(
    required: u8,
    minecraft_version: String,
    found: u8,
    path: String,
)
    ensures
        error_text(LauncherError::JavaTooOld { required, minecraft_version, found, path })
            == "Java "@ + decimal_text(required as nat) + " required for Minecraft "@
            + minecraft_version@ + ", but found Java "@ + decimal_text(found as nat) + " ("@ + path@
            + ")"@,
{
}

} // verus!
