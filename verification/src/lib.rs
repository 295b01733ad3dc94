//! The decision core of a Minecraft launcher.
//!
//! Every function takes what was found on the machine or answered by a web service as plain values,
//! and says what to do. Reading, fetching and running is left to the program around it.

pub mod assets;
pub mod content;
pub mod error;
pub mod external;
pub mod filename;
pub mod identity;
pub mod install;
pub mod java;
pub mod json;
pub mod launch;
pub mod library;
pub mod loaders;
pub mod merge;
pub mod modrinth;
pub mod natives;
pub mod number;
pub mod order;
pub mod pairs;
pub mod paths;
pub mod process;
pub mod profile;
pub mod skin;
pub mod template;
pub mod text;
pub mod validate;
pub mod versions;
