//! The data files KDF needs next to the binary, and where they are fetched.

use crate::text::owned;
use vstd::prelude::*;

verus! {

/// Where `coins_config.json` is downloaded from.
pub const COINS_CONFIG_URL: &'static str = "https://raw.githubusercontent.com/KomodoPlatform/coins/refs/heads/master/utils/coins_config_unfiltered.json";
/// Where `coins.json` is downloaded from.
pub const COINS_URL: &'static str = "https://raw.githubusercontent.com/KomodoPlatform/coins/refs/heads/master/coins";
/// Where `seed-nodes.json` is downloaded from.
pub const SEED_NODES_URL: &'static str = "https://raw.githubusercontent.com/KomodoPlatform/coins/refs/heads/master/seed-nodes.json";
/// Mirror of `COINS_CONFIG_URL`.
pub const COINS_CONFIG_ALT_URL: &'static str = "https://komodoplatform.github.io/coins/utils/coins_config_unfiltered.json";
/// Mirror of `COINS_URL`.
pub const COINS_ALT_URL: &'static str = "https://komodoplatform.github.io/coins/coins";
/// Mirror of `SEED_NODES_URL`.
pub const SEED_NODES_ALT_URL: &'static str = "https://komodoplatform.github.io/coins/seed-nodes.json";

/// A file of the workspace that is downloaded when missing.
#[derive(Debug)]
pub struct RequiredFile {
    /// The file name inside the workspace.
    pub name: String,
    /// Where it is fetched first.
    pub primary_url: String,
    /// Where it is fetched when the first source fails.
    pub fallback_url: String,
}

/// The required files as `(name, primary, fallback)`, in the order they are checked.
pub open spec fn required_files_spec() -> Seq<(Seq<char>, Seq<char>, Seq<char>)> {
    seq![
        ("coins_config.json"@, COINS_CONFIG_URL@, COINS_CONFIG_ALT_URL@),
        ("coins.json"@, COINS_URL@, COINS_ALT_URL@),
        ("seed-nodes.json"@, SEED_NODES_URL@, SEED_NODES_ALT_URL@),
    ]
}

/// The view of a required file.
pub open spec fn required_view(f: RequiredFile) -> (Seq<char>, Seq<char>, Seq<char>) {
    (f.name@, f.primary_url@, f.fallback_url@)
}

fn required(name: &str, primary: &str, fallback: &str) -> (f: RequiredFile)
    ensures
        required_view(f) == (name@, primary@, fallback@),
{
    RequiredFile { name: owned(name), primary_url: owned(primary), fallback_url: owned(fallback) }
}

/// The files to have in the workspace before KDF starts: the coins
/// configuration, the coins list and the seed nodes, each with its source
/// and mirror.
pub fn required_files() -> (r: Vec<RequiredFile>)
    ensures
        r@.map_values(|f: RequiredFile| required_view(f)) == required_files_spec(),
{
    let mut r: Vec<RequiredFile> = Vec::new();
    r.push(required("coins_config.json", COINS_CONFIG_URL, COINS_CONFIG_ALT_URL));
    r.push(required("coins.json", COINS_URL, COINS_ALT_URL));
    r.push(required("seed-nodes.json", SEED_NODES_URL, SEED_NODES_ALT_URL));
    assert(r@.map_values(|f: RequiredFile| required_view(f)) =~= required_files_spec());
    r
}

} // verus!
