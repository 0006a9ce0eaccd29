//! Game version and configuration fingerprint.

use vstd::prelude::*;

use crate::config_loader::{config_hash, hex16, spec_fnv1a};

verus! {

/// The game's version and a fingerprint of its configuration.
pub struct VersionInfo {
    /// Full version string (e.g. "0.0.1").
    pub version: String,
    /// Deterministic fingerprint of the config files (FNV-1a hex).
    /// Changes whenever the game rules or token definitions change.
    pub config_hash: String,
}

/// The current game version.
pub open spec fn game_version() -> Seq<char> {
    "0.0.1"@
}

/// The version record for the given configuration texts.
pub fn version_info(game_rules: &[u8], token_definitions: &[u8]) -> (r: VersionInfo)
    ensures
        r.version@ == game_version(),
        r.config_hash@ == hex16(
            spec_fnv1a(game_rules@, game_rules@.len() as int) ^ spec_fnv1a(
                token_definitions@,
                token_definitions@.len() as int,
            ),
        ),
{
    VersionInfo {
        version: String::from_str("0.0.1"),
        config_hash: config_hash(game_rules, token_definitions),
    }
}

} // verus!
