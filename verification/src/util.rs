//! Well-known network passphrases and the lookup that maps a network
//! name to one, case-insensitively.

use vstd::prelude::*;
use crate::strutil::{eq_ignore_ascii_case, lower_seq};

verus! {

pub const LOCAL: &'static str = "Standalone Network ; February 2017";

pub const TESTNET: &'static str = "Test SDF Network ; September 2015";

pub const FUTURENET: &'static str = "Test SDF Future Network ; October 2022";

pub const MAINNET: &'static str = "Public Global Stellar Network ; September 2015";

/// Matches a network name to its passphrase, ignoring ASCII case; an
/// unknown name maps to the empty string.
pub fn network_passphrase(s: &str) -> (r: &'static str)
    ensures
        r@ == if lower_seq(s@) == lower_seq("local"@) {
            "Standalone Network ; February 2017"@
        } else if lower_seq(s@) == lower_seq("testnet"@) {
            "Test SDF Network ; September 2015"@
        } else if lower_seq(s@) == lower_seq("future"@) {
            "Test SDF Future Network ; October 2022"@
        } else if lower_seq(s@) == lower_seq("main"@) {
            "Public Global Stellar Network ; September 2015"@
        } else {
            ""@
        },
{
    if eq_ignore_ascii_case(s, "local") {
        "Standalone Network ; February 2017"
    } else if eq_ignore_ascii_case(s, "testnet") {
        "Test SDF Network ; September 2015"
    } else if eq_ignore_ascii_case(s, "future") {
        "Test SDF Future Network ; October 2022"
    } else if eq_ignore_ascii_case(s, "main") {
        "Public Global Stellar Network ; September 2015"
    } else {
        ""
    }
}

} // verus!
