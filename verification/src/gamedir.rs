//! The Steam application that belongs to a game directory.

use crate::text::{self, lowers_to};
use vstd::prelude::*;

verus! {

/// The application that an unknown game directory falls back to.
pub const FALLBACK_APP_ID: u32 = 70;

/// The application of a game directory whose name is written in small letters.
pub open spec fn listed_app_id(dir: Seq<char>) -> Option<u32> {
    if dir == "cstrike"@ {
        // Counter-Strike 1.6
        Some(10u32)
    } else if dir == "tfc"@ {
        // Team Fortress Classic
        Some(20u32)
    } else if dir == "dod"@ {
        // Day of Defeat
        Some(30u32)
    } else if dir == "dmc"@ {
        // Deathmatch Classic
        Some(40u32)
    } else if dir == "gearbox"@ {
        // Half-Life: Opposing Force
        Some(50u32)
    } else if dir == "ricochet"@ {
        // Ricochet
        Some(60u32)
    } else if dir == "valve"@ {
        // Half-Life
        Some(70u32)
    } else if dir == "czero"@ {
        // Counter-Strike: Condition Zero
        Some(80u32)
    } else if dir == "czeror"@ {
        // Counter-Strike: Condition Zero, Deleted Scenes
        Some(100u32)
    } else if dir == "bshift"@ {
        // Half-Life: Blue Shift
        Some(130u32)
    } else if dir == "cstrike_beta"@ {
        // Counter-Strike 1.6 beta
        Some(150u32)
    } else {
        None
    }
}

/// The application of a game directory, if it is a known one.
pub open spec fn app_id_of(gamedir: Seq<char>) -> Option<u32> {
    listed_app_id(text::lowered(gamedir))
}

/// The application of the game directory `gamedir`, whose ASCII letters count alike in
/// either case.
pub fn appid_for_gamedir(gamedir: &str) -> (r: Option<u32>)
    ensures
        r == app_id_of(gamedir@),
{
    if lowers_to(gamedir, "cstrike") {
        Some(10)
    } else if lowers_to(gamedir, "tfc") {
        Some(20)
    } else if lowers_to(gamedir, "dod") {
        Some(30)
    } else if lowers_to(gamedir, "dmc") {
        Some(40)
    } else if lowers_to(gamedir, "gearbox") {
        Some(50)
    } else if lowers_to(gamedir, "ricochet") {
        Some(60)
    } else if lowers_to(gamedir, "valve") {
        Some(70)
    } else if lowers_to(gamedir, "czero") {
        Some(80)
    } else if lowers_to(gamedir, "czeror") {
        Some(100)
    } else if lowers_to(gamedir, "bshift") {
        Some(130)
    } else if lowers_to(gamedir, "cstrike_beta") {
        Some(150)
    } else {
        None
    }
}

/// The application that a session in `gamedir` runs under.
pub open spec fn session_app_id(gamedir: Seq<char>) -> u32 {
    match app_id_of(gamedir) {
        Some(app_id) => app_id,
        None => FALLBACK_APP_ID,
    }
}

/// Two names that differ only in the case of ASCII letters belong to the same application.
pub proof fn app_id_ignores_ascii_case(a: Seq<char>, b: Seq<char>)
    requires
        a.len() == b.len(),
        forall|i: int|
            0 <= i < a.len() ==> #[trigger] text::ascii_lower(a[i]) == text::ascii_lower(b[i]),
    ensures
        app_id_of(a) == app_id_of(b),
        session_app_id(a) == session_app_id(b),
{
    assert(text::lowered(a) =~= text::lowered(b));
}

} // verus!
