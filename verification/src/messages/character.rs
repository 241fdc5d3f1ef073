//! Prompts of the character-creation dialogue.

use vstd::prelude::*;

verus! {

pub const RACESELECTION: &'static str =
    "What would you like to be? \r\n[1]Human\t\t[2]Elf\t\t[3]Dwarf\t\t[4]Dragon\r\n";

pub const GENDERSELECTION: &'static str = "Gender[m/f/u]?\r\n";

pub const TYPESELECTION: &'static str =
    "What kind of {} would you like to be?\r\n[1]Intelligent\t\t[2]Atheletic\t\t[3]Average\r\n";

pub const ATTRSELECTION: &'static str = "Are you satisfied with the following attributes?\r\n";

pub const SUCCESS: &'static str = "Your character has been created\r\n";

pub const SAVE_FAILED: &'static str =
    "Your character could not be saved\r\nAre you satisfied with the following attributes?\r\n";

} // verus!
