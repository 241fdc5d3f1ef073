//! Prompts of the logon and registration dialogue.

use vstd::prelude::*;

verus! {

pub const WELCOME_MESSAGE: &'static str = "Welcome to the mud\r\nWhat's your name?\r\n";

pub const REGISTER_MESSAGE: &'static str =
    "This appears to your first time here, \r\nwould you like to visit us in the mud world?\r\n";

pub const ENTER_PASSWORD: &'static str = "Please enter your pass code\r\n";

pub const REGISTER_USERNAME: &'static str = "Please enter a username\r\n";

pub const REGISTER_PASSWORD: &'static str = "Password please:\r\n";

pub const CONFIRM_PASSWORD: &'static str = "Please confirm your password:\r\n";

pub const REGISTER_FAILED: &'static str =
    "Your registration could not be saved\r\nPassword please:\r\n";

pub const CREATE_CHARACTER: &'static str =
    "Let's build your character\r\nWhat would you like to be? \r\n[1]Human\t\t[2]Elf\t\t[3]Dwarf\t\t[4]Dragon\r\n";

} // verus!
