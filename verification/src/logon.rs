//! The dialogue by which a player logs on or registers.
//!
//! [`process_commands`] takes one line of input and the dialogue so far and
//! answers with the dialogue after it. Whether a name belongs to a known
//! player is for the caller to find out and pass in. So is the storing of a
//! new player: the record to store is asked for before the step, with
//! [`player_to_store`], and the step is told how the store went. The
//! registration is complete once the player is stored, and a store that
//! failed is reported to the player.

use crate::messages::greeting::{
    CONFIRM_PASSWORD,
    CREATE_CHARACTER,
    ENTER_PASSWORD,
    REGISTER_FAILED,
    REGISTER_MESSAGE,
    REGISTER_PASSWORD,
    WELCOME_MESSAGE,
};
use crate::storage::{columns, DataColumn, InsertRequest, InsertRequestView};
use crate::text::{trim, trimmed};
use vstd::prelude::*;
use vstd::string::*;

verus! {

/// The stages of the logon dialogue.
#[derive(Copy, Clone, Debug, PartialEq, Eq, Structural)]
pub enum LogonState {
    New,
    Username,
    Password,
    RegisterNewUser,
    RegisterPassword,
    RegisterPasswordConfirm,
    RegisterCreation,
    Done,
}

/// What a [`LogonManager`] holds, as plain text.
pub struct LogonView {
    pub username: Seq<char>,
    pub password: Seq<char>,
    pub logon_state: LogonState,
    pub return_msg: Seq<char>,
}

/// The logon dialogue: the name and password given so far, the stage that
/// the dialogue is at, and the reply to the last line of input.
pub struct LogonManager {
    pub username: String,
    pub password: String,
    pub logon_state: LogonState,
    pub return_msg: String,
}

impl View for LogonManager {
    type V = LogonView;

    open spec fn view(&self) -> LogonView {
        LogonView {
            username: self.username@,
            password: self.password@,
            logon_state: self.logon_state,
            return_msg: self.return_msg@,
        }
    }
}

/// The dialogue before any input: nothing is known, and the next line is
/// taken as the name.
pub open spec fn logon_start() -> LogonView {
    LogonView {
        username: Seq::empty(),
        password: Seq::empty(),
        logon_state: LogonState::Username,
        return_msg: Seq::empty(),
    }
}

impl LogonManager {
    /// A dialogue made of its parts.
    pub fn new_from_data(user: String, pwd: String, state: LogonState, msg: String) -> (m:
        LogonManager)
        ensures
            m@ == (LogonView {
                username: user@,
                password: pwd@,
                logon_state: state,
                return_msg: msg@,
            }),
    {
        LogonManager { username: user, password: pwd, logon_state: state, return_msg: msg }
    }

    /// The dialogue before any input, about to read a name.
    pub fn new() -> (m: LogonManager)
        ensures
            m@ == logon_start(),
    {
        LogonManager {
            username: String::new(),
            password: String::new(),
            logon_state: LogonState::Username,
            return_msg: String::new(),
        }
    }
}

/// The request that stores a new player: the password, and that the
/// player has yet to create a character.
pub open spec fn player_record(username: Seq<char>, password: Seq<char>) -> InsertRequestView {
    InsertRequestView {
        table: "player"@,
        key: username,
        data: seq![("password"@, password), ("stage"@, "creation"@)],
    }
}

/// Describes a new player as a record for the store.
pub fn save_player(username: String, password: String) -> (request: InsertRequest)
    ensures
        request@ == player_record(username@, password@),
{
    let mut data: Vec<DataColumn> = Vec::new();
    data.push(DataColumn::new(String::from_str("password"), password));
    data.push(DataColumn::new(String::from_str("stage"), String::from_str("creation")));
    proof {
        assert(columns(data@) =~= seq![("password"@, password@), ("stage"@, "creation"@)]);
    }
    InsertRequest { table: String::from_str("player"), key: username, data }
}

/// The part of a line that the dialogue reads: the line without the
/// whitespace around it. The last two stages read nothing.
pub open spec fn logon_input(cmd: Seq<char>, state: LogonState) -> Seq<char> {
    match state {
        LogonState::RegisterCreation | LogonState::Done => Seq::empty(),
        _ => trimmed(cmd),
    }
}

/// One step of the dialogue: what it has become after the line `cmd`,
/// where `user_known` says whether the line names a known player, and
/// `stored` whether the record that the line asks to store was stored.
///
/// - `New` moves on to `Username` without a reply.
/// - `Username` keeps the line as the name. A known name is asked for its
///   password; an unknown one is offered to register.
/// - `Password` takes any line and is `Done`.
/// - `RegisterNewUser` asks for a password on `y` or `yes`, and otherwise
///   starts over with the welcome.
/// - `RegisterPassword` keeps the line as the password and asks for it
///   again.
/// - `RegisterPasswordConfirm` asks for a password once more where the
///   line differs from the password. Where it equals the password, the
///   player is to be stored, and what comes next depends on how the store
///   went, as [`after_store`] says: on to the creation of a character
///   where the player was stored, and back to the password, with the
///   failure reported, where not.
/// - `RegisterCreation` is `Done` after any line, and `Done` stays.
pub open spec fn logon_step(
    cmd: Seq<char>,
    data: LogonView,
    user_known: bool,
    stored: bool,
) -> LogonView {
    let input = logon_input(cmd, data.logon_state);
    let none = Seq::<char>::empty();
    match data.logon_state {
        LogonState::New => LogonView {
            logon_state: LogonState::Username,
            return_msg: none,
            ..data
        },
        LogonState::Username => {
            if !user_known {
                LogonView {
                    username: input,
                    logon_state: LogonState::RegisterNewUser,
                    return_msg: REGISTER_MESSAGE@,
                    ..data
                }
            } else {
                LogonView {
                    username: input,
                    logon_state: LogonState::Password,
                    return_msg: ENTER_PASSWORD@,
                    ..data
                }
            }
        },
        LogonState::Password => LogonView {
            logon_state: LogonState::Done,
            return_msg: none,
            ..data
        },
        LogonState::RegisterNewUser => {
            if input == "y"@ || input == "yes"@ {
                LogonView {
                    logon_state: LogonState::RegisterPassword,
                    return_msg: REGISTER_PASSWORD@,
                    ..data
                }
            } else {
                LogonView { logon_state: LogonState::New, return_msg: WELCOME_MESSAGE@, ..data }
            }
        },
        LogonState::RegisterPassword => LogonView {
            password: input,
            logon_state: LogonState::RegisterPasswordConfirm,
            return_msg: CONFIRM_PASSWORD@,
            ..data
        },
        LogonState::RegisterPasswordConfirm => {
            if input == data.password {
                after_store(data, stored)
            } else {
                LogonView {
                    logon_state: LogonState::RegisterPassword,
                    return_msg: REGISTER_PASSWORD@,
                    ..data
                }
            }
        },
        LogonState::RegisterCreation => LogonView {
            logon_state: LogonState::Done,
            return_msg: none,
            ..data
        },
        LogonState::Done => LogonView { return_msg: none, ..data },
    }
}

/// The record that a line asks to store: the new player, where the line
/// confirms the password, and nothing anywhere else. The caller is to
/// store it before the step is taken, and to tell the step how that went.
pub open spec fn logon_saves(cmd: Seq<char>, data: LogonView) -> Option<InsertRequestView> {
    if data.logon_state == LogonState::RegisterPasswordConfirm && trimmed(cmd) == data.password {
        Some(player_record(data.username, data.password))
    } else {
        None
    }
}

/// The dialogue after a password was confirmed and the store was asked to
/// store the new player. A player that was stored goes on to create a
/// character. One that could not be stored is told so and asked for a
/// password again, so that the registration can be tried once more. At any
/// other stage nothing is asked of the store, and the dialogue stays as it
/// is and says nothing.
pub open spec fn after_store(data: LogonView, stored: bool) -> LogonView {
    if data.logon_state == LogonState::RegisterPasswordConfirm {
        if stored {
            LogonView {
                logon_state: LogonState::RegisterCreation,
                return_msg: CREATE_CHARACTER@,
                ..data
            }
        } else {
            LogonView {
                logon_state: LogonState::RegisterPassword,
                return_msg: REGISTER_FAILED@,
                ..data
            }
        }
    } else {
        LogonView { return_msg: Seq::empty(), ..data }
    }
}

/// Takes in what came of storing the new player: whether it was stored.
/// Gives the dialogue after it, with the reply to the player.
pub fn registration_stored(data: LogonManager, stored: bool) -> (m: LogonManager)
    ensures
        m@ == after_store(data@, stored),
{
    let LogonManager { username, password, logon_state, return_msg: _ } = data;
    match logon_state {
        LogonState::RegisterPasswordConfirm => {
            if stored {
                LogonManager::new_from_data(
                    username,
                    password,
                    LogonState::RegisterCreation,
                    String::from_str(CREATE_CHARACTER),
                )
            } else {
                LogonManager::new_from_data(
                    username,
                    password,
                    LogonState::RegisterPassword,
                    String::from_str(REGISTER_FAILED),
                )
            }
        },
        _ => LogonManager::new_from_data(username, password, logon_state, String::new()),
    }
}

/// The name that the caller has to look up before the step: the trimmed
/// line where the dialogue is about to read a name, and nothing elsewhere.
pub open spec fn name_to_look_up(cmd: Seq<char>, data: LogonView) -> Option<Seq<char>> {
    if data.logon_state == LogonState::Username {
        Some(trimmed(cmd))
    } else {
        None
    }
}

/// The name whose player the caller has to look up before it hands the
/// line to [`process_commands`], if the dialogue is about to read a name.
pub fn username_to_check(cmd: &str, logon_data: &LogonManager) -> (name: Option<String>)
    ensures
        match name {
            Some(n) => name_to_look_up(cmd@, logon_data@) == Some(n@),
            None => name_to_look_up(cmd@, logon_data@) is None,
        },
{
    match logon_data.logon_state {
        LogonState::Username => Some(trim(cmd)),
        _ => None,
    }
}

/// The record that the caller has to store before it hands the line to
/// [`process_commands`]: the new player, if the line confirms the
/// password.
pub fn player_to_store(cmd: &str, logon_data: &LogonManager) -> (request: Option<InsertRequest>)
    ensures
        match request {
            Some(r) => logon_saves(cmd@, logon_data@) == Some(r@),
            None => logon_saves(cmd@, logon_data@) is None,
        },
{
    match logon_data.logon_state {
        LogonState::RegisterPasswordConfirm => {
            if trim(cmd) == logon_data.password {
                Some(save_player(logon_data.username.clone(), logon_data.password.clone()))
            } else {
                None
            }
        },
        _ => None,
    }
}

/// Takes the dialogue one step further with a line of input.
///
/// `user_known` says whether the store has a player of the name that
/// [`username_to_check`] gives for this line; it is read at the stage
/// `Username` and nowhere else. `stored` says whether the record that
/// [`player_to_store`] gives for this line was stored; it is read where the
/// line confirms the password and nowhere else.
pub fn process_commands(
    cmd: String,
    logon_data: LogonManager,
    user_known: bool,
    stored: bool,
) -> (r: LogonManager)
    ensures
        r@ == logon_step(cmd@, logon_data@, user_known, stored),
{
    let LogonManager { username, password, logon_state, return_msg: _ } = logon_data;
    let mut username: String = username;
    let mut password: String = password;
    let state: LogonState = logon_state;
    let mut logon_state: LogonState = state;
    let input: String = match state {
        LogonState::RegisterCreation => String::new(),
        LogonState::Done => String::new(),
        _ => trim(cmd.as_str()),
    };
    let mut message: String = String::new();
    match state {
        LogonState::New => {
            logon_state = LogonState::Username;
        },
        LogonState::Username => {
            username = input;
            if !user_known {
                message = String::from_str(REGISTER_MESSAGE);
                logon_state = LogonState::RegisterNewUser;
            } else {
                message = String::from_str(ENTER_PASSWORD);
                logon_state = LogonState::Password;
            }
        },
        LogonState::Password => {
            logon_state = LogonState::Done;
        },
        LogonState::RegisterNewUser => {
            if input == String::from_str("y") || input == String::from_str("yes") {
                message = String::from_str(REGISTER_PASSWORD);
                logon_state = LogonState::RegisterPassword;
            } else {
                logon_state = LogonState::New;
                message = String::from_str(WELCOME_MESSAGE);
            }
        },
        LogonState::RegisterPassword => {
            password = input;
            message = String::from_str(CONFIRM_PASSWORD);
            logon_state = LogonState::RegisterPasswordConfirm;
        },
        LogonState::RegisterPasswordConfirm => {
            if input == password {
                return registration_stored(
                    LogonManager::new_from_data(username, password, state, message),
                    stored,
                );
            } else {
                logon_state = LogonState::RegisterPassword;
                message = String::from_str(REGISTER_PASSWORD);
            }
        },
        LogonState::RegisterCreation => {
            logon_state = LogonState::Done;
        },
        LogonState::Done => {},
    }
    LogonManager::new_from_data(username, password, logon_state, message)
}

/// Registration, from the first line on: a name that no player has, a
/// `y` or `yes`, a password, and a line to confirm it.
///
/// Where the last line repeats the password, the player is to be stored
/// under the name and with the password given. Stored, the player arrives
/// at `RegisterCreation` and is asked to create a character. If the store
/// fails the player does not arrive there, is told so, and is asked for a
/// password again. Where the last line does not repeat the password, the
/// dialogue is back at `RegisterPassword` and nothing is to be stored. No
/// other step of the way stores anything or reads how a store went. What
/// the caller says of the name matters at the first step alone.
pub proof fn registration_stores_the_player_once_confirmed(
    name: Seq<char>,
    answer: Seq<char>,
    password: Seq<char>,
    confirmation: Seq<char>,
    known_later: bool,
    stored_before: bool,
    stored: bool,
)
    requires
        trimmed(answer) == "y"@ || trimmed(answer) == "yes"@,
    ensures
        ({
            let asked = logon_step(name, logon_start(), false, stored_before);
            let agreed = logon_step(answer, asked, known_later, stored_before);
            let chosen = logon_step(password, agreed, known_later, stored_before);
            let end = logon_step(confirmation, chosen, known_later, stored);
            &&& asked.logon_state == LogonState::RegisterNewUser
            &&& agreed.logon_state == LogonState::RegisterPassword
            &&& chosen.logon_state == LogonState::RegisterPasswordConfirm
            &&& logon_saves(name, logon_start()) is None
            &&& logon_saves(answer, asked) is None
            &&& logon_saves(password, agreed) is None
            &&& trimmed(confirmation) == trimmed(password) ==> {
                &&& logon_saves(confirmation, chosen) == Some(
                    player_record(trimmed(name), trimmed(password)),
                )
                &&& stored ==> end.logon_state == LogonState::RegisterCreation
                    && end.return_msg == CREATE_CHARACTER@
                &&& !stored ==> end.logon_state == LogonState::RegisterPassword
                    && end.return_msg == REGISTER_FAILED@
            }
            &&& trimmed(confirmation) != trimmed(password) ==> {
                &&& end.logon_state == LogonState::RegisterPassword
                &&& end.return_msg == REGISTER_PASSWORD@
                &&& logon_saves(confirmation, chosen) is None
            }
        }),
{
}

/// A registration is complete only once the player is stored. A step
/// arrives at `RegisterCreation` only where the line confirmed the
/// password and the player was stored. How a store went is read at no
/// other step, and never changes the name or the password.
pub proof fn register_creation_means_stored(
    cmd: Seq<char>,
    data: LogonView,
    user_known: bool,
    stored: bool,
)
    ensures
        logon_step(cmd, data, user_known, stored).logon_state == LogonState::RegisterCreation
            ==> stored && logon_saves(cmd, data) is Some,
        logon_saves(cmd, data) is None ==> logon_step(cmd, data, user_known, stored)
            == logon_step(cmd, data, user_known, !stored),
        logon_saves(cmd, data) is Some ==> logon_step(cmd, data, user_known, stored).username
            == data.username && logon_step(cmd, data, user_known, stored).password
            == data.password,
{
}

} // verus!
