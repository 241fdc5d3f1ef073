//! The server: the table of connections, the log of messages, and the
//! decisions of the event loop.
//!
//! The loop itself belongs to the caller, who owns the sockets and the
//! poller. For each event the caller asks the server what to do, does the
//! reading, writing or accepting, and reports back. What the server answers
//! is a plain value; what it changes is stated over [`ServerView`].

use crate::buffer::contents;
use crate::clock::{current_time, local_clock, ClockTime, Timestamp};
use crate::connection::{
    fresh_connection,
    heartbeat,
    heartbeat_delivers_what_is_new,
    input_never_regresses,
    input_outcome,
    registration,
    wire_texts,
    written,
    Connection,
    ConnectionError,
    ConnectionState,
    ConnectionView,
    InputAction,
    InputActionView,
    Interest,
    Registration,
    Token,
    WriteOutcome,
};
use crate::messages::greeting::WELCOME_MESSAGE;
use crate::table::{first_free_facts, ConnectionTable, TableView};
use crate::transactionstorage::{
    in_time_order,
    new_record,
    newer_than,
    stored_view,
    taken_in,
    MessageLog,
    Transaction,
    TransactionView,
};
use bytes::Bytes;
use vstd::prelude::*;
use vstd::utf8::encode_utf8;

verus! {

/// The token of the listening socket.
pub const SERVER_TOKEN: usize = 1;

/// The token of the first connection.
pub const FIRST_CONNECTION: usize = 2;

/// The number of connections that the server holds at a time.
pub const MAX_CONNECTIONS: usize = 128;

/// Milliseconds from one heartbeat to the next.
pub const HEARTBEAT_MS: u64 = 1000;

/// The events that the poller reports of a socket.
#[derive(Copy, Clone, Debug, PartialEq, Eq, Structural)]
pub struct Readiness {
    pub readable: bool,
    pub writable: bool,
    pub error: bool,
    pub hup: bool,
}

/// What the caller is to do about an event.
#[derive(Copy, Clone, Debug, PartialEq, Eq, Structural)]
pub struct Dispatch {
    /// The listening socket failed: stop the loop.
    pub shutdown: bool,
    /// The connection was torn down: drop its socket.
    pub closed: bool,
    /// Try to write to the connection, and report with
    /// [`Server::writable`].
    pub write: bool,
    /// Accept a pending connection, and report with [`Server::accept`].
    pub accept: bool,
    /// Read from the connection, and report with [`Server::readable`].
    pub read: bool,
}

/// What became of a connection that was served.
pub enum Reaction {
    /// No connection lives under the token.
    Gone,
    /// The connection failed and was torn down: drop its socket.
    Closed(ConnectionError),
    /// The connection goes on: renew its registration, and do what the
    /// input asks for.
    Rearm(Registration, InputAction),
}

/// What a [`Reaction`] holds, as plain values.
pub enum ReactionView {
    Gone,
    Closed(ConnectionError),
    Rearm(Registration, InputActionView),
}

impl View for Reaction {
    type V = ReactionView;

    open spec fn view(&self) -> ReactionView {
        match self {
            Reaction::Gone => ReactionView::Gone,
            Reaction::Closed(e) => ReactionView::Closed(*e),
            Reaction::Rearm(r, action) => ReactionView::Rearm(*r, action@),
        }
    }
}

/// What a teardown found.
#[derive(Copy, Clone, Debug, PartialEq, Eq, Structural)]
pub enum Reset {
    /// The token is that of the listening socket: stop the loop.
    Shutdown,
    /// The connection was removed: drop its socket.
    Closed,
    /// No connection lives under the token, and nothing was done.
    Absent,
}

/// What is to be done once a socket was accepted: the registration of the
/// new connection and the welcome to write to it at once, or neither where
/// the table is full and the socket is to be dropped; and the registration
/// that renews the listening socket, which is due either way.
pub struct Accepted {
    pub connection: Option<Registration>,
    pub welcome: Option<Bytes>,
    pub listener: Registration,
}

/// What an [`Accepted`] holds, as plain values.
pub struct AcceptedView {
    pub connection: Option<Registration>,
    pub welcome: Option<Seq<u8>>,
    pub listener: Registration,
}

impl View for Accepted {
    type V = AcceptedView;

    open spec fn view(&self) -> AcceptedView {
        AcceptedView {
            connection: self.connection,
            welcome: match self.welcome {
                Some(banner) => Some(contents(banner)),
                None => None,
            },
            listener: self.listener,
        }
    }
}

/// What is to be done after a heartbeat: the connections to try a write on
/// right away, and the time to the next heartbeat.
pub struct Tick {
    pub flush: Vec<Token>,
    pub next_heartbeat_ms: u64,
}

/// How the server is started: the registration of the listening socket,
/// and the time to the first heartbeat.
#[derive(Copy, Clone, Debug, PartialEq, Eq, Structural)]
pub struct Startup {
    pub listener: Registration,
    pub heartbeat_ms: u64,
}

/// What a [`Server`] holds, as plain values.
pub struct ServerView {
    pub token: Token,
    pub conns: TableView,
    pub log: Seq<TransactionView>,
}

impl ServerView {
    /// What holds of every server: each connection sits in the slot of its
    /// own token, the tokens of the slots are numbers of the machine, and
    /// the token of the listening socket is not the token of any slot.
    pub open spec fn is_sound(self) -> bool {
        &&& self.conns.tokens_match()
        &&& self.conns.first + self.conns.slots.len() <= usize::MAX
        &&& !self.conns.in_range(self.token)
    }
}

/// The registration of the listening socket: for reading, and like every
/// registration for one event at a time.
pub open spec fn listener_registration(token: Token) -> Registration {
    registration(token, Interest { readable: true, writable: false, hup: false })
}

/// The server after the connection under the token is torn down, and what
/// the teardown found. The listening socket is never removed: its
/// teardown stops the loop. A token that no connection lives under leaves
/// the server as it is.
pub open spec fn reset(s: ServerView, token: Token) -> (ServerView, Reset) {
    if token == s.token {
        (s, Reset::Shutdown)
    } else if s.conns.is_live(token) {
        (ServerView { conns: s.conns.without(token), ..s }, Reset::Closed)
    } else {
        (s, Reset::Absent)
    }
}

/// Teardown is idempotent. Tearing down a token a second time changes
/// nothing and finds nothing, and so does tearing down a token that no
/// connection lives under. The log and every other connection are never
/// touched.
pub proof fn teardown_is_idempotent(s: ServerView, token: Token, other: Token)
    ensures
        reset(reset(s, token).0, token).0 == reset(s, token).0,
        token != s.token ==> reset(reset(s, token).0, token).1 == Reset::Absent,
        token != s.token && !s.conns.is_live(token) ==> reset(s, token) == (s, Reset::Absent),
        reset(s, token).0.log == s.log,
        reset(s, token).0.token == s.token,
        other != token ==> reset(s, token).0.conns.get(other) == s.conns.get(other),
{
}

/// What an event means.
///
/// An error or a hang-up tears the connection down and nothing else is
/// done; on the listening socket it stops the loop. Otherwise a live
/// connection is written to where it is writable and read from where it is
/// readable, and the listening socket accepts where it is readable. An
/// event for a token that nothing lives under means nothing.
pub open spec fn dispatched(s: ServerView, token: Token, events: Readiness) -> (
    ServerView,
    Dispatch,
) {
    let nothing = Dispatch {
        shutdown: false,
        closed: false,
        write: false,
        accept: false,
        read: false,
    };
    if events.error || events.hup {
        let (after, found) = reset(s, token);
        (
            after,
            Dispatch {
                shutdown: found == Reset::Shutdown,
                closed: found == Reset::Closed,
                ..nothing
            },
        )
    } else {
        (
            s,
            Dispatch {
                write: events.writable && token != s.token && s.conns.is_live(token),
                accept: events.readable && token == s.token,
                read: events.readable && token != s.token && s.conns.is_live(token),
                ..nothing
            },
        )
    }
}

/// The connection that a newly accepted socket gets: registered for
/// reading and for a hang-up, with nothing queued, and about to be asked for
/// a name.
pub open spec fn welcomed(token: Token, now: Timestamp) -> ConnectionView {
    let fresh = fresh_connection(token, now);
    ConnectionView { interest: Interest { readable: true, ..fresh.interest }, ..fresh }
}

/// The server after a socket was accepted at `now`, and what is to be
/// done. The connection takes the first free token, and the welcome is
/// handed out to be written to it at once. A full table takes no
/// connection: the server stays as it is, and the socket is to be dropped.
/// The listening socket is registered again in either case.
pub open spec fn accepted(s: ServerView, now: Timestamp) -> (ServerView, AcceptedView) {
    let listener = listener_registration(s.token);
    if s.conns.is_full() {
        (s, AcceptedView { connection: None, welcome: None, listener })
    } else {
        let token = Token((s.conns.first + s.conns.first_free()) as usize);
        let c = welcomed(token, now);
        (
            ServerView { conns: s.conns.with(c), ..s },
            AcceptedView {
                connection: Some(registration(token, c.interest)),
                welcome: Some(encode_utf8(WELCOME_MESSAGE@)),
                listener,
            },
        )
    }
}

/// The server after the connection under the token took the step `after`
/// with the result `r`: the connection is put back as it has become, or
/// torn down where it failed.
pub open spec fn served<T>(
    s: ServerView,
    token: Token,
    after: ConnectionView,
    r: Result<T, ConnectionError>,
) -> ServerView {
    match r {
        Ok(_) => ServerView { conns: s.conns.without(token).with(after), ..s },
        Err(_) => ServerView { conns: s.conns.without(token), ..s },
    }
}

/// What a message that was read from a connection does. A message without
/// bytes does nothing. Any other is handled by the connection, which is
/// torn down if it fails on it. `user_known` and `stored` are what the
/// caller found out beforehand: whether the name that the message gives is
/// that of a known player, and whether the record that the message asks to
/// store was stored.
pub open spec fn message_handled(
    s: ServerView,
    token: Token,
    message: Seq<u8>,
    user_known: bool,
    stored: bool,
    clock: ClockTime,
) -> (ServerView, ReactionView) {
    match s.conns.get(token) {
        None => (s, ReactionView::Gone),
        Some(c) => {
            if message.len() == 0 {
                (s, ReactionView::Rearm(registration(token, c.interest), InputActionView::Nothing))
            } else {
                let (after, r) = input_outcome(c, message, user_known, stored, clock);
                (
                    served(s, token, after, r),
                    match r {
                        Ok(action) => ReactionView::Rearm(
                            registration(token, after.interest),
                            action,
                        ),
                        Err(e) => ReactionView::Closed(e),
                    },
                )
            }
        },
    }
}

/// What the outcome of a write to a connection does: the connection takes
/// it in, and is torn down if the write failed.
pub open spec fn write_handled(s: ServerView, token: Token, outcome: WriteOutcome) -> (
    ServerView,
    ReactionView,
) {
    match s.conns.get(token) {
        None => (s, ReactionView::Gone),
        Some(c) => {
            let (after, r) = written(c, outcome);
            (
                served(s, token, after, r),
                match r {
                    Ok(_) => ReactionView::Rearm(
                        registration(token, after.interest),
                        InputActionView::Nothing,
                    ),
                    Err(e) => ReactionView::Closed(e),
                },
            )
        },
    }
}

/// The server after its log was asked to take in a record, and the record
/// as it is stored, if the log took it. No connection is touched: what is
/// logged reaches the players at the next heartbeat and not before.
pub open spec fn recorded(s: ServerView, record: TransactionView) -> (
    ServerView,
    Option<TransactionView>,
) {
    let (log, stored) = taken_in(s.log, record);
    (ServerView { log, ..s }, stored)
}

/// A slot after a heartbeat: its connection is handed what the log holds
/// that is newer than what it has seen.
pub open spec fn slot_after_heartbeat(
    slot: Option<ConnectionView>,
    clock: ClockTime,
    log: Seq<TransactionView>,
) -> Option<ConnectionView> {
    match slot {
        Some(c) => Some(heartbeat(c, clock, log)),
        None => None,
    }
}

/// The server after a heartbeat at the given time of day: every
/// connection has had its heartbeat, and nothing else has changed.
pub open spec fn after_timeout(s: ServerView, clock: ClockTime) -> ServerView {
    ServerView {
        conns: TableView {
            slots: s.conns.slots.map_values(
                |slot: Option<ConnectionView>| slot_after_heartbeat(slot, clock, s.log),
            ),
            ..s.conns
        },
        ..s
    }
}

/// A token is given out only while nothing lives under it. The
/// connection that is accepted takes a token that no live connection has
/// and that is not the token of the listening socket. It is in the phase
/// `Logon`, has nothing queued and waits to read and for a hang-up, and the
/// welcome is handed out to be written to it. Every connection that was
/// live stays as it was, the log is not touched, and the listening socket
/// is registered again.
pub proof fn accept_takes_a_free_token(s: ServerView, now: Timestamp, other: Token)
    requires
        s.is_sound(),
    ensures
        accepted(s, now).0.log == s.log,
        accepted(s, now).0.token == s.token,
        accepted(s, now).0.is_sound(),
        accepted(s, now).1.listener == listener_registration(s.token),
        accepted(s, now).1.connection is None <==> s.conns.is_full(),
        accepted(s, now).1.connection is None ==> accepted(s, now).0 == s && accepted(
            s,
            now,
        ).1.welcome is None,
        accepted(s, now).1.connection matches Some(r) ==> {
            &&& !s.conns.is_live(r.token)
            &&& s.conns.in_range(r.token)
            &&& r.token != s.token
            &&& r.interest == Interest { readable: true, writable: false, hup: true }
            &&& accepted(s, now).1.welcome == Some(encode_utf8(WELCOME_MESSAGE@))
            &&& accepted(s, now).0.conns.get(r.token) == Some(welcomed(r.token, now))
            &&& welcomed(r.token, now).state == ConnectionState::Logon
            &&& welcomed(r.token, now).send_queue.len() == 0
            &&& other != r.token ==> accepted(s, now).0.conns.get(other) == s.conns.get(other)
        },
{
    first_free_facts(s.conns);
}

/// A failure stays with the connection that it happened to. Whatever a
/// message or a write does to the connection under a token, be it served
/// or torn down, and whether what it asked to store was stored or not,
/// every other connection stays as it was, and so do the log and the token
/// of the listening socket.
pub proof fn serving_touches_one_connection(
    s: ServerView,
    token: Token,
    other: Token,
    message: Seq<u8>,
    user_known: bool,
    clock: ClockTime,
    outcome: WriteOutcome,
    stored: bool,
)
    requires
        other != token,
        s.is_sound(),
    ensures
        message_handled(s, token, message, user_known, stored, clock).0.conns.get(other)
            == s.conns.get(other),
        message_handled(s, token, message, user_known, stored, clock).0.log == s.log,
        message_handled(s, token, message, user_known, stored, clock).0.token == s.token,
        message_handled(s, token, message, user_known, stored, clock).0.is_sound(),
        write_handled(s, token, outcome).0.conns.get(other) == s.conns.get(other),
        write_handled(s, token, outcome).0.log == s.log,
        write_handled(s, token, outcome).0.token == s.token,
        write_handled(s, token, outcome).0.is_sound(),
{
    if let Some(c) = s.conns.get(token) {
        input_never_regresses(c, message, user_known, stored, clock);
    }
}

/// Heartbeat delivery, for every player. At a heartbeat a connection in
/// `Play` is sent what the log holds that is newer than what it has seen:
/// exactly these records, each once, oldest first and behind what was
/// already queued, those that were created at the same time among them. It
/// has then seen everything up to the last of them, so that the next
/// heartbeat finds nothing more for it in the same log. The log itself is
/// not changed.
pub proof fn timeout_delivers_to_every_player(s: ServerView, clock: ClockTime, token: Token)
    requires
        s.conns.get(token) matches Some(c) && c.state == ConnectionState::Play,
        in_time_order(s.log),
    ensures
        after_timeout(s, clock).log == s.log,
        ({
            let before = s.conns.get(token)->0;
            let news = newer_than(s.log, before.last_update);
            &&& after_timeout(s, clock).conns.get(token) matches Some(after)
            &&& after.send_queue == before.send_queue + wire_texts(clock, news)
            &&& after.last_update == if news.len() > 0 {
                news.last().time_created
            } else {
                before.last_update
            }
            &&& newer_than(s.log, after.last_update) == Seq::<TransactionView>::empty()
        }),
{
    let before = s.conns.get(token)->0;
    heartbeat_delivers_what_is_new(before, clock, s.log);
}

/// The tokens of the connections in `Play` among the first `upto` slots,
/// in the order of the slots.
pub open spec fn players(table: TableView, upto: int) -> Seq<Token>
    decreases upto,
{
    if upto <= 0 {
        Seq::empty()
    } else {
        let before = players(table, upto - 1);
        match table.slots[upto - 1] {
            Some(c) => if c.state == ConnectionState::Play {
                before.push(Token((table.first + upto - 1) as usize))
            } else {
                before
            },
            None => before,
        }
    }
}

/// A server that holds nothing yet: no connection in any of its slots, and
/// no message in its log. The token of the listening socket lies ahead of
/// the tokens of the slots.
pub open spec fn new_server(capacity: nat) -> ServerView {
    ServerView {
        token: Token(SERVER_TOKEN),
        conns: TableView {
            first: FIRST_CONNECTION,
            slots: Seq::new(capacity, |i: int| None::<ConnectionView>),
        },
        log: Seq::empty(),
    }
}

/// The server: the token of its listening socket, its connections, and
/// the log of messages that it pushes to them.
pub struct Server {
    token: Token,
    conns: ConnectionTable,
    log: MessageLog,
}

impl View for Server {
    type V = ServerView;

    closed spec fn view(&self) -> ServerView {
        ServerView { token: self.token, conns: self.conns@, log: self.log@ }
    }
}

impl Server {
    #[verifier::type_invariant]
    spec fn well_formed(&self) -> bool {
        self@.is_sound()
    }

    /// A table without slots, to stand in while the table is worked on.
    fn no_table() -> (table: ConnectionTable)
        ensures
            table@.first == 0,
            table@.slots.len() == 0,
            table@.tokens_match(),
    {
        ConnectionTable::new_starting_at(Token(0), 0)
    }

    /// A server without connections and with an empty log. The listening
    /// socket has the token 1, and up to 128 connections get the tokens
    /// from 2 on.
    pub fn new() -> (s: Server)
        ensures
            s@ == new_server(MAX_CONNECTIONS as nat),
    {
        Server::with_capacity(MAX_CONNECTIONS)
    }

    /// A server without connections and with an empty log, for up to
    /// `capacity` connections at a time.
    pub fn with_capacity(capacity: usize) -> (s: Server)
        requires
            FIRST_CONNECTION + capacity <= usize::MAX,
        ensures
            s@ == new_server(capacity as nat),
    {
        let conns = ConnectionTable::new_starting_at(Token(FIRST_CONNECTION), capacity);
        let _ = conns.capacity();
        Server { token: Token(SERVER_TOKEN), conns, log: MessageLog::new() }
    }

    /// The token of the listening socket. Of every server it holds that
    /// this is not the token of any slot, and that each connection sits in
    /// the slot of its own token.
    pub fn token(&self) -> (t: Token)
        ensures
            t == self@.token,
            self@.is_sound(),
    {
        proof {
            use_type_invariant(self);
        }
        self.token
    }

    /// The log of messages.
    pub fn log(&self) -> (log: &MessageLog)
        ensures
            log@ == self@.log,
    {
        &self.log
    }

    /// The registration of the listening socket and the time to the first
    /// heartbeat.
    pub fn register(&self) -> (start: Startup)
        ensures
            start == (Startup {
                listener: listener_registration(self@.token),
                heartbeat_ms: HEARTBEAT_MS,
            }),
    {
        Startup { listener: self.reregister(), heartbeat_ms: HEARTBEAT_MS }
    }

    /// The registration that renews the listening socket, due after every
    /// event on it.
    pub fn reregister(&self) -> (r: Registration)
        ensures
            r == listener_registration(self@.token),
    {
        Registration {
            token: self.token,
            interest: Interest { readable: true, writable: false, hup: false },
            edge: true,
            oneshot: true,
        }
    }

    /// The connection that lives under the token.
    pub fn find_connection_by_token(&self, token: Token) -> (r: Option<&Connection>)
        ensures
            match r {
                Some(c) => self@.conns.get(token) == Some(c@),
                None => self@.conns.get(token) is None,
            },
    {
        self.conns.get(token)
    }

    /// Tears down the connection under the token.
    pub fn reset_connection(&mut self, token: Token) -> (found: Reset)
        ensures
            (final(self)@, found) == reset(old(self)@, token),
    {
        proof {
            use_type_invariant(&*self);
        }
        if self.token == token {
            Reset::Shutdown
        } else {
            let mut conns: ConnectionTable = Server::no_table();
            core::mem::swap(&mut conns, &mut self.conns);
            let removed = conns.remove(token);
            let _ = conns.capacity();
            self.conns = conns;
            match removed {
                Some(_) => Reset::Closed,
                None => Reset::Absent,
            }
        }
    }

    /// Decides what is to be done about an event.
    pub fn ready(&mut self, token: Token, events: Readiness) -> (d: Dispatch)
        ensures
            (final(self)@, d) == dispatched(old(self)@, token, events),
    {
        if events.error || events.hup {
            let found = self.reset_connection(token);
            return Dispatch {
                shutdown: found == Reset::Shutdown,
                closed: found == Reset::Closed,
                write: false,
                accept: false,
                read: false,
            };
        }
        let listener: bool = self.token == token;
        let live: bool = !listener && self.conns.contains(token);
        Dispatch {
            shutdown: false,
            closed: false,
            write: events.writable && live,
            accept: events.readable && listener,
            read: events.readable && live,
        }
    }

    /// Takes in a socket that was accepted at `now`.
    pub fn accept_at(&mut self, now: Timestamp) -> (r: Accepted)
        ensures
            (final(self)@, r@) == accepted(old(self)@, now),
    {
        proof {
            use_type_invariant(&*self);
            first_free_facts(self@.conns);
        }
        let listener: Registration = self.reregister();
        let mut conns: ConnectionTable = Server::no_table();
        core::mem::swap(&mut conns, &mut self.conns);
        let r = match conns.insert_new(now) {
            Some(token) => {
                match conns.remove(token) {
                    Some(mut connection) => {
                        let registered = connection.register();
                        let banner: Bytes = connection.welcome();
                        let left = conns.restore(connection);
                        assert(left is None);
                        assert(conns@.slots =~= old(self)@.conns.with(welcomed(token, now)).slots);
                        Accepted { connection: Some(registered), welcome: Some(banner), listener }
                    },
                    None => Accepted { connection: None, welcome: None, listener },
                }
            },
            None => Accepted { connection: None, welcome: None, listener },
        };
        let _ = conns.capacity();
        self.conns = conns;
        r
    }

    /// Takes in a socket that was just accepted: the new connection is
    /// last updated at the time that the clock shows, whatever that is.
    pub fn accept(&mut self) -> (r: Accepted)
        ensures
            exists|now: Timestamp|
                now.is_reading() && (final(self)@, r@) == #[trigger] accepted(old(self)@, now),
    {
        let now: Timestamp = current_time();
        let r = self.accept_at(now);
        assert(now.is_reading() && (self@, r@) == accepted(old(self)@, now));
        r
    }

    /// Hands a message that was read from a connection to it, with
    /// replies tagged by the given time of day. `user_known` is the answer
    /// to the connection's [`Connection::username_query`] for the message,
    /// and `stored` says whether what its [`Connection::store_query`] asked
    /// for was stored.
    pub fn readable_at(
        &mut self,
        token: Token,
        message: &Bytes,
        user_known: bool,
        stored: bool,
        clock: ClockTime,
    ) -> (r: Reaction)
        ensures
            (final(self)@, r@) == message_handled(
                old(self)@,
                token,
                contents(*message),
                user_known,
                stored,
                clock,
            ),
    {
        proof {
            use_type_invariant(&*self);
        }
        let mut conns: ConnectionTable = Server::no_table();
        core::mem::swap(&mut conns, &mut self.conns);
        let r = match conns.remove(token) {
            None => Reaction::Gone,
            Some(mut connection) => {
                if message.len() == 0 {
                    let r = connection.reregister();
                    let left = conns.restore(connection);
                    assert(left is None);
                    assert(conns@.slots =~= old(self)@.conns.slots);
                    Reaction::Rearm(r, InputAction::Nothing)
                } else {
                    match connection.handle_input_at(message, user_known, stored, clock) {
                        Ok(action) => {
                            let r = connection.reregister();
                            let left = conns.restore(connection);
                            assert(left is None);
                            Reaction::Rearm(r, action)
                        },
                        Err(e) => Reaction::Closed(e),
                    }
                }
            },
        };
        let _ = conns.capacity();
        self.conns = conns;
        r
    }

    /// Hands a message that was read from a connection to it. Replies are
    /// tagged with the time of day that the clock shows, whatever that is.
    pub fn readable(
        &mut self,
        token: Token,
        message: &Bytes,
        user_known: bool,
        stored: bool,
    ) -> (r: Reaction)
        ensures
            exists|clock: ClockTime|
                clock.is_time_of_day() && (final(self)@, r@) == #[trigger] message_handled(
                    old(self)@,
                    token,
                    contents(*message),
                    user_known,
                    stored,
                    clock,
                ),
    {
        let clock: ClockTime = local_clock();
        let r = self.readable_at(token, message, user_known, stored, clock);
        assert(clock.is_time_of_day() && (self@, r@) == message_handled(
            old(self)@,
            token,
            contents(*message),
            user_known,
            stored,
            clock,
        ));
        r
    }

    /// Reports how the write to a connection ended.
    pub fn writable(&mut self, token: Token, outcome: WriteOutcome) -> (r: Reaction)
        ensures
            (final(self)@, r@) == write_handled(old(self)@, token, outcome),
    {
        proof {
            use_type_invariant(&*self);
        }
        let mut conns: ConnectionTable = Server::no_table();
        core::mem::swap(&mut conns, &mut self.conns);
        let r = match conns.remove(token) {
            None => Reaction::Gone,
            Some(mut connection) => {
                match connection.writable(outcome) {
                    Ok(_) => {
                        let r = connection.reregister();
                        let left = conns.restore(connection);
                        assert(left is None);
                        Reaction::Rearm(r, InputAction::Nothing)
                    },
                    Err(e) => Reaction::Closed(e),
                }
            },
        };
        let _ = conns.capacity();
        self.conns = conns;
        r
    }

    /// Files a message in the log, created at the time that the clock
    /// shows. Returns the record as it is stored, or nothing once the log
    /// takes no more.
    pub fn publish(&mut self, text: String) -> (stored: Option<Transaction>)
        ensures
            exists|now: Timestamp|
                now.is_reading() && (final(self)@, stored_view(stored)) == #[trigger] recorded(
                    old(self)@,
                    new_record(text@, now),
                ),
    {
        proof {
            use_type_invariant(&*self);
        }
        let ghost before = self@;
        let mut log: MessageLog = MessageLog::new();
        core::mem::swap(&mut log, &mut self.log);
        let stored = log.append(text);
        proof {
            let now = choose|now: Timestamp|
                now.is_reading() && (log@, stored_view(stored)) == #[trigger] taken_in(
                    before.log,
                    new_record(text@, now),
                );
            assert(now.is_reading() && (
                ServerView { log: log@, ..before },
                stored_view(stored),
            ) == recorded(before, new_record(text@, now)));
        }
        self.log = log;
        stored
    }

    /// Files a record in the log as it is, under the next id.
    pub fn record(&mut self, record: Transaction) -> (stored: Option<Transaction>)
        ensures
            (final(self)@, stored_view(stored)) == recorded(old(self)@, record@),
    {
        proof {
            use_type_invariant(&*self);
        }
        let mut log: MessageLog = MessageLog::new();
        core::mem::swap(&mut log, &mut self.log);
        let stored = log.insert_record(record);
        self.log = log;
        stored
    }

    /// The heartbeat at the given time of day: every connection is handed
    /// what the log holds that is newer than what it has seen. Returns the
    /// tokens of the connections in `Play`, for which a write is to be
    /// tried right away, and the time to the next heartbeat, which is the
    /// same after every one.
    pub fn timeout_at(&mut self, clock: ClockTime) -> (tick: Tick)
        ensures
            final(self)@ == after_timeout(old(self)@, clock),
            tick.flush@ == players(old(self)@.conns, old(self)@.conns.slots.len() as int),
            tick.next_heartbeat_ms == HEARTBEAT_MS,
    {
        proof {
            use_type_invariant(&*self);
        }
        let ghost before = self@;
        let mut conns: ConnectionTable = Server::no_table();
        core::mem::swap(&mut conns, &mut self.conns);
        let mut flush: Vec<Token> = Vec::new();
        let n: usize = conns.capacity();
        let first: usize = conns.first_token().0;
        let mut i: usize = 0;
        while i < n
            invariant
                i <= n,
                n == before.conns.slots.len(),
                first == before.conns.first,
                first + n <= usize::MAX,
                before.conns.tokens_match(),
                self.log@ == before.log,
                conns@.first == first,
                conns@.slots.len() == n,
                forall|j: int|
                    0 <= j < i ==> #[trigger] conns@.slots[j] == slot_after_heartbeat(
                        before.conns.slots[j],
                        clock,
                        before.log,
                    ),
                forall|j: int| i <= j < n ==> #[trigger] conns@.slots[j] == before.conns.slots[j],
                flush@ == players(before.conns, i as int),
            decreases n - i,
        {
            let token = Token(first + i);
            match conns.remove(token) {
                Some(mut connection) => {
                    let playing: bool = connection.handle_heartbeat_at(clock, &self.log);
                    if playing {
                        flush.push(token);
                    }
                    let left = conns.restore(connection);
                    assert(left is None);
                },
                None => {},
            }
            i += 1;
        }
        assert(conns@.slots =~= after_timeout(before, clock).conns.slots);
        let _ = conns.capacity();
        self.conns = conns;
        Tick { flush, next_heartbeat_ms: HEARTBEAT_MS }
    }

    /// The heartbeat, at the time of day that the clock shows, whatever
    /// that is.
    pub fn timeout(&mut self) -> (tick: Tick)
        ensures
            exists|clock: ClockTime|
                clock.is_time_of_day() && final(self)@ == #[trigger] after_timeout(
                    old(self)@,
                    clock,
                ),
            tick.flush@ == players(old(self)@.conns, old(self)@.conns.slots.len() as int),
            tick.next_heartbeat_ms == HEARTBEAT_MS,
    {
        let clock: ClockTime = local_clock();
        let tick = self.timeout_at(clock);
        assert(clock.is_time_of_day() && self@ == after_timeout(old(self)@, clock));
        tick
    }
}

} // verus!
