//! One client connection: what it waits for, what is queued to be written
//! to it, and where it stands in its session.
//!
//! A connection does no input or output itself. Whoever owns the socket
//! reads and writes, and tells the connection what happened; the connection
//! keeps the books and says what to do next. Every method that takes
//! `&mut self` states the connection after the call as a function of the
//! connection before it, over [`ConnectionView`].

use crate::buffer::{all_contents, contents, get_input_string, input_text};
use crate::character::{
    confirms,
    creation_saves,
    creation_step,
    creator_at,
    save_character,
    CharCreator,
    Character,
    CreationState,
    CreatorView,
};
use crate::clock::{current_time, local_clock, stamp, stamp_text, ClockTime, Timestamp};
use crate::logon::{
    logon_saves,
    logon_start,
    logon_step,
    name_to_look_up,
    player_to_store,
    username_to_check,
    LogonManager,
    LogonState,
    LogonView,
};
use crate::messages::greeting::WELCOME_MESSAGE;
use crate::storage::{InsertRequest, InsertRequestView};
use crate::transactionstorage::{
    in_time_order,
    newer_than,
    newer_than_facts,
    none_newer,
    record_views,
    time_order_without_last,
    MessageLog,
    Transaction,
    TransactionView,
};
use bytes::Buf;
use bytes::Bytes;
use vstd::prelude::*;
use vstd::slice::slice_subrange;
use vstd::string::*;
use vstd::utf8::encode_utf8;

verus! {

/// The number by which the server and the poller know a connection.
#[derive(Copy, Clone, Debug, PartialEq, Eq, Structural)]
pub struct Token(pub usize);

/// The events that a socket is registered for.
#[derive(Copy, Clone, Debug, PartialEq, Eq, Structural)]
pub struct Interest {
    pub readable: bool,
    pub writable: bool,
    pub hup: bool,
}

/// What the poller is to be told of a socket: the token to report it under
/// and the events to report. Registrations are edge-triggered and fire
/// once, so one is due after every event.
#[derive(Copy, Clone, Debug, PartialEq, Eq, Structural)]
pub struct Registration {
    pub token: Token,
    pub interest: Interest,
    pub edge: bool,
    pub oneshot: bool,
}

/// The registration of a socket for the given events.
pub open spec fn registration(token: Token, interest: Interest) -> Registration {
    Registration { token, interest, edge: true, oneshot: true }
}

/// The phases of a connection.
#[derive(Copy, Clone, Debug, PartialEq, Eq, Structural)]
pub enum ConnectionState {
    New,
    Logon,
    CharacterCreation,
    Play,
}

/// Why a connection has to be closed.
#[derive(Copy, Clone, Debug, PartialEq, Eq, Structural)]
pub enum ConnectionError {
    /// Input that is not valid UTF-8.
    InvalidEncoding,
    /// The socket failed on a read.
    ReadFailed,
    /// The socket failed on a write.
    WriteFailed,
}

/// How an attempt to write the first queued buffer ended.
#[derive(Copy, Clone, Debug, PartialEq, Eq, Structural)]
pub enum WriteOutcome {
    /// The socket took this many bytes.
    Wrote(usize),
    /// The socket took nothing for now.
    WouldBlock,
    /// The socket failed.
    Failed,
}

/// How an attempt to read from the socket ended.
#[derive(Copy, Clone, Debug, PartialEq, Eq, Structural)]
pub enum ReadOutcome {
    /// The socket gave the bytes that come with this outcome.
    Read,
    /// The socket has nothing for now.
    WouldBlock,
    /// The socket failed.
    Failed,
}

/// Whether a cycle of reads goes on.
#[derive(Copy, Clone, Debug, PartialEq, Eq, Structural)]
pub enum ReadStep {
    /// Read once more.
    Again,
    /// The socket is drained for now.
    Drained,
}

/// The most that one cycle of reads takes in.
pub const RECV_CAPACITY: usize = 2048;

/// The bytes taken in by one cycle of reads, at most [`RECV_CAPACITY`].
pub struct RecvBuffer {
    data: Vec<u8>,
}

impl View for RecvBuffer {
    type V = Seq<u8>;

    closed spec fn view(&self) -> Seq<u8> {
        self.data@
    }
}

/// What a buffer holds after it took in a chunk: the chunk is added as far
/// as there is room, and what is beyond is dropped.
pub open spec fn absorbed(held: Seq<u8>, chunk: Seq<u8>) -> Seq<u8> {
    if held.len() + chunk.len() <= RECV_CAPACITY {
        held + chunk
    } else {
        held + chunk.take(RECV_CAPACITY - held.len())
    }
}

/// What a read means for the cycle: the buffer after it, and whether to
/// read again. A read that gave less than a full buffer shows that the
/// socket is drained; so does a socket that has nothing for now. A failure
/// ends the cycle with an error.
pub open spec fn read_step(held: Seq<u8>, outcome: ReadOutcome, chunk: Seq<u8>) -> (
    Seq<u8>,
    Result<ReadStep, ConnectionError>,
) {
    match outcome {
        ReadOutcome::Failed => (held, Err(ConnectionError::ReadFailed)),
        ReadOutcome::WouldBlock => (held, Ok(ReadStep::Drained)),
        ReadOutcome::Read => (
            absorbed(held, chunk),
            Ok(
                if chunk.len() < RECV_CAPACITY {
                    ReadStep::Drained
                } else {
                    ReadStep::Again
                },
            ),
        ),
    }
}

impl RecvBuffer {
    #[verifier::type_invariant]
    spec fn within_capacity(&self) -> bool {
        self.data@.len() <= RECV_CAPACITY
    }

    /// An empty buffer.
    pub fn new() -> (buffer: RecvBuffer)
        ensures
            buffer@ == Seq::<u8>::empty(),
    {
        RecvBuffer { data: Vec::new() }
    }

    /// The number of bytes that the buffer still has room for.
    pub fn room(&self) -> (n: usize)
        ensures
            self@.len() <= RECV_CAPACITY,
            n == RECV_CAPACITY - self@.len(),
    {
        proof {
            use_type_invariant(self);
        }
        RECV_CAPACITY - self.data.len()
    }

    fn absorb(&mut self, chunk: &[u8])
        ensures
            final(self)@ == absorbed(old(self)@, chunk@),
    {
        proof {
            use_type_invariant(&*self);
        }
        let mut data: Vec<u8> = Vec::new();
        core::mem::swap(&mut data, &mut self.data);
        let room: usize = RECV_CAPACITY - data.len();
        if chunk.len() <= room {
            data.extend_from_slice(chunk);
        } else {
            data.extend_from_slice(slice_subrange(chunk, 0, room));
        }
        self.data = data;
    }

    /// Hands the bytes over as a message.
    pub fn into_message(self) -> (message: Bytes)
        ensures
            contents(message) == self@,
    {
        Bytes::copy_from_slice(self.data.as_slice())
    }
}

/// What a [`Connection`] holds, as plain values.
pub struct ConnectionView {
    pub token: Token,
    pub last_update: Timestamp,
    pub interest: Interest,
    pub send_queue: Seq<Seq<u8>>,
    pub state: ConnectionState,
    pub logon: LogonView,
    pub creator: CreatorView,
}

/// A client connection.
pub struct Connection {
    token: Token,
    last_update: Timestamp,
    interest: Interest,
    send_queue: Vec<Bytes>,
    state: ConnectionState,
    logon_handler: LogonManager,
    character_creator: CharCreator,
}

impl View for Connection {
    type V = ConnectionView;

    closed spec fn view(&self) -> ConnectionView {
        ConnectionView {
            token: self.token,
            last_update: self.last_update,
            interest: self.interest,
            send_queue: all_contents(self.send_queue@),
            state: self.state,
            logon: self.logon_handler@,
            creator: self.character_creator@,
        }
    }
}

/// A connection that was just accepted: it waits for a hang-up only, has
/// nothing queued, and is about to be asked for a name.
pub open spec fn fresh_connection(token: Token, now: Timestamp) -> ConnectionView {
    ConnectionView {
        token,
        last_update: now,
        interest: Interest { readable: false, writable: false, hup: true },
        send_queue: Seq::empty(),
        state: ConnectionState::Logon,
        logon: logon_start(),
        creator: creator_at(
            Seq::empty(),
            Seq::empty(),
            Seq::empty(),
            CreationState::Race,
            Seq::empty(),
        ),
    }
}

/// A connection that waits for everything it can write to be written: one
/// with queued output is registered for writing.
pub open spec fn wakes_for_output(c: ConnectionView) -> bool {
    c.send_queue.len() > 0 ==> c.interest.writable
}

/// The connection after a buffer is queued: the buffer is last in the
/// queue, and the connection is registered for writing.
pub open spec fn enqueued(c: ConnectionView, bytes: Seq<u8>) -> ConnectionView {
    ConnectionView {
        send_queue: c.send_queue.push(bytes),
        interest: Interest { writable: true, ..c.interest },
        ..c
    }
}

/// A text as it is sent: the tag of the time of day, then the text, in
/// UTF-8.
pub open spec fn stamped(clock: ClockTime, text: Seq<char>) -> Seq<u8> {
    encode_utf8(stamp(clock) + text)
}

/// The connection after a text is sent at the given time of day. An empty
/// text is not sent.
pub open spec fn sent(c: ConnectionView, clock: ClockTime, text: Seq<char>) -> ConnectionView {
    if text.len() == 0 {
        c
    } else {
        enqueued(c, stamped(clock, text))
    }
}

/// The connection after an attempt to write, and whether it can go on.
///
/// With nothing queued there was nothing to write: the connection stops
/// waiting to write. Otherwise the attempt was on the first buffer of the
/// queue. What the socket took of it is gone; what it did not take stays
/// first in the queue, ahead of everything queued after it. Once the queue
/// is empty the connection stops waiting to write. A failed socket costs
/// the buffer and is an error.
pub open spec fn written(c: ConnectionView, outcome: WriteOutcome) -> (
    ConnectionView,
    Result<(), ConnectionError>,
) {
    let idle = Interest { writable: false, ..c.interest };
    if c.send_queue.len() == 0 {
        (ConnectionView { interest: idle, ..c }, Ok(()))
    } else {
        let first = c.send_queue[0];
        match outcome {
            WriteOutcome::Failed => (
                ConnectionView { send_queue: c.send_queue.drop_first(), ..c },
                Err(ConnectionError::WriteFailed),
            ),
            WriteOutcome::WouldBlock => (c, Ok(())),
            WriteOutcome::Wrote(n) => {
                if n < first.len() {
                    (
                        ConnectionView {
                            send_queue: c.send_queue.update(0, first.skip(n as int)),
                            ..c
                        },
                        Ok(()),
                    )
                } else if c.send_queue.len() == 1 {
                    (ConnectionView { send_queue: Seq::empty(), interest: idle, ..c }, Ok(()))
                } else {
                    (ConnectionView { send_queue: c.send_queue.drop_first(), ..c }, Ok(()))
                }
            },
        }
    }
}

/// The bytes that a queue still owes the client: its buffers, one after
/// the other.
pub open spec fn outstanding(queue: Seq<Seq<u8>>) -> Seq<u8>
    decreases queue.len(),
{
    if queue.len() == 0 {
        Seq::empty()
    } else {
        outstanding(queue.drop_last()) + queue.last()
    }
}

/// The bytes that a queue owes, with its first buffer set apart.
proof fn outstanding_from_the_front(queue: Seq<Seq<u8>>)
    requires
        queue.len() > 0,
    ensures
        outstanding(queue) == queue[0] + outstanding(queue.drop_first()),
    decreases queue.len(),
{
    if queue.len() == 1 {
        assert(queue.drop_last() =~= Seq::<Seq<u8>>::empty());
        assert(queue.drop_first() =~= Seq::<Seq<u8>>::empty());
        assert(outstanding(queue) =~= queue[0] + outstanding(queue.drop_first()));
    } else {
        outstanding_from_the_front(queue.drop_last());
        assert(queue.drop_last().drop_first() =~= queue.drop_first().drop_last());
        assert(queue.drop_last()[0] == queue[0]);
        assert(queue.drop_first().last() == queue.last());
        assert(outstanding(queue) =~= queue[0] + outstanding(queue.drop_first()));
    }
}

/// No byte is lost and none changes place. Queuing a buffer adds its bytes
/// behind everything that is owed. A write takes what the socket took off
/// the front of what is owed, and nothing else: not when the write was
/// partial, and not when the socket took nothing.
pub proof fn output_is_a_stream(c: ConnectionView, bytes: Seq<u8>, n: usize)
    ensures
        outstanding(enqueued(c, bytes).send_queue) == outstanding(c.send_queue) + bytes,
        outstanding(written(c, WriteOutcome::WouldBlock).0.send_queue) == outstanding(
            c.send_queue,
        ),
        c.send_queue.len() > 0 && n <= c.send_queue[0].len() ==> outstanding(
            written(c, WriteOutcome::Wrote(n)).0.send_queue,
        ) == outstanding(c.send_queue).skip(n as int),
        wakes_for_output(c) ==> wakes_for_output(written(c, WriteOutcome::Wrote(n)).0),
{
    assert(enqueued(c, bytes).send_queue.drop_last() =~= c.send_queue);
    if c.send_queue.len() > 0 && n <= c.send_queue[0].len() {
        let first = c.send_queue[0];
        let after = written(c, WriteOutcome::Wrote(n)).0.send_queue;
        outstanding_from_the_front(c.send_queue);
        if n < first.len() {
            outstanding_from_the_front(after);
            assert(after.drop_first() =~= c.send_queue.drop_first());
            assert(first.skip(n as int) + outstanding(c.send_queue.drop_first()) =~= (first
                + outstanding(c.send_queue.drop_first())).skip(n as int));
        } else {
            assert(after =~= c.send_queue.drop_first());
            assert(outstanding(c.send_queue.drop_first()) =~= (first + outstanding(
                c.send_queue.drop_first(),
            )).skip(n as int));
        }
    }
}

impl Connection {
    #[verifier::type_invariant]
    spec fn well_formed(&self) -> bool {
        wakes_for_output(self@)
    }

    /// A connection as it is right after the socket was accepted, last
    /// updated at `now`.
    pub fn new_at(token: Token, now: Timestamp) -> (c: Connection)
        ensures
            c@ == fresh_connection(token, now),
    {
        Connection::new_in(token, now, ConnectionState::Logon)
    }

    /// A connection that starts in the given phase, and is otherwise as it
    /// is right after the socket was accepted.
    pub fn new_in(token: Token, now: Timestamp, state: ConnectionState) -> (c: Connection)
        ensures
            c@ == (ConnectionView { state, ..fresh_connection(token, now) }),
    {
        let c = Connection {
            token,
            last_update: now,
            interest: Interest { readable: false, writable: false, hup: true },
            send_queue: Vec::new(),
            state,
            logon_handler: LogonManager::new(),
            character_creator: CharCreator::new(),
        };
        assert(c@.send_queue =~= Seq::<Seq<u8>>::empty());
        c
    }

    /// A connection as it is right after the socket was accepted, last
    /// updated at the time that the clock shows.
    pub fn new(token: Token) -> (c: Connection)
        ensures
            c@ == fresh_connection(token, c@.last_update),
            c@.last_update.is_reading(),
    {
        Connection::new_at(token, current_time())
    }

    /// The token that the connection is known by.
    pub fn token(&self) -> (t: Token)
        ensures
            t == self@.token,
    {
        self.token
    }

    /// The events that the connection waits for. A connection with queued
    /// output always waits to write.
    pub fn interest(&self) -> (i: Interest)
        ensures
            i == self@.interest,
            wakes_for_output(self@),
    {
        proof {
            use_type_invariant(self);
        }
        self.interest
    }

    /// The phase that the connection is in.
    pub fn state(&self) -> (s: ConnectionState)
        ensures
            s == self@.state,
    {
        self.state
    }

    /// Number of buffers that wait to be written.
    pub fn queued(&self) -> (n: usize)
        ensures
            n == self@.send_queue.len(),
    {
        self.send_queue.len()
    }

    /// The logon dialogue of the connection.
    pub fn logon(&self) -> (l: &LogonManager)
        ensures
            l@ == self@.logon,
    {
        &self.logon_handler
    }

    /// The character dialogue of the connection.
    pub fn creator(&self) -> (c: &CharCreator)
        ensures
            c@ == self@.creator,
    {
        &self.character_creator
    }

    /// Sets the point in time up to which the connection has seen the log.
    pub fn set_last_update(&mut self, updated_time: Timestamp)
        ensures
            final(self)@ == (ConnectionView { last_update: updated_time, ..old(self)@ }),
    {
        proof {
            use_type_invariant(&*self);
        }
        self.last_update = updated_time;
    }

    /// The point in time up to which the connection has seen the log.
    pub fn get_last_update(&self) -> (t: Timestamp)
        ensures
            t == self@.last_update,
    {
        self.last_update
    }

    /// The buffer that the next attempt to write is to be made on: the
    /// first of the queue.
    pub fn next_write(&self) -> (buffer: Option<&Bytes>)
        ensures
            match buffer {
                Some(b) => self@.send_queue.len() > 0 && contents(*b) == self@.send_queue[0],
                None => self@.send_queue.len() == 0,
            },
    {
        if self.send_queue.len() > 0 {
            Some(&self.send_queue[0])
        } else {
            None
        }
    }

    /// Queues a buffer to be written, and registers for writing.
    pub fn send_message(&mut self, message: Bytes)
        ensures
            final(self)@ == enqueued(old(self)@, contents(message)),
    {
        let mut queue: Vec<Bytes> = Vec::new();
        core::mem::swap(&mut queue, &mut self.send_queue);
        queue.push(message);
        assert(all_contents(queue@) =~= old(self)@.send_queue.push(contents(message)));
        self.interest = Interest { writable: true, ..self.interest };
        self.send_queue = queue;
    }

    /// Queues a text with the tag of the given time of day in front of it.
    /// An empty text is not sent.
    pub fn send_at(&mut self, clock: ClockTime, message: String)
        ensures
            final(self)@ == sent(old(self)@, clock, message@),
    {
        proof {
            use_type_invariant(&*self);
        }
        if !message.as_str().is_empty() {
            let mut s: String = stamp_text(clock);
            s.append(message.as_str());
            let bytes: Bytes = Bytes::copy_from_slice(s.as_str().as_bytes());
            self.send_message(bytes);
        }
    }

    /// Queues a text with the tag of the current time of day in front of
    /// it. An empty text is not sent.
    pub fn send(&mut self, message: String)
        ensures
            exists|clock: ClockTime|
                clock.is_time_of_day() && final(self)@ == #[trigger] sent(
                    old(self)@,
                    clock,
                    message@,
                ),
    {
        let clock: ClockTime = local_clock();
        self.send_at(clock, message);
        assert(clock.is_time_of_day() && self@ == sent(old(self)@, clock, message@));
    }

    /// The welcome text that is written to a connection right after it was
    /// accepted. It goes out as it is, without a tag, and does not pass
    /// through the queue.
    pub fn welcome(&self) -> (banner: Bytes)
        ensures
            contents(banner) == encode_utf8(WELCOME_MESSAGE@),
    {
        Bytes::copy_from_slice(WELCOME_MESSAGE.as_bytes())
    }

    /// Adds reading to what the connection waits for, and gives the
    /// registration to hand to the poller.
    pub fn register(&mut self) -> (r: Registration)
        ensures
            final(self)@ == (ConnectionView {
                interest: Interest { readable: true, ..old(self)@.interest },
                ..old(self)@
            }),
            r == registration(final(self)@.token, final(self)@.interest),
    {
        proof {
            use_type_invariant(&*self);
        }
        self.interest = Interest { readable: true, ..self.interest };
        Registration { token: self.token, interest: self.interest, edge: true, oneshot: true }
    }

    /// The registration that renews what the connection waits for, due
    /// after every event.
    pub fn reregister(&self) -> (r: Registration)
        ensures
            r == registration(self@.token, self@.interest),
    {
        Registration { token: self.token, interest: self.interest, edge: true, oneshot: true }
    }

    /// Takes in the result of one read of a cycle. `chunk` holds the bytes
    /// that were read, where any were.
    pub fn readable(&self, buffer: &mut RecvBuffer, outcome: ReadOutcome, chunk: &[u8]) -> (r:
        Result<ReadStep, ConnectionError>)
        ensures
            (final(buffer)@, r) == read_step(old(buffer)@, outcome, chunk@),
    {
        match outcome {
            ReadOutcome::Failed => Err(ConnectionError::ReadFailed),
            ReadOutcome::WouldBlock => Ok(ReadStep::Drained),
            ReadOutcome::Read => {
                buffer.absorb(chunk);
                if chunk.len() < RECV_CAPACITY {
                    Ok(ReadStep::Drained)
                } else {
                    Ok(ReadStep::Again)
                }
            },
        }
    }

    /// Takes in the result of an attempt to write the buffer that
    /// [`Connection::next_write`] gave. With nothing queued no attempt was
    /// due, and the outcome is not looked at.
    pub fn writable(&mut self, outcome: WriteOutcome) -> (r: Result<(), ConnectionError>)
        ensures
            (final(self)@, r) == written(old(self)@, outcome),
    {
        proof {
            use_type_invariant(&*self);
        }
        let mut queue: Vec<Bytes> = Vec::new();
        core::mem::swap(&mut queue, &mut self.send_queue);
        let ghost before = all_contents(queue@);
        let mut result: Result<(), ConnectionError> = Ok(());
        if queue.len() > 0 {
            match outcome {
                WriteOutcome::Wrote(n) => {
                    let mut first: Bytes = queue.remove(0);
                    if n < first.len() {
                        first.advance(n);
                        queue.insert(0, first);
                        assert(all_contents(queue@) =~= before.update(0, before[0].skip(n as int)));
                    } else {
                        assert(all_contents(queue@) =~= before.drop_first());
                    }
                },
                WriteOutcome::WouldBlock => {},
                WriteOutcome::Failed => {
                    let _ = queue.remove(0);
                    assert(all_contents(queue@) =~= before.drop_first());
                    result = Err(ConnectionError::WriteFailed);
                },
            }
        }
        if queue.len() == 0 && result.is_ok() {
            self.interest = Interest { writable: false, ..self.interest };
            assert(all_contents(queue@) =~= Seq::<Seq<u8>>::empty());
        }
        self.send_queue = queue;
        result
    }
}

/// What a line of input asks the caller to do.
pub enum InputAction {
    /// Nothing.
    Nothing,
    /// Run a command of the game, given as the line that was read.
    Command(String),
}

/// What an [`InputAction`] holds, as plain text.
pub enum InputActionView {
    Nothing,
    Command(Seq<char>),
}

impl View for InputAction {
    type V = InputActionView;

    open spec fn view(&self) -> InputActionView {
        match self {
            InputAction::Nothing => InputActionView::Nothing,
            InputAction::Command(line) => InputActionView::Command(line@),
        }
    }
}

/// What the handling of a message came to, as plain values: what it asks
/// of the caller, or why the connection failed.
pub open spec fn asked(r: Result<InputAction, ConnectionError>) -> Result<
    InputActionView,
    ConnectionError,
> {
    match r {
        Ok(action) => Ok(action@),
        Err(e) => Err(e),
    }
}

/// The character dialogue as a line of input finds it: the dialogue of the
/// connection, for the player who logged on.
pub open spec fn creator_for(c: ConnectionView) -> CreatorView {
    creator_at(
        c.logon.username,
        c.creator.character.info,
        c.creator.character.attr,
        c.creator.state,
        Seq::empty(),
    )
}

/// The record that a line of text asks to store, if any: a new player
/// where the line completes a registration, a character where it confirms
/// one. The caller is to store it before the line is handled, and to tell
/// how that went.
pub open spec fn store_wanted(c: ConnectionView, text: Seq<char>) -> Option<InsertRequestView> {
    match c.state {
        ConnectionState::Logon => logon_saves(text, c.logon),
        ConnectionState::CharacterCreation => creation_saves(text, creator_for(c)),
        _ => None,
    }
}

/// What a line of text does to a connection, and what it asks of the
/// caller. `user_known` says whether the line names a known player,
/// `stored` whether the record that the line asks to store was stored, and
/// `clock` is the time of day that replies are tagged with.
///
/// - `New`: the welcome is queued, untagged, and the phase is `Logon`.
/// - `Logon`: the logon dialogue takes its step and its reply is sent. The
///   phase follows the dialogue, to `CharacterCreation` where that is at
///   `RegisterCreation` and to `Play` where it is `Done`. A registration
///   whose player could not be stored is not complete: the dialogue says
///   so in its reply, and the phase stays.
/// - `CharacterCreation`: the character dialogue takes its step and its
///   reply is sent. The phase follows the dialogue to `Play` where that is
///   `Done`. A character that could not be stored is not done, in the same
///   way.
/// - `Play`: the line is a command of the game, for the caller to run.
///   Nothing changes and nothing is sent back.
pub open spec fn input_step(
    c: ConnectionView,
    text: Seq<char>,
    user_known: bool,
    stored: bool,
    clock: ClockTime,
) -> (ConnectionView, InputActionView) {
    match c.state {
        ConnectionState::New => (
            enqueued(
                ConnectionView { state: ConnectionState::Logon, ..c },
                encode_utf8(WELCOME_MESSAGE@),
            ),
            InputActionView::Nothing,
        ),
        ConnectionState::Logon => {
            let logon = logon_step(text, c.logon, user_known, stored);
            let state = match logon.logon_state {
                LogonState::RegisterCreation => ConnectionState::CharacterCreation,
                LogonState::Done => ConnectionState::Play,
                _ => c.state,
            };
            (
                sent(ConnectionView { logon, state, ..c }, clock, logon.return_msg),
                InputActionView::Nothing,
            )
        },
        ConnectionState::CharacterCreation => {
            let creator = creation_step(text, creator_for(c), stored);
            let state = if creator.state == CreationState::Done {
                ConnectionState::Play
            } else {
                c.state
            };
            (
                sent(ConnectionView { creator, state, ..c }, clock, creator.return_msg),
                InputActionView::Nothing,
            )
        },
        ConnectionState::Play => (c, InputActionView::Command(text)),
    }
}

/// What a message that was read does to a connection. A message that is
/// not valid UTF-8 changes nothing and is an error; any other is handled
/// as the text it encodes.
pub open spec fn input_outcome(
    c: ConnectionView,
    message: Seq<u8>,
    user_known: bool,
    stored: bool,
    clock: ClockTime,
) -> (ConnectionView, Result<InputActionView, ConnectionError>) {
    match input_text(message) {
        None => (c, Err(ConnectionError::InvalidEncoding)),
        Some(text) => {
            let (after, action) = input_step(c, text, user_known, stored, clock);
            (after, Ok(action))
        },
    }
}

/// The place of a phase in the life of a connection.
pub open spec fn phase_rank(state: ConnectionState) -> int {
    match state {
        ConnectionState::New => 0,
        ConnectionState::Logon => 1,
        ConnectionState::CharacterCreation => 2,
        ConnectionState::Play => 3,
    }
}

/// Input never takes a connection back to an earlier phase. It leaves the
/// token and what the connection has seen of the log alone, takes nothing
/// out of the queue, and leaves a connection with queued output waiting to
/// write.
pub proof fn input_never_regresses(
    c: ConnectionView,
    message: Seq<u8>,
    user_known: bool,
    stored: bool,
    clock: ClockTime,
)
    ensures
        ({
            let after = input_outcome(c, message, user_known, stored, clock).0;
            &&& phase_rank(after.state) >= phase_rank(c.state)
            &&& after.token == c.token
            &&& after.last_update == c.last_update
            &&& c.send_queue.is_prefix_of(after.send_queue)
            &&& wakes_for_output(c) ==> wakes_for_output(after)
        }),
{
}

/// A connection moves on only once the record is stored. Input takes a
/// connection from `Logon` to `CharacterCreation` only where it asked for a
/// player to be stored and the player was stored, and from
/// `CharacterCreation` to `Play` only where the character dialogue was done
/// before or the character was stored. Where the store failed the phase
/// stays as it is. How a store went matters to no input that asks to store
/// nothing.
pub proof fn phases_wait_for_the_store(
    c: ConnectionView,
    text: Seq<char>,
    user_known: bool,
    stored: bool,
    clock: ClockTime,
)
    ensures
        ({
            let after = input_step(c, text, user_known, stored, clock).0;
            &&& c.state == ConnectionState::Logon && after.state
                == ConnectionState::CharacterCreation ==> stored && store_wanted(c, text) is Some
            &&& c.state == ConnectionState::CharacterCreation && after.state
                == ConnectionState::Play ==> c.creator.state == CreationState::Done || (stored
                && store_wanted(c, text) is Some)
            &&& store_wanted(c, text) is Some && !stored ==> after.state == c.state
            &&& store_wanted(c, text) is None ==> input_step(c, text, user_known, stored, clock)
                == input_step(c, text, user_known, !stored, clock)
        }),
{
}

/// The record that the caller has to store before a message is handled:
/// the one that its text asks to store, if any.
pub open spec fn record_wanted(c: ConnectionView, message: Seq<u8>) -> Option<InsertRequestView> {
    match input_text(message) {
        Some(text) => store_wanted(c, text),
        None => None,
    }
}

/// The name that the caller has to look up before a message is handled:
/// the one that the logon dialogue is about to read from it, if any.
pub open spec fn name_wanted(c: ConnectionView, message: Seq<u8>) -> Option<Seq<char>> {
    match input_text(message) {
        Some(text) => if c.state == ConnectionState::Logon {
            name_to_look_up(text, c.logon)
        } else {
            None
        },
        None => None,
    }
}

/// The texts that a run of messages puts on the wire for a connection
/// that has seen everything up to `seen`: every message that is newer than
/// `seen`, in the order given, unless its text is empty. Messages that
/// were created at the same time are all sent.
pub open spec fn pushed(seen: Timestamp, clock: ClockTime, messages: Seq<TransactionView>) -> Seq<
    Seq<u8>,
>
    decreases messages.len(),
{
    if messages.len() == 0 {
        Seq::empty()
    } else {
        let before = pushed(seen, clock, messages.drop_last());
        let last = messages.last();
        if last.time_created.is_after(seen) && last.message.len() > 0 {
            before.push(stamped(clock, last.message))
        } else {
            before
        }
    }
}

/// The newest point in time among `seen` and the creation of the messages.
pub open spec fn seen_after(seen: Timestamp, messages: Seq<TransactionView>) -> Timestamp
    decreases messages.len(),
{
    if messages.len() == 0 {
        seen
    } else {
        let before = seen_after(seen, messages.drop_last());
        if messages.last().time_created.is_after(before) {
            messages.last().time_created
        } else {
            before
        }
    }
}

/// The connection after a heartbeat that found the given messages. Only
/// a connection in `Play` takes messages. It is sent every message that is
/// newer than what it has seen, in the order given, and has then seen
/// everything up to the newest of them.
pub open spec fn after_heartbeat(
    c: ConnectionView,
    clock: ClockTime,
    messages: Seq<TransactionView>,
) -> ConnectionView {
    if c.state == ConnectionState::Play {
        let news = pushed(c.last_update, clock, messages);
        ConnectionView {
            last_update: seen_after(c.last_update, messages),
            send_queue: c.send_queue + news,
            interest: Interest { writable: c.interest.writable || news.len() > 0, ..c.interest },
            ..c
        }
    } else {
        c
    }
}

/// The connection after its heartbeat on the given log: it is handed what
/// the log holds that is newer than what it has seen.
pub open spec fn heartbeat(
    c: ConnectionView,
    clock: ClockTime,
    log: Seq<TransactionView>,
) -> ConnectionView {
    after_heartbeat(c, clock, newer_than(log, c.last_update))
}

/// The texts of a run of records as they go on the wire: each tagged, and
/// those without text left out.
pub open spec fn wire_texts(clock: ClockTime, records: Seq<TransactionView>) -> Seq<Seq<u8>>
    decreases records.len(),
{
    if records.len() == 0 {
        Seq::empty()
    } else {
        let before = wire_texts(clock, records.drop_last());
        if records.last().message.len() > 0 {
            before.push(stamped(clock, records.last().message))
        } else {
            before
        }
    }
}

/// A heartbeat never moves back what a connection has seen, and takes
/// nothing out of its queue.
pub proof fn heartbeat_never_rewinds(
    c: ConnectionView,
    clock: ClockTime,
    messages: Seq<TransactionView>,
)
    ensures
        !c.last_update.is_after(after_heartbeat(c, clock, messages).last_update),
        c.send_queue.is_prefix_of(after_heartbeat(c, clock, messages).send_queue),
        wakes_for_output(c) ==> wakes_for_output(after_heartbeat(c, clock, messages)),
{
    seen_after_is_no_earlier(c.last_update, messages);
}

proof fn seen_after_is_no_earlier(seen: Timestamp, messages: Seq<TransactionView>)
    ensures
        !seen.is_after(seen_after(seen, messages)),
    decreases messages.len(),
{
    if messages.len() > 0 {
        seen_after_is_no_earlier(seen, messages.drop_last());
    }
}

/// A run of records in time order that are all newer than `seen` is sent
/// whole, and the newest point in time among them is that of the last.
proof fn newer_run_is_pushed_whole(seen: Timestamp, clock: ClockTime, records: Seq<TransactionView>)
    requires
        in_time_order(records),
        forall|i: int|
            0 <= i < records.len() ==> (#[trigger] records[i]).time_created.is_after(seen),
    ensures
        pushed(seen, clock, records) == wire_texts(clock, records),
        seen_after(seen, records) == if records.len() > 0 {
            records.last().time_created
        } else {
            seen
        },
    decreases records.len(),
{
    if records.len() > 0 {
        let shorter = records.drop_last();
        time_order_without_last(records);
        assert forall|i: int| 0 <= i < shorter.len() implies (
        #[trigger] shorter[i]).time_created.is_after(seen) by {
            assert(shorter[i] == records[i]);
        }
        newer_run_is_pushed_whole(seen, clock, shorter);
        let last = records[records.len() - 1];
        assert(last.time_created.is_after(seen));
        if shorter.len() > 0 {
            assert(shorter.last() == records[records.len() - 2]);
            assert(!records[records.len() - 2].time_created.is_after(
                records[records.len() - 1].time_created,
            ));
        }
    }
}

/// Heartbeat delivery. A connection in `Play` that has seen everything up
/// to some point in time is handed, at a heartbeat, what the log holds
/// that is newer. It is sent exactly these records, each once, oldest
/// first and behind what was already queued, and has then seen everything
/// up to the last of them. Records that were created at the same time are
/// all sent. Where the log holds nothing newer, nothing changes.
pub proof fn heartbeat_delivers_what_is_new(
    c: ConnectionView,
    clock: ClockTime,
    log: Seq<TransactionView>,
)
    requires
        c.state == ConnectionState::Play,
        in_time_order(log),
    ensures
        ({
            let news = newer_than(log, c.last_update);
            let after = heartbeat(c, clock, log);
            &&& after.send_queue == c.send_queue + wire_texts(clock, news)
            &&& after.last_update == if news.len() > 0 {
                news.last().time_created
            } else {
                c.last_update
            }
            &&& news.len() == 0 ==> after == c
            &&& newer_than(log, after.last_update) == Seq::<TransactionView>::empty()
        }),
{
    let news = newer_than(log, c.last_update);
    newer_than_facts(log, c.last_update);
    newer_run_is_pushed_whole(c.last_update, clock, news);
    let after = after_heartbeat(c, clock, news);
    if news.len() == 0 {
        assert(c.send_queue + Seq::<Seq<u8>>::empty() =~= c.send_queue);
        assert(after.interest == c.interest);
    }
    assert forall|i: int| 0 <= i < log.len() implies !(#[trigger] log[i]).time_created.is_after(
        after.last_update,
    ) by {
        if log[i].time_created.is_after(c.last_update) {
            assert(news.contains(log[i]));
            let w = choose|w: int| 0 <= w < news.len() && news[w] == log[i];
            if w < news.len() - 1 {
                assert(!news[w].time_created.is_after(news[news.len() - 1].time_created));
            }
        }
    }
    none_newer(log, after.last_update);
}

impl Connection {
    /// The name of the player that the caller has to look up before it
    /// hands the message to [`Connection::handle_input`], if the logon
    /// dialogue is about to read a name from it.
    pub fn username_query(&self, message: &Bytes) -> (name: Option<String>)
        ensures
            match name {
                Some(n) => name_wanted(self@, contents(*message)) == Some(n@),
                None => name_wanted(self@, contents(*message)) is None,
            },
    {
        match get_input_string(message) {
            Some(text) => {
                if self.state == ConnectionState::Logon {
                    username_to_check(text.as_str(), &self.logon_handler)
                } else {
                    None
                }
            },
            None => None,
        }
    }

    /// The record that the caller has to store before it hands the
    /// message to [`Connection::handle_input`], if the message asks for one
    /// to be stored: the new player where it completes a registration, the
    /// character where it confirms one.
    pub fn store_query(&self, message: &Bytes) -> (request: Option<InsertRequest>)
        ensures
            match request {
                Some(r) => record_wanted(self@, contents(*message)) == Some(r@),
                None => record_wanted(self@, contents(*message)) is None,
            },
    {
        match get_input_string(message) {
            Some(text) => {
                match self.state {
                    ConnectionState::Logon => player_to_store(text.as_str(), &self.logon_handler),
                    ConnectionState::CharacterCreation => {
                        match self.character_creator.state {
                            CreationState::Selection => {
                                if confirms(text.as_str()) {
                                    Some(
                                        save_character(
                                            self.logon_handler.username.as_str(),
                                            &self.character_creator.character,
                                        ),
                                    )
                                } else {
                                    None
                                }
                            },
                            _ => None,
                        }
                    },
                    _ => None,
                }
            },
            None => None,
        }
    }

    /// Handles a message that was read, with replies tagged by the given
    /// time of day. `user_known` is the answer to
    /// [`Connection::username_query`], and `stored` says whether what
    /// [`Connection::store_query`] asked for was stored; each is read only
    /// where the query asked for something.
    pub fn handle_input_at(
        &mut self,
        message: &Bytes,
        user_known: bool,
        stored: bool,
        clock: ClockTime,
    ) -> (r: Result<InputAction, ConnectionError>)
        ensures
            (final(self)@, asked(r)) == input_outcome(
                old(self)@,
                contents(*message),
                user_known,
                stored,
                clock,
            ),
    {
        proof {
            use_type_invariant(&*self);
        }
        let input_string: String = match get_input_string(message) {
            Some(text) => text,
            None => {
                return Err(ConnectionError::InvalidEncoding);
            },
        };
        match self.state {
            ConnectionState::New => {
                self.state = ConnectionState::Logon;
                let banner: Bytes = self.welcome();
                self.send_message(banner);
                Ok(InputAction::Nothing)
            },
            ConnectionState::Logon => {
                let data_struct = LogonManager::new_from_data(
                    self.logon_handler.username.clone(),
                    self.logon_handler.password.clone(),
                    self.logon_handler.logon_state,
                    String::new(),
                );
                let result = crate::logon::process_commands(
                    input_string,
                    data_struct,
                    user_known,
                    stored,
                );
                let to_send: String = result.return_msg.clone();
                match result.logon_state {
                    LogonState::RegisterCreation => {
                        self.state = ConnectionState::CharacterCreation;
                    },
                    LogonState::Done => {
                        self.state = ConnectionState::Play;
                    },
                    _ => {},
                }
                self.logon_handler = result;
                self.send_at(clock, to_send);
                Ok(InputAction::Nothing)
            },
            ConnectionState::CharacterCreation => {
                let mut creator: CharCreator = CharCreator::new();
                core::mem::swap(&mut creator, &mut self.character_creator);
                let CharCreator { username: _, character, state, return_msg: _ } = creator;
                let Character {
                    username: _,
                    info,
                    attr,
                    items: _,
                    equips: _,
                    skills: _,
                    history: _,
                } = character;
                let character = Character::new_from_data(
                    self.logon_handler.username.clone(),
                    info,
                    attr,
                );
                let data_struct = CharCreator::new_from_data(
                    self.logon_handler.username.clone(),
                    character,
                    state,
                    String::new(),
                );
                let result = CharCreator::process_commands(input_string, data_struct, stored);
                let to_send: String = result.return_msg.clone();
                match result.state {
                    CreationState::Done => {
                        self.state = ConnectionState::Play;
                    },
                    _ => {},
                }
                self.character_creator = result;
                self.send_at(clock, to_send);
                Ok(InputAction::Nothing)
            },
            ConnectionState::Play => Ok(InputAction::Command(input_string)),
        }
    }

    /// Handles a message that was read. Replies are tagged with the time
    /// of day that the clock shows, whatever that is.
    pub fn handle_input(&mut self, message: &Bytes, user_known: bool, stored: bool) -> (r: Result<
        InputAction,
        ConnectionError,
    >)
        ensures
            exists|clock: ClockTime|
                clock.is_time_of_day() && (final(self)@, asked(r)) == #[trigger] input_outcome(
                    old(self)@,
                    contents(*message),
                    user_known,
                    stored,
                    clock,
                ),
    {
        let clock: ClockTime = local_clock();
        let r = self.handle_input_at(message, user_known, stored, clock);
        assert(clock.is_time_of_day() && (self@, asked(r)) == input_outcome(
            old(self)@,
            contents(*message),
            user_known,
            stored,
            clock,
        ));
        r
    }

    /// Delivers what a query of the log found, tagged with the given time
    /// of day. Returns whether the caller is to try a write right away,
    /// which is so for every connection in `Play`.
    pub fn deliver_at(&mut self, clock: ClockTime, messages: &Vec<Transaction>) -> (flush: bool)
        ensures
            final(self)@ == after_heartbeat(old(self)@, clock, record_views(messages@)),
            flush == (old(self)@.state == ConnectionState::Play),
    {
        proof {
            use_type_invariant(&*self);
        }
        match self.state {
            ConnectionState::Play => {
                let ghost found = record_views(messages@);
                let seen: Timestamp = self.last_update;
                let mut last_update: Timestamp = seen;
                let n: usize = messages.len();
                let mut i: usize = 0;
                proof {
                    assert(found.take(0) =~= Seq::empty());
                    assert(self@.send_queue =~= old(self)@.send_queue + pushed(
                        old(self)@.last_update,
                        clock,
                        found.take(0),
                    ));
                }
                while i < n
                    invariant
                        i <= n,
                        n == messages@.len(),
                        found == record_views(messages@),
                        seen == old(self)@.last_update,
                        last_update == seen_after(old(self)@.last_update, found.take(i as int)),
                        self@ == (ConnectionView {
                            send_queue: old(self)@.send_queue + pushed(
                                old(self)@.last_update,
                                clock,
                                found.take(i as int),
                            ),
                            interest: Interest {
                                writable: old(self)@.interest.writable || pushed(
                                    old(self)@.last_update,
                                    clock,
                                    found.take(i as int),
                                ).len() > 0,
                                ..old(self)@.interest
                            },
                            ..old(self)@
                        }),
                    decreases n - i,
                {
                    proof {
                        let next = found.take(i + 1);
                        assert(next.drop_last() =~= found.take(i as int));
                        assert(next.last() == messages@[i as int]@);
                    }
                    let ghost queue = self@.send_queue;
                    if messages[i].time_created.after(&seen) {
                        self.send_at(clock, messages[i].message.clone());
                    }
                    if messages[i].time_created.after(&last_update) {
                        last_update = messages[i].time_created;
                    }
                    proof {
                        let seen = old(self)@.last_update;
                        let fresh = pushed(seen, clock, found.take(i + 1));
                        let stale = pushed(seen, clock, found.take(i as int));
                        assert(self@.send_queue =~= old(self)@.send_queue + fresh) by {
                            if fresh.len() > stale.len() {
                                assert(queue.push(fresh.last()) =~= old(self)@.send_queue + fresh);
                            }
                        }
                    }
                    i += 1;
                }
                proof {
                    assert(found.take(n as int) =~= found);
                }
                self.set_last_update(last_update);
                true
            },
            _ => false,
        }
    }

    /// Delivers what a query of the log found, tagged with the time of day
    /// that the clock shows, whatever that is.
    pub fn deliver(&mut self, messages: &Vec<Transaction>) -> (flush: bool)
        ensures
            exists|clock: ClockTime|
                clock.is_time_of_day() && final(self)@ == #[trigger] after_heartbeat(
                    old(self)@,
                    clock,
                    record_views(messages@),
                ),
            flush == (old(self)@.state == ConnectionState::Play),
    {
        let clock: ClockTime = local_clock();
        let flush = self.deliver_at(clock, messages);
        assert(clock.is_time_of_day() && self@ == after_heartbeat(
            old(self)@,
            clock,
            record_views(messages@),
        ));
        flush
    }

    /// The heartbeat at the given time of day. A connection in `Play` asks
    /// the log for what is newer than what it has seen, sends it, and has
    /// then seen it; any other connection does nothing. Returns whether the
    /// caller is to try a write right away, which is so for every
    /// connection in `Play`.
    pub fn handle_heartbeat_at(&mut self, clock: ClockTime, log: &MessageLog) -> (flush: bool)
        ensures
            final(self)@ == heartbeat(old(self)@, clock, log@),
            flush == (old(self)@.state == ConnectionState::Play),
    {
        match self.state {
            ConnectionState::Play => {
                let messages: Vec<Transaction> = log.query(self.last_update);
                self.deliver_at(clock, &messages)
            },
            _ => false,
        }
    }

    /// The heartbeat, at the time of day that the clock shows, whatever
    /// that is.
    pub fn handle_heartbeat(&mut self, log: &MessageLog) -> (flush: bool)
        ensures
            exists|clock: ClockTime|
                clock.is_time_of_day() && final(self)@ == #[trigger] heartbeat(
                    old(self)@,
                    clock,
                    log@,
                ),
            flush == (old(self)@.state == ConnectionState::Play),
    {
        let clock: ClockTime = local_clock();
        let flush = self.handle_heartbeat_at(clock, log);
        assert(clock.is_time_of_day() && self@ == heartbeat(old(self)@, clock, log@));
        flush
    }
}

} // verus!
