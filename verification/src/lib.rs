//! The connection-handling core of a text-based multi-user game server.
//!
//! A client connects, logs on or registers, creates a character, and plays.
//! The server keeps a table of connections and a log of messages, and at
//! every heartbeat pushes to each player what was logged since that player
//! last looked.
//!
//! The library decides and keeps the books; it never touches a socket, a
//! poller or a disk. Its caller owns those, reports what happened on them,
//! and carries out what the library answers:
//!
//! - [`server`] decides what each event of the loop means,
//! - [`table`] holds the live connections under their tokens,
//! - [`connection`] queues output and routes input by the phase of a
//!   session,
//! - [`logon`] and [`character`] are the two dialogues of a session,
//! - [`transactionstorage`] is the log of messages,
//! - [`storage`] describes the records that the dialogues ask to store,
//! - [`buffer`] and [`clock`] hold what is taken on trust from outside:
//!   byte buffers, text decoding, and the time; the one thing more is the
//!   random draw in [`character`],
//! - [`dict`], [`text`], [`decimal`] and [`messages`] are the small things
//!   underneath.
//!
//! Every function is verified against its contract. State is described by
//! views, plain mathematical values, and a function that changes state says
//! what the state is afterwards as a function of what it was before. What
//! holds of several functions together is stated and proved as a `proof fn`
//! beside them.

pub mod buffer;
pub mod character;
pub mod clock;
pub mod connection;
pub mod decimal;
pub mod dict;
pub mod logon;
pub mod messages;
pub mod server;
pub mod storage;
pub mod table;
pub mod text;
pub mod transactionstorage;
