use bytes::Bytes;
use mud_server::buffer::get_input_string;
use mud_server::character::CreationState;
use mud_server::clock::{stamp_text, ClockTime, Timestamp};
use mud_server::connection::{
    Connection, ConnectionError, ConnectionState, InputAction, Interest, ReadOutcome, ReadStep,
    RecvBuffer, Token, WriteOutcome, RECV_CAPACITY,
};
use mud_server::logon::LogonState;
use mud_server::messages::character as prompts;
use mud_server::messages::greeting;
use mud_server::transactionstorage::{MessageLog, Transaction};

fn noon() -> ClockTime {
    ClockTime::new(12, 0, 0)
}

fn fresh() -> Connection {
    Connection::new_at(Token(2), Timestamp::new(100, 0))
}

fn playing() -> Connection {
    Connection::new_in(Token(2), Timestamp::new(100, 0), ConnectionState::Play)
}

fn drain(c: &mut Connection) -> Vec<String> {
    let mut out = Vec::new();
    while c.queued() > 0 {
        let (text, len) = {
            let b = c.next_write().unwrap();
            (String::from_utf8(b.to_vec()).unwrap(), b.len())
        };
        out.push(text);
        assert!(c.writable(WriteOutcome::Wrote(len)).is_ok());
    }
    out
}

fn message(at: i64, text: &str) -> Transaction {
    Transaction::new(text.to_string(), Timestamp::new(at, 0))
}

fn is_nothing(r: &Result<InputAction, ConnectionError>) -> bool {
    matches!(r, Ok(InputAction::Nothing))
}

#[test]
fn stamp_has_two_digits_for_each_field() {
    assert_eq!(stamp_text(ClockTime::new(9, 5, 3)), "[09:05:03]");
    assert_eq!(stamp_text(ClockTime::new(23, 59, 60)), "[23:59:60]");
    assert_eq!(stamp_text(ClockTime::new(0, 0, 0)), "[00:00:00]");
}

#[test]
fn input_is_read_as_utf8() {
    assert_eq!(get_input_string(&Bytes::from_static(b"alice\r\n")), Some("alice\r\n".to_string()));
    assert_eq!(get_input_string(&Bytes::from_static("gr\u{fc}n".as_bytes())), Some("gr\u{fc}n".to_string()));
    assert_eq!(get_input_string(&Bytes::new()), Some(String::new()));
    assert_eq!(get_input_string(&Bytes::from_static(&[0x61, 0xff, 0x62])), None);
    assert_eq!(get_input_string(&Bytes::from_static(&[0xc3])), None);
    assert_eq!(get_input_string(&Bytes::from_static(&[0xed, 0xa0, 0x80])), None);
}

#[test]
fn a_fresh_connection_waits_for_a_hangup_only() {
    let c = fresh();
    assert_eq!(c.token(), Token(2));
    assert_eq!(c.get_last_update(), Timestamp::new(100, 0));
    assert_eq!(c.interest(), Interest { readable: false, writable: false, hup: true });
    assert_eq!(c.state(), ConnectionState::Logon);
    assert_eq!(c.queued(), 0);
    assert!(c.next_write().is_none());
    assert_eq!(c.logon().logon_state, LogonState::Username);
    assert_eq!(c.creator().state, CreationState::Race);
}

#[test]
fn new_reads_the_clock_for_the_last_update() {
    let c = Connection::new(Token(7));
    assert_eq!(c.token(), Token(7));
    assert!(c.get_last_update().sec > 1_000_000_000);
    assert_eq!(c.state(), ConnectionState::Logon);
    assert_eq!(c.queued(), 0);
}

#[test]
fn last_update_can_be_set() {
    let mut c = fresh();
    c.set_last_update(Timestamp::new(5, 6));
    assert_eq!(c.get_last_update(), Timestamp::new(5, 6));
    assert_eq!(c.state(), ConnectionState::Logon);
}

#[test]
fn register_adds_reading_and_reregister_repeats_the_interest() {
    let mut c = fresh();
    let r = c.register();
    assert_eq!(r.token, Token(2));
    assert_eq!(r.interest, Interest { readable: true, writable: false, hup: true });
    assert!(r.edge && r.oneshot);
    assert_eq!(c.interest(), r.interest);
    assert_eq!(c.reregister(), r);
    c.send_message(Bytes::from_static(b"x"));
    assert_eq!(c.reregister().interest, Interest { readable: true, writable: true, hup: true });
}

#[test]
fn send_message_queues_and_raises_write_interest() {
    let mut c = fresh();
    c.send_message(Bytes::from_static(b"one"));
    assert_eq!(c.queued(), 1);
    assert!(c.interest().writable);
    c.send_message(Bytes::from_static(b"two"));
    assert_eq!(c.queued(), 2);
    assert_eq!(&c.next_write().unwrap()[..], b"one");
}

#[test]
fn send_at_tags_the_text() {
    let mut c = fresh();
    c.send_at(ClockTime::new(9, 5, 3), "hello\r\n".to_string());
    assert_eq!(&c.next_write().unwrap()[..], b"[09:05:03]hello\r\n");
    c.send_at(ClockTime::new(17, 45, 0), "gr\u{fc}n".to_string());
    assert_eq!(drain(&mut c), vec!["[09:05:03]hello\r\n", "[17:45:00]gr\u{fc}n"]);
}

#[test]
fn an_empty_text_is_not_sent() {
    let mut c = fresh();
    c.send_at(noon(), String::new());
    c.send(String::new());
    assert_eq!(c.queued(), 0);
    assert!(!c.interest().writable);
}

#[test]
fn send_tags_with_the_time_of_day() {
    let mut c = fresh();
    c.send("hi".to_string());
    assert_eq!(c.queued(), 1);
    let b = c.next_write().unwrap().to_vec();
    assert_eq!(b.len(), 12);
    assert_eq!(b[0], b'[');
    assert_eq!(b[3], b':');
    assert_eq!(b[6], b':');
    assert_eq!(b[9], b']');
    for i in [1, 2, 4, 5, 7, 8] {
        assert!(b[i].is_ascii_digit());
    }
    let hour = (b[1] - b'0') * 10 + (b[2] - b'0');
    let minute = (b[4] - b'0') * 10 + (b[5] - b'0');
    let second = (b[7] - b'0') * 10 + (b[8] - b'0');
    assert!(hour <= 23 && minute <= 59 && second <= 60);
    assert_eq!(&b[10..], b"hi");
}

#[test]
fn welcome_is_the_banner_untagged_and_not_queued() {
    let c = fresh();
    assert_eq!(&c.welcome()[..], greeting::WELCOME_MESSAGE.as_bytes());
    assert_eq!(c.queued(), 0);
    assert!(!c.interest().writable);
}

#[test]
fn a_full_write_takes_the_first_buffer_only() {
    let mut c = fresh();
    c.send_message(Bytes::from_static(b"one"));
    c.send_message(Bytes::from_static(b"two"));
    c.send_message(Bytes::from_static(b"three"));
    assert!(c.writable(WriteOutcome::Wrote(3)).is_ok());
    assert_eq!(c.queued(), 2);
    assert_eq!(&c.next_write().unwrap()[..], b"two");
    assert!(c.interest().writable);
    assert!(c.writable(WriteOutcome::Wrote(3)).is_ok());
    assert_eq!(&c.next_write().unwrap()[..], b"three");
    assert!(c.interest().writable);
    assert!(c.writable(WriteOutcome::Wrote(5)).is_ok());
    assert_eq!(c.queued(), 0);
    assert!(!c.interest().writable);
}

#[test]
fn a_partial_write_leaves_the_rest_at_the_front() {
    let mut c = fresh();
    c.send_message(Bytes::from_static(b"abcdef"));
    c.send_message(Bytes::from_static(b"next"));
    assert!(c.writable(WriteOutcome::Wrote(2)).is_ok());
    assert_eq!(c.queued(), 2);
    assert_eq!(&c.next_write().unwrap()[..], b"cdef");
    assert!(c.writable(WriteOutcome::Wrote(0)).is_ok());
    assert_eq!(&c.next_write().unwrap()[..], b"cdef");
    assert!(c.writable(WriteOutcome::Wrote(3)).is_ok());
    assert_eq!(&c.next_write().unwrap()[..], b"f");
    assert!(c.interest().writable);
    assert!(c.writable(WriteOutcome::Wrote(1)).is_ok());
    assert_eq!(&c.next_write().unwrap()[..], b"next");
}

#[test]
fn a_blocked_write_changes_nothing() {
    let mut c = fresh();
    c.send_message(Bytes::from_static(b"one"));
    c.send_message(Bytes::from_static(b"two"));
    assert!(c.writable(WriteOutcome::WouldBlock).is_ok());
    assert_eq!(c.queued(), 2);
    assert_eq!(&c.next_write().unwrap()[..], b"one");
    assert!(c.interest().writable);
}

#[test]
fn a_failed_write_is_an_error() {
    let mut c = fresh();
    c.send_message(Bytes::from_static(b"one"));
    c.send_message(Bytes::from_static(b"two"));
    assert_eq!(c.writable(WriteOutcome::Failed), Err(ConnectionError::WriteFailed));
    assert_eq!(c.queued(), 1);
    assert_eq!(&c.next_write().unwrap()[..], b"two");
}

#[test]
fn writable_with_nothing_queued_drops_write_interest() {
    let mut c = fresh();
    c.register();
    for outcome in [WriteOutcome::Wrote(4), WriteOutcome::WouldBlock, WriteOutcome::Failed] {
        assert!(c.writable(outcome).is_ok());
        assert_eq!(c.queued(), 0);
        assert_eq!(c.interest(), Interest { readable: true, writable: false, hup: true });
    }
}

#[test]
fn a_write_of_more_than_the_buffer_counts_as_the_whole_buffer() {
    let mut c = fresh();
    c.send_message(Bytes::from_static(b"one"));
    c.send_message(Bytes::from_static(b"two"));
    assert!(c.writable(WriteOutcome::Wrote(100)).is_ok());
    assert_eq!(&c.next_write().unwrap()[..], b"two");
}

#[test]
fn a_short_read_ends_the_cycle() {
    let c = fresh();
    let mut buffer = RecvBuffer::new();
    assert_eq!(buffer.room(), RECV_CAPACITY);
    assert_eq!(c.readable(&mut buffer, ReadOutcome::Read, b"alice\r\n"), Ok(ReadStep::Drained));
    assert_eq!(buffer.room(), RECV_CAPACITY - 7);
    assert_eq!(&buffer.into_message()[..], b"alice\r\n");
}

#[test]
fn a_full_read_asks_for_another_and_excess_is_dropped() {
    let c = fresh();
    let mut buffer = RecvBuffer::new();
    let chunk = vec![b'a'; RECV_CAPACITY];
    assert_eq!(c.readable(&mut buffer, ReadOutcome::Read, &chunk), Ok(ReadStep::Again));
    assert_eq!(buffer.room(), 0);
    assert_eq!(c.readable(&mut buffer, ReadOutcome::Read, b"more"), Ok(ReadStep::Drained));
    assert_eq!(buffer.room(), 0);
    let message = buffer.into_message();
    assert_eq!(message.len(), RECV_CAPACITY);
    assert!(message.iter().all(|b| *b == b'a'));
}

#[test]
fn a_read_beyond_the_room_keeps_what_fits() {
    let c = fresh();
    let mut buffer = RecvBuffer::new();
    assert_eq!(c.readable(&mut buffer, ReadOutcome::Read, &vec![b'x'; 2000]), Ok(ReadStep::Drained));
    assert_eq!(c.readable(&mut buffer, ReadOutcome::Read, &vec![b'y'; 100]), Ok(ReadStep::Drained));
    assert_eq!(buffer.room(), 0);
    let message = buffer.into_message();
    assert_eq!(message.len(), 2048);
    assert_eq!(message[1999], b'x');
    assert_eq!(message[2000], b'y');
    assert_eq!(message[2047], b'y');
}

#[test]
fn would_block_and_failure_leave_the_buffer() {
    let c = fresh();
    let mut buffer = RecvBuffer::new();
    assert_eq!(c.readable(&mut buffer, ReadOutcome::Read, b"abc"), Ok(ReadStep::Drained));
    assert_eq!(c.readable(&mut buffer, ReadOutcome::WouldBlock, b"zzz"), Ok(ReadStep::Drained));
    assert_eq!(c.readable(&mut buffer, ReadOutcome::Failed, b"zzz"), Err(ConnectionError::ReadFailed));
    assert_eq!(&buffer.into_message()[..], b"abc");
}

#[test]
fn invalid_utf8_fails_the_connection_and_changes_nothing() {
    for state in [ConnectionState::New, ConnectionState::Logon, ConnectionState::CharacterCreation, ConnectionState::Play] {
        let mut c = Connection::new_in(Token(3), Timestamp::new(1, 0), state);
        let r = c.handle_input_at(&Bytes::from_static(&[0x80, 0x61]), false, true, noon());
        assert!(matches!(r, Err(ConnectionError::InvalidEncoding)));
        assert_eq!(c.state(), state);
        assert_eq!(c.queued(), 0);
        assert_eq!(c.logon().logon_state, LogonState::Username);
    }
}

#[test]
fn the_new_phase_emits_the_banner_and_moves_to_logon() {
    let mut c = Connection::new_in(Token(3), Timestamp::new(1, 0), ConnectionState::New);
    let r = c.handle_input_at(&Bytes::from_static(b"hello"), false, true, noon());
    assert!(is_nothing(&r));
    assert_eq!(c.state(), ConnectionState::Logon);
    assert_eq!(c.logon().logon_state, LogonState::Username);
    assert!(c.interest().writable);
    assert_eq!(drain(&mut c), vec![greeting::WELCOME_MESSAGE]);
}

#[test]
fn logon_input_drives_the_logon_dialogue() {
    let mut c = fresh();
    let r = c.handle_input_at(&Bytes::from_static(b"bob\r\n"), true, true, noon());
    assert!(is_nothing(&r));
    assert_eq!(c.state(), ConnectionState::Logon);
    assert_eq!(c.logon().logon_state, LogonState::Password);
    assert_eq!(c.logon().username, "bob");
    assert_eq!(drain(&mut c), vec![format!("[12:00:00]{}", greeting::ENTER_PASSWORD)]);
    let r = c.handle_input_at(&Bytes::from_static(b"pw\r\n"), false, true, noon());
    assert!(is_nothing(&r));
    assert_eq!(c.state(), ConnectionState::Play);
    assert_eq!(c.logon().logon_state, LogonState::Done);
    assert_eq!(c.queued(), 0);
}

#[test]
fn play_input_is_a_command_and_is_not_echoed() {
    let mut c = playing();
    let r = c.handle_input_at(&Bytes::from_static(b"look north\r\n"), false, true, noon());
    match r {
        Ok(InputAction::Command(line)) => assert_eq!(line, "look north\r\n"),
        _ => panic!("a command was expected"),
    }
    assert_eq!(c.state(), ConnectionState::Play);
    assert_eq!(c.queued(), 0);
    assert!(!c.interest().writable);
    assert_eq!(c.get_last_update(), Timestamp::new(100, 0));
}

#[test]
fn handle_input_tags_replies_with_the_time_of_day() {
    let mut c = fresh();
    let r = c.handle_input(&Bytes::from_static(b"alice"), false, true);
    assert!(is_nothing(&r));
    assert_eq!(c.logon().logon_state, LogonState::RegisterNewUser);
    let sent = drain(&mut c);
    assert_eq!(sent.len(), 1);
    assert_eq!(sent[0].len(), 10 + greeting::REGISTER_MESSAGE.len());
    assert!(sent[0].starts_with('['));
    assert_eq!(&sent[0][10..], greeting::REGISTER_MESSAGE);
}

#[test]
fn the_name_to_look_up_comes_from_the_logon_phase_only() {
    let c = fresh();
    assert_eq!(c.username_query(&Bytes::from_static(b" alice \r\n")), Some("alice".to_string()));
    assert_eq!(c.username_query(&Bytes::from_static(&[0xff])), None);
    assert_eq!(playing().username_query(&Bytes::from_static(b"alice")), None);
    let mut later = fresh();
    let _ = later.handle_input_at(&Bytes::from_static(b"alice"), true, true, noon());
    assert_eq!(later.username_query(&Bytes::from_static(b"alice")), None);
}

#[test]
fn delivery_sends_what_is_newer_and_advances_the_watermark() {
    let mut c = playing();
    let found = vec![message(101, "one\r\n"), message(102, "two\r\n"), message(105, "three\r\n")];
    assert!(c.deliver_at(ClockTime::new(8, 30, 1), &found));
    assert_eq!(c.get_last_update(), Timestamp::new(105, 0));
    assert!(c.interest().writable);
    assert_eq!(
        drain(&mut c),
        vec!["[08:30:01]one\r\n", "[08:30:01]two\r\n", "[08:30:01]three\r\n"]
    );
}

#[test]
fn delivery_skips_what_was_seen() {
    let mut c = playing();
    let found = vec![message(99, "old"), message(100, "same"), message(101, "new"), message(101, "twin"), message(100, "late")];
    assert!(c.deliver_at(noon(), &found));
    assert_eq!(c.get_last_update(), Timestamp::new(101, 0));
    assert_eq!(drain(&mut c), vec!["[12:00:00]new", "[12:00:00]twin"]);
}

#[test]
fn records_with_one_timestamp_are_all_delivered_once() {
    let log = log_of(&[(100, "seen"), (101, "first"), (101, "second"), (101, "third"), (102, "last")]);
    let mut c = playing();
    assert!(c.handle_heartbeat_at(noon(), &log));
    assert_eq!(
        drain(&mut c),
        vec!["[12:00:00]first", "[12:00:00]second", "[12:00:00]third", "[12:00:00]last"]
    );
    assert_eq!(c.get_last_update(), Timestamp::new(102, 0));
    assert!(c.handle_heartbeat_at(noon(), &log));
    assert_eq!(c.queued(), 0);

    let twins = log_of(&[(200, "a"), (200, "b")]);
    let mut d = playing();
    assert!(d.handle_heartbeat_at(noon(), &twins));
    assert_eq!(drain(&mut d), vec!["[12:00:00]a", "[12:00:00]b"]);
    assert_eq!(d.get_last_update(), Timestamp::new(200, 0));
    assert!(d.handle_heartbeat_at(noon(), &twins));
    assert_eq!(d.queued(), 0);
}

#[test]
fn delivery_of_nothing_new_changes_nothing() {
    let mut c = playing();
    assert!(c.deliver_at(noon(), &Vec::new()));
    assert!(c.deliver_at(noon(), &vec![message(50, "old")]));
    assert_eq!(c.get_last_update(), Timestamp::new(100, 0));
    assert_eq!(c.queued(), 0);
    assert!(!c.interest().writable);
}

#[test]
fn delivery_counts_a_record_without_text_as_seen() {
    let mut c = playing();
    assert!(c.deliver_at(noon(), &vec![message(101, ""), message(102, "x")]));
    assert_eq!(c.get_last_update(), Timestamp::new(102, 0));
    assert_eq!(drain(&mut c), vec!["[12:00:00]x"]);
}

#[test]
fn delivery_queues_behind_what_waits() {
    let mut c = playing();
    c.send_message(Bytes::from_static(b"waiting"));
    assert!(c.deliver_at(noon(), &vec![message(200, "news")]));
    assert_eq!(drain(&mut c), vec!["waiting", "[12:00:00]news"]);
}

#[test]
fn delivery_acts_in_play_only() {
    for state in [ConnectionState::New, ConnectionState::Logon, ConnectionState::CharacterCreation] {
        let mut c = Connection::new_in(Token(3), Timestamp::new(1, 0), state);
        assert!(!c.deliver_at(noon(), &vec![message(200, "news")]));
        assert!(!c.deliver(&vec![message(200, "news")]));
        assert_eq!(c.queued(), 0);
        assert_eq!(c.get_last_update(), Timestamp::new(1, 0));
        assert_eq!(c.state(), state);
    }
}

#[test]
fn delivery_reads_the_clock_for_the_tag() {
    let mut c = playing();
    assert!(c.deliver(&vec![message(200, "news")]));
    assert_eq!(c.get_last_update(), Timestamp::new(200, 0));
    let sent = drain(&mut c);
    assert_eq!(sent.len(), 1);
    assert_eq!(sent[0].len(), 14);
    assert_eq!(&sent[0][10..], "news");
}

#[test]
fn registration_and_creation_through_a_connection() {
    let mut c = fresh();
    let clock = ClockTime::new(7, 8, 9);
    let tag = "[07:08:09]";
    for line in [&b"alice\r\n"[..], b"yes\r\n", b"secret\r\n"] {
        let message = Bytes::copy_from_slice(line);
        assert!(c.store_query(&message).is_none());
        assert!(is_nothing(&c.handle_input_at(&message, false, false, clock)));
    }
    let confirmation = Bytes::from_static(b"secret\r\n");
    let request = c.store_query(&confirmation).expect("the player was to be stored");
    assert_eq!(request.table, "player");
    assert_eq!(request.key, "alice");
    assert_eq!(request.data[0].value, "secret");
    assert_eq!(
        drain(&mut c),
        vec![
            format!("{}{}", tag, greeting::REGISTER_MESSAGE),
            format!("{}{}", tag, greeting::REGISTER_PASSWORD),
            format!("{}{}", tag, greeting::CONFIRM_PASSWORD),
        ]
    );
    assert!(is_nothing(&c.handle_input_at(&confirmation, false, false, clock)));
    assert_eq!(c.state(), ConnectionState::Logon);
    assert_eq!(c.logon().logon_state, LogonState::RegisterPassword);
    assert_eq!(drain(&mut c), vec![format!("{}{}", tag, greeting::REGISTER_FAILED)]);
    assert!(is_nothing(&c.handle_input_at(&confirmation, false, false, clock)));
    assert!(c.store_query(&confirmation).is_some());
    assert!(is_nothing(&c.handle_input_at(&confirmation, false, true, clock)));
    assert_eq!(c.state(), ConnectionState::CharacterCreation);
    assert_eq!(c.logon().logon_state, LogonState::RegisterCreation);
    assert_eq!(
        drain(&mut c),
        vec![
            format!("{}{}", tag, greeting::CONFIRM_PASSWORD),
            format!("{}{}", tag, greeting::CREATE_CHARACTER),
        ]
    );
    for (line, state) in [
        (&b"7\r\n"[..], CreationState::Race),
        (b"2\r\n", CreationState::Gender),
        (b"f\r\n", CreationState::Type),
        (b"1\r\n", CreationState::Selection),
        (b"no\r\n", CreationState::Type),
        (b"3\r\n", CreationState::Selection),
    ] {
        let message = Bytes::copy_from_slice(line);
        assert!(c.store_query(&message).is_none());
        assert!(is_nothing(&c.handle_input_at(&message, false, true, clock)));
        assert_eq!(c.creator().state, state);
        assert_eq!(c.creator().username, "alice");
        assert_eq!(c.state(), ConnectionState::CharacterCreation);
    }
    let yes = Bytes::from_static(b"y\r\n");
    let request = c.store_query(&yes).expect("the character was to be stored");
    assert_eq!(request.table, "player_char_info");
    assert_eq!(request.key, "alice");
    assert_eq!(request.data.iter().find(|c| c.name == "race").unwrap().value, "2");
    assert_eq!(request.data.iter().find(|c| c.name == "agi").unwrap().value, "5");
    assert_eq!(
        drain(&mut c),
        vec![
            format!("{}{}", tag, prompts::RACESELECTION),
            format!("{}{}", tag, prompts::GENDERSELECTION),
            format!("{}{}", tag, prompts::TYPESELECTION),
            format!("{}{}\nstr:3agi:5int:3charm:2", tag, prompts::ATTRSELECTION),
            format!("{}{}", tag, prompts::TYPESELECTION),
            format!("{}{}\nstr:3agi:5int:3charm:2", tag, prompts::ATTRSELECTION),
        ]
    );
    assert!(is_nothing(&c.handle_input_at(&yes, false, false, clock)));
    assert_eq!(c.state(), ConnectionState::CharacterCreation);
    assert_eq!(c.creator().state, CreationState::Selection);
    assert_eq!(drain(&mut c), vec![format!("{}{}", tag, prompts::SAVE_FAILED)]);
    assert!(c.store_query(&yes).is_some());
    assert!(is_nothing(&c.handle_input_at(&yes, false, true, clock)));
    assert_eq!(c.state(), ConnectionState::Play);
    assert_eq!(c.creator().state, CreationState::Done);
    assert_eq!(drain(&mut c), vec![format!("{}{}", tag, prompts::SUCCESS)]);
    assert!(c.store_query(&yes).is_none());
}

#[test]
fn nothing_is_to_be_stored_outside_the_two_confirmations() {
    for state in [ConnectionState::New, ConnectionState::Logon, ConnectionState::CharacterCreation, ConnectionState::Play] {
        let c = Connection::new_in(Token(3), Timestamp::new(1, 0), state);
        for line in [&b"yes"[..], b"y", b"", b"secret", &[0xff]] {
            assert!(c.store_query(&Bytes::copy_from_slice(line)).is_none());
        }
    }
}

fn log_of(times: &[(i64, &str)]) -> MessageLog {
    let mut log = MessageLog::new();
    for (at, text) in times {
        log.insert_record(message(*at, text)).unwrap();
    }
    log
}

#[test]
fn heartbeat_asks_the_log_for_what_is_newer() {
    let log = log_of(&[(90, "old"), (100, "same"), (101, "one"), (103, "two")]);
    let mut c = playing();
    assert!(c.handle_heartbeat_at(ClockTime::new(1, 2, 3), &log));
    assert_eq!(c.get_last_update(), Timestamp::new(103, 0));
    assert_eq!(drain(&mut c), vec!["[01:02:03]one", "[01:02:03]two"]);
    assert!(c.handle_heartbeat_at(noon(), &log));
    assert_eq!(c.queued(), 0);
    assert_eq!(c.get_last_update(), Timestamp::new(103, 0));
    assert!(!c.interest().writable);
}

#[test]
fn heartbeat_on_an_empty_log_changes_nothing() {
    let mut c = playing();
    assert!(c.handle_heartbeat_at(noon(), &MessageLog::new()));
    assert!(c.handle_heartbeat(&MessageLog::new()));
    assert_eq!(c.queued(), 0);
    assert_eq!(c.get_last_update(), Timestamp::new(100, 0));
}

#[test]
fn heartbeat_acts_in_play_only() {
    let log = log_of(&[(200, "news")]);
    for state in [ConnectionState::New, ConnectionState::Logon, ConnectionState::CharacterCreation] {
        let mut c = Connection::new_in(Token(3), Timestamp::new(1, 0), state);
        assert!(!c.handle_heartbeat_at(noon(), &log));
        assert!(!c.handle_heartbeat(&log));
        assert_eq!(c.queued(), 0);
        assert_eq!(c.get_last_update(), Timestamp::new(1, 0));
        assert_eq!(c.state(), state);
    }
}

#[test]
fn heartbeat_reads_the_clock_for_the_tag() {
    let log = log_of(&[(200, "news")]);
    let mut c = playing();
    assert!(c.handle_heartbeat(&log));
    assert_eq!(c.get_last_update(), Timestamp::new(200, 0));
    let sent = drain(&mut c);
    assert_eq!(sent.len(), 1);
    assert_eq!(sent[0].len(), 14);
    assert!(sent[0].starts_with('['));
    assert_eq!(&sent[0][9..], "]news");
}
