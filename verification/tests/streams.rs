use bytes::Bytes;

use proxy_tunnels::error::{StreamError, StreamErrorKind};
use proxy_tunnels::pump::{Pump, PumpCommand, PumpEvent, PumpStage};
use proxy_tunnels::read::{ReadAction, ReadEvent, ReadSide, MAX_READ_ROUNDS};
use proxy_tunnels::sessions::{Admission, Session, Sessions};
use proxy_tunnels::udp::{BindStage, UdpBind, UdpBuffers};
use proxy_tunnels::write::{WriteAction, WriteEvent, WriteSide, WRITE_CHUNK};

fn poll(room: usize) -> ReadEvent {
    ReadEvent::Poll {
        room,
        stopped: false,
    }
}

fn data(bytes: &'static [u8]) -> ReadEvent {
    ReadEvent::Data(Bytes::from_static(bytes))
}

fn given(action: ReadAction) -> Vec<u8> {
    match action {
        ReadAction::Deliver(chunk) => chunk.to_vec(),
        _ => panic!("nothing was delivered"),
    }
}

fn is_reset(error: &StreamError) -> bool {
    error.kind == StreamErrorKind::ConnectionReset
        && error.message == "HTTP/3 tunnel stream closed or reset"
}

fn write(bytes: &[u8]) -> WriteEvent<'_> {
    WriteEvent::Write {
        bytes,
        stopped: false,
    }
}

fn reserved(bytes: &[u8]) -> WriteEvent<'_> {
    WriteEvent::Reserved {
        granted: true,
        bytes,
    }
}

fn acknowledged(bytes: &[u8]) -> WriteEvent<'_> {
    WriteEvent::Acknowledged {
        received: true,
        bytes,
        stopped: false,
    }
}

#[test]
fn reads_deliver_data_in_order_and_end_cleanly() {
    let mut side = ReadSide::new();
    assert!(matches!(side.step(poll(3)), ReadAction::PollData));
    assert_eq!(given(side.step(data(b"after-fin"))), b"aft");
    assert_eq!(given(side.step(poll(4))), b"er-f");
    assert_eq!(given(side.step(poll(100))), b"in");
    assert!(matches!(side.step(poll(100)), ReadAction::PollData));
    assert!(matches!(
        side.step(ReadEvent::DataEnded),
        ReadAction::PollTrailers
    ));
    assert!(matches!(
        side.step(ReadEvent::Ended { trailers: false }),
        ReadAction::Complete
    ));
    assert!(matches!(side.step(poll(1)), ReadAction::Complete));
    assert!(matches!(
        side.step(ReadEvent::Poll {
            room: 1,
            stopped: true
        }),
        ReadAction::Fail(error) if is_reset(&error)
    ));
}

#[test]
fn resets_and_trailers_are_no_clean_end() {
    let mut side = ReadSide::new();
    side.step(poll(1));
    assert!(matches!(
        side.step(ReadEvent::DataFailed),
        ReadAction::Fail(error) if is_reset(&error)
    ));
    let mut side = ReadSide::new();
    side.step(poll(1));
    side.step(ReadEvent::DataEnded);
    assert!(matches!(
        side.step(ReadEvent::EndFailed),
        ReadAction::Fail(error) if is_reset(&error)
    ));
    assert!(matches!(side.step(poll(1)), ReadAction::PollTrailers));
    assert!(matches!(
        side.step(ReadEvent::Ended { trailers: true }),
        ReadAction::Fail(error) if error.kind == StreamErrorKind::InvalidData
            && error.message == "trailers are not permitted in a CONNECT tunnel"
    ));
    assert!(matches!(side.step(poll(1)), ReadAction::PollTrailers));
}

#[test]
fn reads_without_room_complete_and_stopped_sessions_fail() {
    let mut side = ReadSide::new();
    assert!(matches!(
        side.step(ReadEvent::Poll {
            room: 0,
            stopped: true
        }),
        ReadAction::Complete
    ));
    assert!(matches!(
        side.step(ReadEvent::Poll {
            room: 1,
            stopped: true
        }),
        ReadAction::Fail(error) if is_reset(&error)
    ));
    assert!(matches!(side.step(data(b"x")), ReadAction::Ignore));
}

#[test]
fn empty_data_does_not_hold_a_reader_forever() {
    let mut side = ReadSide::new();
    assert!(matches!(side.step(poll(1)), ReadAction::PollData));
    for _ in 1..MAX_READ_ROUNDS {
        assert!(matches!(side.step(data(b"")), ReadAction::PollData));
    }
    assert!(matches!(side.step(data(b"")), ReadAction::Yield));
    assert!(matches!(side.step(poll(1)), ReadAction::PollData));
    assert_eq!(given(side.step(data(b"y"))), b"y");
}

#[test]
fn data_in_the_last_round_is_kept_for_the_next_read() {
    let mut side = ReadSide::new();
    side.step(poll(9));
    for _ in 1..MAX_READ_ROUNDS {
        side.step(data(b""));
    }
    assert!(matches!(side.step(data(b"kept")), ReadAction::Yield));
    assert_eq!(given(side.step(poll(9))), b"kept");
}

#[test]
fn writes_take_one_chunk() {
    let mut side = WriteSide::new();
    let long: Vec<u8> = (0..WRITE_CHUNK + 10).map(|i| (i % 251) as u8).collect();
    assert!(matches!(side.step(write(&long)), WriteAction::Reserve));
    match side.step(reserved(&long)) {
        WriteAction::SendData(chunk) => assert_eq!(&chunk[..], &long[..65536]),
        _ => panic!("no data was sent"),
    }
    assert!(matches!(side.step(write(b"abc")), WriteAction::Reserve));
    match side.step(reserved(b"abc")) {
        WriteAction::SendData(chunk) => assert_eq!(&chunk[..], b"abc"),
        _ => panic!("no data was sent"),
    }
    assert!(matches!(side.step(write(b"")), WriteAction::WroteNothing));
    assert!(matches!(side.step(reserved(b"abc")), WriteAction::Ignore));
}

#[test]
fn half_close_ends_writes() {
    let mut side = WriteSide::new();
    side.step(write(b"request"));
    side.step(reserved(b"request"));
    assert!(matches!(
        side.step(WriteEvent::Flush { stopped: false }),
        WriteAction::Reserve
    ));
    assert!(matches!(side.step(reserved(b"")), WriteAction::SendFlush));
    assert!(matches!(side.step(acknowledged(b"")), WriteAction::Complete));
    assert!(matches!(
        side.step(WriteEvent::Shutdown { stopped: false }),
        WriteAction::Reserve
    ));
    assert!(matches!(side.step(reserved(b"")), WriteAction::SendFinish));
    assert!(matches!(
        side.step(write(b"late")),
        WriteAction::Fail(error) if error.kind == StreamErrorKind::BrokenPipe
            && error.message == "HTTP/3 write side is closed"
    ));
    assert!(matches!(
        side.step(WriteEvent::Shutdown { stopped: false }),
        WriteAction::AwaitAcknowledgment
    ));
    assert!(matches!(side.step(acknowledged(b"")), WriteAction::Complete));
    assert!(matches!(
        side.step(write(b"late")),
        WriteAction::Fail(error) if error.kind == StreamErrorKind::BrokenPipe
    ));
    assert!(matches!(
        side.step(WriteEvent::Flush { stopped: false }),
        WriteAction::Complete
    ));
    assert!(matches!(
        side.step(WriteEvent::Shutdown { stopped: false }),
        WriteAction::Complete
    ));
}

#[test]
fn shutdown_waits_for_a_pending_flush() {
    let mut side = WriteSide::new();
    side.step(WriteEvent::Flush { stopped: false });
    side.step(reserved(b""));
    assert!(matches!(
        side.step(WriteEvent::Shutdown { stopped: false }),
        WriteAction::AwaitAcknowledgment
    ));
    assert!(matches!(side.step(acknowledged(b"")), WriteAction::Reserve));
    assert!(matches!(side.step(reserved(b"")), WriteAction::SendFinish));
    assert!(matches!(side.step(acknowledged(b"")), WriteAction::Complete));
}

#[test]
fn writes_wait_for_a_pending_flush() {
    let mut side = WriteSide::new();
    side.step(WriteEvent::Flush { stopped: false });
    side.step(reserved(b""));
    assert!(matches!(
        side.step(write(b"more")),
        WriteAction::AwaitAcknowledgment
    ));
    assert!(matches!(
        side.step(acknowledged(b"more")),
        WriteAction::Reserve
    ));
    match side.step(reserved(b"more")) {
        WriteAction::SendData(chunk) => assert_eq!(&chunk[..], b"more"),
        _ => panic!("no data was sent"),
    }
}

#[test]
fn stopped_sessions_and_lost_writers_fail_calls() {
    let mut side = WriteSide::new();
    for event in [
        WriteEvent::Write {
            bytes: b"no",
            stopped: true,
        },
        WriteEvent::Flush { stopped: true },
        WriteEvent::Shutdown { stopped: true },
    ] {
        assert!(matches!(side.step(event), WriteAction::Fail(error) if is_reset(&error)));
    }
    side.step(WriteEvent::Flush { stopped: false });
    assert!(matches!(
        side.step(WriteEvent::Reserved { granted: false, bytes: b"" }),
        WriteAction::Fail(error) if is_reset(&error)
    ));
    side.step(WriteEvent::Flush { stopped: false });
    side.step(reserved(b""));
    assert!(matches!(
        side.step(WriteEvent::Acknowledged { received: false, bytes: b"", stopped: false }),
        WriteAction::Fail(error) if is_reset(&error)
    ));
    side.step(WriteEvent::Flush { stopped: false });
    side.step(reserved(b""));
    assert!(matches!(
        side.step(WriteEvent::Write { bytes: b"no", stopped: true }),
        WriteAction::Fail(error) if is_reset(&error)
    ));
}

#[test]
fn the_pump_acknowledges_what_was_sent() {
    let mut pump = Pump::new();
    assert!(pump.must_reset());
    assert!(!pump.step(PumpEvent::Command(PumpCommand::Data)));
    assert_eq!(pump.stage(), PumpStage::Send);
    assert!(!pump.step(PumpEvent::Command(PumpCommand::Flush)));
    assert!(!pump.step(PumpEvent::Done { succeeded: true }));
    assert!(pump.step(PumpEvent::Command(PumpCommand::Flush)));
    assert!(!pump.step(PumpEvent::Command(PumpCommand::Finish)));
    assert_eq!(pump.stage(), PumpStage::Finish);
    assert!(pump.step(PumpEvent::Done { succeeded: true }));
    assert_eq!(pump.stage(), PumpStage::Ended);
    assert!(!pump.must_reset());
    assert!(!pump.step(PumpEvent::Command(PumpCommand::Flush)));
}

#[test]
fn an_unfinished_stream_is_reset() {
    let ends: [&[PumpEvent]; 4] = [
        &[PumpEvent::QueueClosed],
        &[PumpEvent::ConnectionClosed],
        &[
            PumpEvent::Command(PumpCommand::Data),
            PumpEvent::Done { succeeded: false },
        ],
        &[
            PumpEvent::Command(PumpCommand::Finish),
            PumpEvent::Done { succeeded: false },
        ],
    ];
    for events in ends {
        let mut pump = Pump::new();
        for event in events {
            assert!(!pump.step(*event));
        }
        assert_eq!(pump.stage(), PumpStage::Ended);
        assert!(pump.must_reset());
    }
}

#[test]
fn sessions_are_bounded_and_reused() {
    let mut sessions: Sessions<u32, u32> = Sessions::new();
    assert!(!sessions.keep_current(true));
    assert_eq!(sessions.select(&vec![]), Admission::Connect);
    for id in 0..4u32 {
        assert!(sessions.has_room());
        assert!(sessions.register(id, id, false));
        assert_eq!(sessions.current_session(), Some(&id));
    }
    assert!(!sessions.has_room());
    assert!(sessions.keep_current(true));
    assert_eq!(sessions.current_session(), Some(&3));
    assert!(!sessions.keep_current(false));
    assert_eq!(sessions.select(&vec![true; 4]), Admission::LimitReached);
    assert_eq!(sessions.current_session(), None);
    assert_eq!(
        sessions.select(&vec![false, true, false, true]),
        Admission::Connect
    );
    assert_eq!(sessions.references(), &vec![1, 3]);
    assert!(!sessions.register(9, 9, true));
    assert!(sessions.register(9, 9, false));
    assert_eq!(sessions.drain(), vec![1, 3, 9]);
    assert_eq!(sessions.current_session(), None);
    assert!(!sessions.register(10, 10, false));
    assert!(sessions.references().is_empty());
}

#[test]
fn a_stopped_session_hands_over_everything_and_takes_nothing() {
    let mut session: Session<&str, u32> = Session::new("endpoint", 100);
    assert!(session.usable(false, false));
    assert!(!session.usable(true, false));
    assert!(!session.usable(false, true));
    assert_eq!(session.driver_task(), Some(&100));
    assert_eq!(session.register_writer(&vec![], 1), Ok(()));
    assert_eq!(session.register_writer(&vec![true], 2), Ok(()));
    assert_eq!(session.register_writer(&vec![false, true], 3), Ok(()));
    assert_eq!(session.writer_tasks(), &vec![2, 3]);
    session.retire();
    assert!(!session.usable(false, false));
    assert!(!session.is_stopped());
    let (endpoint, tasks) = session.stop();
    assert_eq!(endpoint, Some("endpoint"));
    assert_eq!(tasks, vec![2, 3, 100]);
    assert!(session.is_stopped());
    assert_eq!(session.register_writer(&vec![], 4), Err(4));
    assert!(session.writer_tasks().is_empty());
    assert_eq!(session.driver_task(), None);
    let (endpoint, tasks) = session.stop();
    assert_eq!(endpoint, None);
    assert!(tasks.is_empty());
}

#[test]
fn rejected_buffers_fall_back_to_defaults() {
    let defaults = UdpBuffers {
        receive: None,
        send: None,
    };
    let mut bind = UdpBind::begin(true);
    assert_eq!(
        bind.current(),
        BindStage::Attempt(UdpBuffers {
            receive: Some(4 * 1024 * 1024),
            send: None
        })
    );
    bind.step(false);
    assert_eq!(bind.current(), BindStage::Attempt(defaults));
    bind.step(true);
    assert_eq!(bind.current(), BindStage::Bound);
    let mut bind = UdpBind::begin(false);
    assert_eq!(bind.current(), BindStage::Attempt(defaults));
    bind.step(false);
    assert_eq!(bind.current(), BindStage::Failed);
    let mut bind = UdpBind::with_receive_buffer(i32::MAX as usize);
    bind.step(true);
    assert_eq!(bind.current(), BindStage::Bound);
}

#[test]
fn a_slow_task_sends_everything_in_order_and_holds_little() {
    let payload: Vec<u8> = (0..5 * WRITE_CHUNK / 2).map(|i| (i % 253) as u8).collect();
    let mut side = WriteSide::new();
    let mut pump = Pump::new();
    let mut queue: Vec<Bytes> = Vec::new();
    let mut sending = Bytes::new();
    let mut sent: Vec<u8> = Vec::new();
    let mut written = 0usize;
    while sent.len() < payload.len() {
        let rest = &payload[written..];
        if !rest.is_empty() {
            assert!(matches!(side.step(write(rest)), WriteAction::Reserve));
            if queue.is_empty() {
                match side.step(reserved(rest)) {
                    WriteAction::SendData(chunk) => {
                        written += chunk.len();
                        queue.push(chunk);
                    }
                    _ => panic!("no data was sent"),
                }
            }
        }
        assert!(written - sent.len() <= 2 * WRITE_CHUNK);
        match pump.stage() {
            PumpStage::Receive => {
                sending = queue.pop().unwrap();
                assert!(!pump.step(PumpEvent::Command(PumpCommand::Data)));
            }
            PumpStage::Send => {
                sent.extend_from_slice(&sending);
                assert!(!pump.step(PumpEvent::Done { succeeded: true }));
            }
            _ => panic!("the task ended early"),
        }
    }
    assert_eq!(sent, payload);
    assert!(matches!(
        side.step(WriteEvent::Flush { stopped: false }),
        WriteAction::Reserve
    ));
    assert!(matches!(side.step(reserved(b"")), WriteAction::SendFlush));
    assert!(pump.step(PumpEvent::Command(PumpCommand::Flush)));
    assert!(matches!(side.step(acknowledged(b"")), WriteAction::Complete));
}

#[test]
fn dials_in_turn_share_one_session() {
    let mut sessions: Sessions<u32, u32> = Sessions::new();
    assert!(!sessions.keep_current(true));
    assert_eq!(sessions.select(&vec![]), Admission::Connect);
    assert!(sessions.register(7, 70, false));
    for _ in 0..20 {
        assert!(sessions.keep_current(true));
        assert_eq!(sessions.current_session(), Some(&7));
        assert_eq!(sessions.references(), &vec![70]);
    }
    assert_eq!(sessions.drain(), vec![70]);
}
