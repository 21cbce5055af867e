use akari_server::api::{Command, Operation, Request};
use akari_server::commands::start;
use akari_server::daemon::{
    socket_action, SocketAction, COMMAND_QUEUE_CAPACITY, MAX_PENDING_CONNECTIONS,
    REPLY_QUEUE_CAPACITY,
};
use akari_server::dispatch::{react, Event, Step};

#[test]
fn received_bytes_become_a_reply() {
    assert_eq!(
        react(Event::BackendDone(Command::VsockRecv(1234), vec![1, 2, 3])),
        Step::Reply(1234, vec![1, 2, 3])
    );
    assert_eq!(
        react(Event::BackendDone(Command::VsockRecv(0), Vec::new())),
        Step::Reply(0, Vec::new())
    );
}

#[test]
fn other_commands_have_no_reply() {
    let commands = vec![
        Command::Start,
        Command::Kill,
        Command::Connect(1234),
        Command::Disconnect(1234),
        Command::VsockSend(1234, b"start".to_vec()),
    ];
    for command in commands {
        assert_eq!(react(Event::BackendDone(command, vec![7])), Step::Next);
    }
    assert_eq!(react(Event::ReplySent), Step::Next);
}

#[test]
fn each_command_gets_its_backend_call() {
    let commands = vec![
        Command::Start,
        Command::Kill,
        Command::Connect(1234),
        Command::Disconnect(1234),
        Command::VsockSend(1234, b"start".to_vec()),
        Command::VsockRecv(1235),
    ];
    for command in commands {
        assert_eq!(react(Event::Command(command.clone())), Step::Call(command));
    }
}

#[test]
fn loop_runs_until_a_failure() {
    // The queue holds a send and a receive; then the backend fails.
    let mut log = Vec::new();
    let mut queue = vec![
        Command::VsockSend(1234, b"state".to_vec()),
        Command::VsockRecv(1234),
        Command::Kill,
    ]
    .into_iter();
    let mut step = Step::Next;
    loop {
        let event = match step {
            Step::Next => match queue.next() {
                Some(command) => Event::Command(command),
                None => Event::CommandQueueClosed,
            },
            Step::Call(Command::Kill) => Event::BackendFailed,
            Step::Call(command) => {
                log.push(format!("call {:?}", command));
                Event::BackendDone(command, b"ok".to_vec())
            }
            Step::Reply(port, data) => {
                log.push(format!("reply {} {:?}", port, data));
                Event::ReplySent
            }
            Step::Stop => break,
        };
        step = react(event);
    }
    assert_eq!(
        log,
        vec![
            "call VsockSend(1234, [115, 116, 97, 116, 101])".to_string(),
            "call VsockRecv(1234)".to_string(),
            "reply 1234 [111, 107]".to_string(),
        ]
    );
    assert!(queue.next().is_none());
}

#[test]
fn failures_end_the_loop() {
    assert_eq!(react(Event::CommandQueueClosed), Step::Stop);
    assert_eq!(react(Event::BackendFailed), Step::Stop);
    assert_eq!(react(Event::ReplyQueueClosed), Step::Stop);
}

#[test]
fn stale_socket_is_removed() {
    assert_eq!(socket_action(Some(false), false), SocketAction::Listen);
    assert_eq!(socket_action(Some(false), true), SocketAction::Listen);
    assert_eq!(socket_action(Some(true), true), SocketAction::RemoveStale);
    assert_eq!(socket_action(Some(true), false), SocketAction::Refuse);
    assert_eq!(socket_action(None, false), SocketAction::Refuse);
    assert_eq!(socket_action(None, true), SocketAction::Refuse);
}

#[test]
fn queue_sizes() {
    assert_eq!(COMMAND_QUEUE_CAPACITY, 8);
    assert_eq!(REPLY_QUEUE_CAPACITY, 8);
    assert_eq!(MAX_PENDING_CONNECTIONS, 10);
}

#[test]
fn start_request() {
    assert_eq!(
        start("c1".to_string()),
        Request {
            container_id: "c1".to_string(),
            operation: Operation::Start,
            bundle: None,
        }
    );
}
