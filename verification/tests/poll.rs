use std::io::ErrorKind;
use std::time::Duration;

use mio::{Events, Poll};
use zmq_readiness::error::AdapterError;
use zmq_readiness::interest::InterestSet;
use zmq_readiness::poll::PollRegistrar;
use zmq_readiness::source::{attempt, Operation, ZmqSocket};

fn pair_socket(context: &zmq::Context) -> ZmqSocket {
    ZmqSocket(context.socket(zmq::PAIR).unwrap())
}

fn wait(poll: &mut Poll, events: &mut Events, millis: u64) {
    loop {
        match poll.poll(events, Some(Duration::from_millis(millis))) {
            Ok(()) => return,
            Err(e) if e.kind() == ErrorKind::Interrupted => {}
            Err(e) => panic!("poll failed: {}", e),
        }
    }
}

#[test]
fn poll_accepts_register_reregister_deregister() {
    let context = zmq::Context::new();
    let mut socket = pair_socket(&context);
    let poll = Poll::new().unwrap();

    assert!(socket.register(&mut PollRegistrar(poll.registry()), 1, InterestSet::Readable).is_ok());
    assert!(socket.reregister(&mut PollRegistrar(poll.registry()), 1, InterestSet::Both).is_ok());
    assert!(socket.deregister(&mut PollRegistrar(poll.registry())).is_ok());
}

#[test]
fn poll_refuses_a_second_register() {
    let context = zmq::Context::new();
    let mut socket = pair_socket(&context);
    let poll = Poll::new().unwrap();

    assert!(socket.register(&mut PollRegistrar(poll.registry()), 1, InterestSet::Readable).is_ok());
    match socket.register(&mut PollRegistrar(poll.registry()), 1, InterestSet::Readable) {
        Err(AdapterError::RegistrationFailed(e)) => assert_eq!(e.kind(), ErrorKind::AlreadyExists),
        other => panic!("expected a refusal, got {:?}", other),
    }
    assert!(socket.deregister(&mut PollRegistrar(poll.registry())).is_ok());
}

#[test]
fn poll_refuses_reregister_without_register() {
    let context = zmq::Context::new();
    let mut socket = pair_socket(&context);
    let poll = Poll::new().unwrap();

    match socket.reregister(&mut PollRegistrar(poll.registry()), 1, InterestSet::Readable) {
        Err(AdapterError::RegistrationFailed(e)) => assert_eq!(e.kind(), ErrorKind::NotFound),
        other => panic!("expected a refusal, got {:?}", other),
    }
}

#[test]
fn poll_refuses_deregister_without_register() {
    let context = zmq::Context::new();
    let mut socket = pair_socket(&context);
    let poll = Poll::new().unwrap();

    match socket.deregister(&mut PollRegistrar(poll.registry())) {
        Err(AdapterError::RegistrationFailed(e)) => assert_eq!(e.kind(), ErrorKind::NotFound),
        other => panic!("expected a refusal, got {:?}", other),
    }
    assert!(socket.register(&mut PollRegistrar(poll.registry()), 1, InterestSet::Readable).is_ok());
    assert!(socket.deregister(&mut PollRegistrar(poll.registry())).is_ok());
    match socket.deregister(&mut PollRegistrar(poll.registry())) {
        Err(AdapterError::RegistrationFailed(e)) => assert_eq!(e.kind(), ErrorKind::NotFound),
        other => panic!("expected a refusal, got {:?}", other),
    }
}

#[test]
fn poll_refuses_a_descriptor_that_is_not_open() {
    let poll = Poll::new().unwrap();
    let result = attempt(
        Ok(-1),
        &mut PollRegistrar(poll.registry()),
        Operation::Register { token: 1, interests: InterestSet::Readable },
    );
    assert!(matches!(result, Err(AdapterError::RegistrationFailed(_))));
}

#[test]
fn poll_is_left_alone_without_a_descriptor() {
    let context = zmq::Context::new();
    let mut socket = pair_socket(&context);
    let poll = Poll::new().unwrap();
    assert!(socket.register(&mut PollRegistrar(poll.registry()), 1, InterestSet::Readable).is_ok());

    let result = attempt(Err(zmq::Error::ETERM), &mut PollRegistrar(poll.registry()), Operation::Deregister);
    assert!(matches!(result, Err(AdapterError::DescriptorUnavailable(zmq::Error::ETERM))));

    assert!(socket.deregister(&mut PollRegistrar(poll.registry())).is_ok());
}

#[test]
fn poll_reports_writable_under_the_token() {
    let context = zmq::Context::new();
    let mut socket = pair_socket(&context);
    let mut poll = Poll::new().unwrap();
    let mut events = Events::with_capacity(8);

    assert!(socket.register(&mut PollRegistrar(poll.registry()), 7, InterestSet::Writable).is_ok());
    wait(&mut poll, &mut events, 2000);

    let seen: Vec<(usize, bool, bool)> =
        events.iter().map(|e| (e.token().0, e.is_readable(), e.is_writable())).collect();
    assert_eq!(seen, vec![(7, false, true)]);
    assert!(socket.deregister(&mut PollRegistrar(poll.registry())).is_ok());
}

#[test]
fn poll_reports_readable_under_the_token() {
    let context = zmq::Context::new();
    let mut receiver = pair_socket(&context);
    let sender = context.socket(zmq::PAIR).unwrap();
    receiver.0.bind("inproc://readable-under-the-token").unwrap();
    sender.connect("inproc://readable-under-the-token").unwrap();
    let mut poll = Poll::new().unwrap();
    let mut events = Events::with_capacity(8);

    assert!(receiver.register(&mut PollRegistrar(poll.registry()), 3, InterestSet::Readable).is_ok());
    sender.send("ping", 0).unwrap();
    wait(&mut poll, &mut events, 2000);

    let seen: Vec<(usize, bool, bool)> =
        events.iter().map(|e| (e.token().0, e.is_readable(), e.is_writable())).collect();
    assert_eq!(seen, vec![(3, true, false)]);
    assert_eq!(receiver.0.recv_bytes(0).unwrap(), b"ping".to_vec());
    assert!(receiver.deregister(&mut PollRegistrar(poll.registry())).is_ok());
}

#[test]
fn poll_reports_both_directions_when_both_are_watched() {
    let context = zmq::Context::new();
    let mut receiver = pair_socket(&context);
    let sender = context.socket(zmq::PAIR).unwrap();
    receiver.0.bind("inproc://both-directions").unwrap();
    sender.connect("inproc://both-directions").unwrap();
    sender.send("ping", 0).unwrap();
    let mut poll = Poll::new().unwrap();
    let mut events = Events::with_capacity(8);

    assert!(receiver.register(&mut PollRegistrar(poll.registry()), 5, InterestSet::Both).is_ok());
    wait(&mut poll, &mut events, 2000);

    let seen: Vec<(usize, bool, bool)> =
        events.iter().map(|e| (e.token().0, e.is_readable(), e.is_writable())).collect();
    assert_eq!(seen, vec![(5, true, true)]);
    assert!(receiver.deregister(&mut PollRegistrar(poll.registry())).is_ok());
}

#[test]
fn poll_reports_under_the_new_token_after_reregister() {
    let context = zmq::Context::new();
    let mut socket = pair_socket(&context);
    let mut poll = Poll::new().unwrap();
    let mut events = Events::with_capacity(8);

    assert!(socket.register(&mut PollRegistrar(poll.registry()), 1, InterestSet::Writable).is_ok());
    assert!(socket.reregister(&mut PollRegistrar(poll.registry()), 2, InterestSet::Writable).is_ok());
    wait(&mut poll, &mut events, 2000);

    let tokens: Vec<usize> = events.iter().map(|e| e.token().0).collect();
    assert_eq!(tokens, vec![2]);
    assert!(socket.deregister(&mut PollRegistrar(poll.registry())).is_ok());
}

#[test]
fn poll_reports_nothing_after_deregister() {
    let context = zmq::Context::new();
    let mut socket = pair_socket(&context);
    let mut poll = Poll::new().unwrap();
    let mut events = Events::with_capacity(8);

    assert!(socket.register(&mut PollRegistrar(poll.registry()), 1, InterestSet::Writable).is_ok());
    assert!(socket.deregister(&mut PollRegistrar(poll.registry())).is_ok());
    wait(&mut poll, &mut events, 100);

    assert!(events.is_empty());
}

#[test]
fn the_descriptor_stays_open_across_the_three_operations() {
    let context = zmq::Context::new();
    let mut receiver = pair_socket(&context);
    let sender = context.socket(zmq::PAIR).unwrap();
    receiver.0.bind("inproc://stays-open").unwrap();
    sender.connect("inproc://stays-open").unwrap();
    let poll = Poll::new().unwrap();
    let descriptor = receiver.0.get_fd().unwrap();

    assert!(receiver.register(&mut PollRegistrar(poll.registry()), 1, InterestSet::Readable).is_ok());
    sender.send("one", 0).unwrap();
    assert_eq!(receiver.0.recv_bytes(0).unwrap(), b"one".to_vec());
    assert!(receiver.reregister(&mut PollRegistrar(poll.registry()), 1, InterestSet::Both).is_ok());
    sender.send("two", 0).unwrap();
    assert_eq!(receiver.0.recv_bytes(0).unwrap(), b"two".to_vec());
    assert!(receiver.deregister(&mut PollRegistrar(poll.registry())).is_ok());

    assert_eq!(receiver.0.get_fd().unwrap(), descriptor);
    sender.send("three", 0).unwrap();
    assert_eq!(receiver.0.recv_bytes(0).unwrap(), b"three".to_vec());
    assert!(receiver.register(&mut PollRegistrar(poll.registry()), 1, InterestSet::Readable).is_ok());
    assert!(receiver.deregister(&mut PollRegistrar(poll.registry())).is_ok());
}
