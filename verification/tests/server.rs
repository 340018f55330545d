use echo_reactor::master::connection::State;
use echo_reactor::master::event::{Event, Outcome, PollOpt, Ready, Registration, Token};
use echo_reactor::master::server::{Demand, Reaction, Server, DEFAULT_CAPACITY, SERVER_TOKEN};

fn listener() -> Event {
    Event::new(Ready::readable(), Token(SERVER_TOKEN))
}

fn readable(token: usize) -> Event {
    Event::new(Ready::readable(), Token(token))
}

fn writable(token: usize) -> Event {
    Event::new(Ready::writable(), Token(token))
}

fn oneshot(token: usize, interest: Ready) -> Registration {
    Registration { token: Token(token), interest, opts: PollOpt { edge: true, oneshot: true } }
}

fn accept(server: &mut Server) -> Reaction {
    server.handle_event(listener(), Outcome::Accepted)
}

#[test]
fn listener_is_registered_persistently_under_token_zero() {
    let server = Server::new(DEFAULT_CAPACITY);
    assert_eq!(SERVER_TOKEN, 0);
    assert_eq!(DEFAULT_CAPACITY, 1024);
    assert_eq!(
        server.register_into(),
        Registration {
            token: Token(0),
            interest: Ready::readable(),
            opts: PollOpt { edge: true, oneshot: false },
        }
    );
    assert_eq!(server.len(), 0);
}

#[test]
fn accept_registers_a_reading_connection() {
    let mut server = Server::new(8);
    assert_eq!(accept(&mut server), Reaction::Register(oneshot(1, Ready::readable())));
    assert_eq!(server.len(), 1);
    let c = server.connection(Token(1)).unwrap();
    assert_eq!(c.phase(), State::Reading);
    assert_eq!(c.token, Token(1));
    assert_eq!(c.state.read_buf(), b"");
    assert!(server.connection(Token(0)).is_none());
    assert!(server.connection(Token(2)).is_none());
}

#[test]
fn spurious_listener_wake_does_nothing() {
    let mut server = Server::new(8);
    assert_eq!(server.handle_event(listener(), Outcome::WouldBlock), Reaction::Ignore);
    assert_eq!(server.len(), 0);
    assert_eq!(accept(&mut server), Reaction::Register(oneshot(1, Ready::readable())));
}

#[test]
fn failed_listener_shuts_down() {
    let mut server = Server::new(8);
    accept(&mut server);
    assert_eq!(server.handle_event(listener(), Outcome::Failed), Reaction::Shutdown);
    assert_eq!(server.len(), 1);
}

#[test]
fn hello_world_in_one_write_comes_back_as_two_frames() {
    let mut server = Server::new(8);
    accept(&mut server);
    assert!(matches!(server.expects(Token(1)), Demand::Read));
    let r = server.handle_event(readable(1), Outcome::Read(b"hello\nworld\n".to_vec()));
    assert_eq!(r, Reaction::Reregister(oneshot(1, Ready::writable())));
    match server.expects(Token(1)) {
        Demand::Write(bytes) => assert_eq!(bytes, b"hello\n".to_vec()),
        other => panic!("unexpected demand {:?}", other),
    }
    let r = server.handle_event(writable(1), Outcome::Wrote(6));
    assert_eq!(r, Reaction::Reregister(oneshot(1, Ready::writable())));
    match server.expects(Token(1)) {
        Demand::Write(bytes) => assert_eq!(bytes, b"world\n".to_vec()),
        other => panic!("unexpected demand {:?}", other),
    }
    let r = server.handle_event(writable(1), Outcome::Wrote(6));
    assert_eq!(r, Reaction::Reregister(oneshot(1, Ready::readable())));
    assert!(matches!(server.expects(Token(1)), Demand::Read));
    assert_eq!(server.connection(Token(1)).unwrap().state.read_buf(), b"");
}

#[test]
fn client_that_sends_nothing_and_closes_is_removed() {
    let mut server = Server::new(8);
    accept(&mut server);
    let r = server.handle_event(readable(1), Outcome::Read(Vec::new()));
    assert_eq!(r, Reaction::Close(Token(1)));
    assert_eq!(server.len(), 0);
    assert!(server.connection(Token(1)).is_none());
    assert!(matches!(server.expects(Token(1)), Demand::Nothing));
}

#[test]
fn event_for_unknown_identifier_is_dropped() {
    let mut server = Server::new(8);
    accept(&mut server);
    let r = server.handle_event(readable(7), Outcome::Read(b"x\n".to_vec()));
    assert_eq!(r, Reaction::Ignore);
    assert_eq!(server.len(), 1);
    server.handle_event(readable(1), Outcome::Failed);
    let r = server.handle_event(readable(1), Outcome::WouldBlock);
    assert_eq!(r, Reaction::Ignore);
    assert_eq!(server.len(), 0);
}

#[test]
fn identifiers_are_not_reused_while_registered() {
    let mut server = Server::new(8);
    assert_eq!(accept(&mut server), Reaction::Register(oneshot(1, Ready::readable())));
    assert_eq!(accept(&mut server), Reaction::Register(oneshot(2, Ready::readable())));
    assert_eq!(accept(&mut server), Reaction::Register(oneshot(3, Ready::readable())));
    assert_eq!(server.handle_event(readable(2), Outcome::Read(Vec::new())), Reaction::Close(Token(2)));
    assert_eq!(server.len(), 2);
    assert!(server.connection(Token(1)).is_some());
    assert!(server.connection(Token(2)).is_none());
    assert!(server.connection(Token(3)).is_some());
    assert_eq!(server.free, vec![2]);
    let next = accept(&mut server);
    assert_eq!(next, Reaction::Register(oneshot(2, Ready::readable())));
    let next = accept(&mut server);
    assert_eq!(next, Reaction::Register(oneshot(4, Ready::readable())));
    assert_eq!(server.len(), 4);
    assert!(server.connection(Token(2)).is_some());
    assert!(server.connection(Token(4)).is_some());
    assert_eq!(server.token_counter, 4);
    assert!(server.free.is_empty());
}

#[test]
fn freed_identifiers_come_back_last_in_first_out() {
    let mut server = Server::new(8);
    for _ in 0..4 {
        accept(&mut server);
    }
    assert_eq!(server.handle_event(readable(1), Outcome::Failed), Reaction::Close(Token(1)));
    assert_eq!(server.handle_event(readable(3), Outcome::Failed), Reaction::Close(Token(3)));
    assert_eq!(server.free, vec![1, 3]);
    assert_eq!(accept(&mut server), Reaction::Register(oneshot(3, Ready::readable())));
    assert_eq!(accept(&mut server), Reaction::Register(oneshot(1, Ready::readable())));
    assert_eq!(accept(&mut server), Reaction::Register(oneshot(5, Ready::readable())));
    assert_eq!(server.token_counter, 5);
    let reused = server.connection(Token(3)).unwrap();
    assert_eq!(reused.token, Token(3));
    assert_eq!(reused.state.read_buf(), b"");
}

#[test]
fn reused_identifier_starts_with_an_empty_buffer() {
    let mut server = Server::new(8);
    accept(&mut server);
    server.handle_event(readable(1), Outcome::Read(b"left over".to_vec()));
    assert_eq!(server.handle_event(readable(1), Outcome::Read(Vec::new())), Reaction::Close(Token(1)));
    assert_eq!(accept(&mut server), Reaction::Register(oneshot(1, Ready::readable())));
    assert_eq!(server.connection(Token(1)).unwrap().state.read_buf(), b"");
    assert!(matches!(server.expects(Token(1)), Demand::Read));
}

#[test]
fn capacity_boundary_is_exact() {
    let mut server = Server::new(2);
    assert_eq!(accept(&mut server), Reaction::Register(oneshot(1, Ready::readable())));
    assert_eq!(accept(&mut server), Reaction::Register(oneshot(2, Ready::readable())));
    assert_eq!(accept(&mut server), Reaction::Reject);
    assert_eq!(server.len(), 2);
    assert_eq!(server.token_counter, 2);
    assert_eq!(server.handle_event(readable(1), Outcome::Failed), Reaction::Close(Token(1)));
    assert_eq!(server.len(), 1);
    assert_eq!(accept(&mut server), Reaction::Register(oneshot(1, Ready::readable())));
    assert_eq!(accept(&mut server), Reaction::Reject);
    assert_eq!(server.len(), 2);
    assert_eq!(server.token_counter, 2);
}

#[test]
fn default_capacity_admits_exactly_that_many() {
    let mut server = Server::new(DEFAULT_CAPACITY);
    for n in 1..=DEFAULT_CAPACITY {
        assert_eq!(accept(&mut server), Reaction::Register(oneshot(n, Ready::readable())));
    }
    assert_eq!(server.len(), DEFAULT_CAPACITY);
    assert_eq!(accept(&mut server), Reaction::Reject);
    assert_eq!(server.len(), DEFAULT_CAPACITY);
}

#[test]
fn server_without_capacity_rejects_everyone() {
    let mut server = Server::new(0);
    assert_eq!(accept(&mut server), Reaction::Reject);
    assert_eq!(server.len(), 0);
}

#[test]
fn failure_in_the_middle_of_a_write_leaves_the_others_alone() {
    let mut server = Server::new(8);
    accept(&mut server);
    accept(&mut server);
    accept(&mut server);
    server.handle_event(readable(1), Outcome::Read(b"first\n".to_vec()));
    server.handle_event(readable(2), Outcome::Read(b"second\nextra".to_vec()));
    server.handle_event(readable(3), Outcome::Read(b"thi".to_vec()));
    server.handle_event(writable(1), Outcome::Wrote(2));
    server.handle_event(writable(2), Outcome::Wrote(3));
    assert_eq!(server.handle_event(writable(2), Outcome::Failed), Reaction::Close(Token(2)));
    assert_eq!(server.len(), 2);
    assert!(server.connection(Token(2)).is_none());
    assert_eq!(server.connection(Token(1)).unwrap().outgoing(), b"rst\n".to_vec());
    assert_eq!(server.connection(Token(3)).unwrap().state.read_buf(), b"thi");
    let r = server.handle_event(writable(1), Outcome::Wrote(4));
    assert_eq!(r, Reaction::Reregister(oneshot(1, Ready::readable())));
    let r = server.handle_event(readable(3), Outcome::Read(b"rd\n".to_vec()));
    assert_eq!(r, Reaction::Reregister(oneshot(3, Ready::writable())));
    assert_eq!(server.connection(Token(3)).unwrap().outgoing(), b"third\n".to_vec());
    let r = server.handle_event(writable(3), Outcome::Wrote(6));
    assert_eq!(r, Reaction::Reregister(oneshot(3, Ready::readable())));
}

#[test]
fn direct_handlers_agree_with_routing() {
    let mut server = Server::new(8);
    let r = server.handle_server_event(listener(), Outcome::Accepted);
    assert_eq!(r, Reaction::Register(oneshot(1, Ready::readable())));
    let r = server.handle_client_event(readable(1), Outcome::Read(b"a\n".to_vec()));
    assert_eq!(r, Reaction::Reregister(oneshot(1, Ready::writable())));
    let r = server.handle_client_event(writable(1), Outcome::Wrote(2));
    assert_eq!(r, Reaction::Reregister(oneshot(1, Ready::readable())));
    assert_eq!(server.get_next_token(), Token(2));
}

#[test]
fn expects_accept_for_the_listener() {
    let server = Server::new(8);
    assert!(matches!(server.expects(Token(0)), Demand::Accept));
    assert!(matches!(server.expects(Token(1)), Demand::Nothing));
}

#[test]
fn limit_closes_a_connection_that_buffers_too_much() {
    let mut server = Server::new(8);
    accept(&mut server);
    accept(&mut server);
    server.handle_event(readable(1), Outcome::Read(b"12345".to_vec()));
    server.handle_event(readable(2), Outcome::Read(b"123456\nab".to_vec()));
    assert_eq!(server.enforce_limit(Token(1), 5), Reaction::Ignore);
    assert_eq!(server.enforce_limit(Token(2), 4), Reaction::Ignore);
    assert_eq!(server.enforce_limit(Token(9), 0), Reaction::Ignore);
    assert_eq!(server.len(), 2);
    assert_eq!(server.enforce_limit(Token(1), 4), Reaction::Close(Token(1)));
    assert_eq!(server.free, vec![1]);
    assert_eq!(server.len(), 1);
    assert!(server.connection(Token(1)).is_none());
    assert!(server.connection(Token(2)).is_some());
}
