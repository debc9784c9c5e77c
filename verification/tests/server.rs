use mioecho::connection::Action;
use mioecho::connection::ReadOutcome;
use mioecho::connection::WriteOutcome;
use mioecho::interest::Interest;
use mioecho::server::Server;
use mioecho::server::Transition;
use mioecho::server::CONNS_MAX;
use mioecho::server::CONN_BUFF_SIZE;
use mioecho::server::CONN_TOKEN_START;
use mioecho::server::SERVER;

fn set(readable: bool, writable: bool, hup: bool) -> Interest {
    Interest { readable, writable, hup }
}

#[test]
fn stock_configuration() {
    assert_eq!(SERVER, 0);
    assert_eq!(CONN_TOKEN_START, 1);
    assert_eq!(CONN_BUFF_SIZE, 16 * 1024);
    assert_eq!(CONNS_MAX, 256);
}

#[test]
fn accept_hands_out_tokens_from_the_first_slot() {
    let mut server = Server::new(4, 16);
    assert!(!server.contains(1));
    let (first, interest) = server.accept().unwrap();
    assert_eq!(first, CONN_TOKEN_START);
    assert_eq!(interest, set(true, false, true));
    let (second, _) = server.accept().unwrap();
    assert_ne!(second, first);
    assert!(server.contains(first));
    assert!(server.contains(second));
    assert_eq!(server.conn(first).token(), Some(first));
    assert_eq!(server.conn(second).token(), Some(second));
    assert_eq!(server.conn(first).interest(), set(true, false, true));
    assert_eq!(server.conn(first).buffered(), 0);
    assert_eq!(server.conn(first).read_budget(), 16);
    assert!(!server.conn(first).peer_half_closed());
}

#[test]
fn full_table_refuses_without_touching_the_others() {
    let mut server = Server::new(CONNS_MAX, 64);
    let mut tokens = Vec::new();
    for _ in 0..CONNS_MAX {
        let (token, _) = server.accept().unwrap();
        assert!(!tokens.contains(&token));
        assert!(token >= CONN_TOKEN_START && token < CONN_TOKEN_START + CONNS_MAX);
        tokens.push(token);
    }
    let busy = tokens[17];
    server.conn_readable(busy, 64, ReadOutcome::Data(b"kept".to_vec()));
    assert_eq!(server.accept(), None);
    assert_eq!(server.accept(), None);
    for token in &tokens {
        assert!(server.contains(*token));
        assert_eq!(server.conn(*token).token(), Some(*token));
    }
    assert_eq!(server.conn(busy).write_span(), b"kept");
    assert_eq!(server.conn(busy).interest(), set(true, true, true));
    assert_eq!(server.conn(tokens[18]).buffered(), 0);
}

#[test]
fn table_without_slots_refuses_everything() {
    let mut server = Server::new(0, 16);
    assert_eq!(server.accept(), None);
    assert!(!server.contains(CONN_TOKEN_START));
}

#[test]
fn slot_of_a_finished_connection_is_free_again() {
    let mut server = Server::new(2, 16);
    let (a, _) = server.accept().unwrap();
    let (b, _) = server.accept().unwrap();
    assert_eq!(server.accept(), None);
    assert_eq!(server.conn_hup(a), Action::Reregister(set(false, false, true)));
    assert!(server.contains(a));
    assert_eq!(server.conn_hup(a), Action::Deregister);
    assert!(!server.contains(a));
    assert!(server.contains(b));
    let (c, interest) = server.accept().unwrap();
    assert_eq!(c, a);
    assert_eq!(interest, set(true, false, true));
    assert!(!server.conn(c).peer_half_closed());
    assert_eq!(server.accept(), None);
}

#[test]
fn contains_rejects_tokens_outside_the_table() {
    let mut server = Server::new(2, 16);
    server.accept();
    assert!(!server.contains(SERVER));
    assert!(server.contains(1));
    assert!(!server.contains(2));
    assert!(!server.contains(3));
    assert!(!server.contains(usize::MAX));
}

#[test]
fn ready_on_the_listener_accepts() {
    let server = Server::new(2, 16);
    assert_eq!(server.ready(SERVER, set(true, false, false)), vec![Transition::Accept]);
    assert_eq!(server.ready(SERVER, set(false, false, false)), vec![Transition::Accept]);
}

#[test]
fn ready_orders_hangup_before_readable_before_writable() {
    let mut server = Server::new(2, 16);
    let (token, _) = server.accept().unwrap();
    assert_eq!(
        server.ready(token, set(true, true, true)),
        vec![Transition::Hup, Transition::Readable, Transition::Writable]
    );
    assert_eq!(server.ready(token, set(true, false, true)), vec![Transition::Hup, Transition::Readable]);
    assert_eq!(server.ready(token, set(true, true, false)), vec![Transition::Readable, Transition::Writable]);
    assert_eq!(server.ready(token, set(false, true, false)), vec![Transition::Writable]);
    assert_eq!(server.ready(token, set(false, false, true)), vec![Transition::Hup]);
    assert_eq!(server.ready(token, set(false, false, false)), Vec::<Transition>::new());
}

#[test]
fn ready_ignores_tokens_without_a_connection() {
    let mut server = Server::new(2, 16);
    assert_eq!(server.ready(1, set(true, true, true)), Vec::<Transition>::new());
    let (token, _) = server.accept().unwrap();
    server.conn_hup(token);
    server.conn_hup(token);
    assert_eq!(server.ready(token, set(true, true, true)), Vec::<Transition>::new());
    assert_eq!(server.ready(77, set(true, true, true)), Vec::<Transition>::new());
}

#[test]
fn echo_through_the_server() {
    let mut server = Server::new(2, 8);
    let (token, _) = server.accept().unwrap();
    let (other, _) = server.accept().unwrap();
    let asked = server.conn(token).read_budget();
    assert_eq!(asked, 8);
    assert_eq!(
        server.conn_readable(token, asked, ReadOutcome::Data(b"ping".to_vec())),
        Action::Reregister(set(true, true, true))
    );
    assert_eq!(server.conn(token).write_span(), b"ping");
    assert_eq!(server.conn(other).buffered(), 0);
    assert_eq!(
        server.conn_writable(token, WriteOutcome::Wrote(4)),
        Action::Reregister(set(true, false, true))
    );
    assert!(server.contains(token));
    assert_eq!(server.conn(token).buffered(), 0);
    assert_eq!(server.conn(token).token(), Some(token));
}

#[test]
fn drains_go_on_through_the_server() {
    let mut server = Server::new(1, 8);
    let (token, _) = server.accept().unwrap();
    assert_eq!(server.conn_readable(token, 6, ReadOutcome::Data(b"abcdef".to_vec())), Action::Continue);
    assert_eq!(
        server.conn_readable(token, 2, ReadOutcome::WouldBlock),
        Action::Reregister(set(true, true, true))
    );
    server.conn_writable(token, WriteOutcome::Wrote(6));
    server.conn_readable(token, 8, ReadOutcome::Data(b"ghijk".to_vec()));
    assert_eq!(server.conn(token).write_span(), b"gh");
    assert_eq!(server.conn_writable(token, WriteOutcome::Wrote(2)), Action::Continue);
    assert_eq!(server.conn(token).write_span(), b"ijk");
    assert_eq!(
        server.conn_writable(token, WriteOutcome::Wrote(3)),
        Action::Reregister(set(true, false, true))
    );
}

#[test]
fn failed_write_ends_one_connection_and_spares_the_rest() {
    let mut server = Server::new(3, 16);
    let (a, _) = server.accept().unwrap();
    let (b, _) = server.accept().unwrap();
    server.conn_readable(a, 16, ReadOutcome::Data(b"lost".to_vec()));
    server.conn_readable(b, 16, ReadOutcome::Data(b"kept".to_vec()));
    assert_eq!(server.conn_writable(a, WriteOutcome::Failed), Action::Reregister(set(false, false, true)));
    assert!(server.contains(a));
    assert_eq!(server.conn(a).buffered(), 0);
    assert!(server.conn(a).peer_half_closed());
    assert_eq!(server.conn_hup(a), Action::Deregister);
    assert!(!server.contains(a));
    assert!(server.contains(b));
    assert_eq!(server.conn(b).write_span(), b"kept");
    assert!(!server.conn(b).peer_half_closed());
}

#[test]
fn half_close_in_one_batch_with_the_data() {
    let mut server = Server::new(1, 16);
    let (token, _) = server.accept().unwrap();
    let plan = server.ready(token, set(true, false, true));
    assert_eq!(plan, vec![Transition::Hup, Transition::Readable]);
    assert_eq!(server.conn_hup(token), Action::Reregister(set(false, false, true)));
    assert!(server.contains(token));
    assert_eq!(
        server.conn_readable(token, 16, ReadOutcome::Data(b"abc".to_vec())),
        Action::Reregister(set(false, true, true))
    );
    assert_eq!(server.ready(token, set(false, true, false)), vec![Transition::Writable]);
    assert_eq!(server.conn(token).write_span(), b"abc");
    assert_eq!(
        server.conn_writable(token, WriteOutcome::Wrote(3)),
        Action::Reregister(set(false, false, true))
    );
    assert!(server.contains(token));
    assert_eq!(server.conn_hup(token), Action::Deregister);
    assert!(!server.contains(token));
}
