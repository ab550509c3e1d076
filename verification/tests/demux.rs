use tcp_tunnel::client::{client_demux_step, ClientAction};
use tcp_tunnel::conn::{ConnTable, IdGen};
use tcp_tunnel::frame::{close_payload, data_payload, ping_payload};
use tcp_tunnel::pump::child_read_step;
use tcp_tunnel::server::{server_demux_step, ServerAction};

#[test]
fn server_forwards_to_known_child() {
    let mut table = ConnTable::new();
    table.insert(10);
    let a = server_demux_step(&mut table, &data_payload(10, b"hello"));
    assert_eq!(a, ServerAction::Forward { id: 10 });
    assert!(table.contains(10));
}

#[test]
fn server_drops_data_for_unknown_child() {
    let mut table = ConnTable::new();
    let a = server_demux_step(&mut table, &data_payload(99, b"hello"));
    assert_eq!(a, ServerAction::Drop);
}

#[test]
fn server_close_removes_child() {
    let mut table = ConnTable::new();
    table.insert(10);
    let a = server_demux_step(&mut table, &close_payload(10));
    assert_eq!(a, ServerAction::Close { target: 10, was_present: true });
    assert!(!table.contains(10));
}

#[test]
fn server_close_twice_is_close_once() {
    let mut table = ConnTable::new();
    table.insert(10);
    table.insert(11);
    let first = server_demux_step(&mut table, &close_payload(10));
    let second = server_demux_step(&mut table, &close_payload(10));
    assert_eq!(first, ServerAction::Close { target: 10, was_present: true });
    // The second close finds nothing, changes nothing, and is no error.
    assert_eq!(second, ServerAction::Close { target: 10, was_present: false });
    assert!(!table.contains(10));
    assert!(table.contains(11));
}

#[test]
fn server_never_creates_children_from_frames() {
    let mut table = ConnTable::new();
    let _ = server_demux_step(&mut table, &data_payload(10, b"x"));
    let _ = server_demux_step(&mut table, &ping_payload());
    assert!(!table.contains(10));
}

#[test]
fn server_drops_ping() {
    let mut table = ConnTable::new();
    let a = server_demux_step(&mut table, &ping_payload());
    assert_eq!(a, ServerAction::Drop);
}

#[test]
fn server_rejects_short_payload() {
    let mut table = ConnTable::new();
    let a = server_demux_step(&mut table, &[0, 0]);
    assert_eq!(a, ServerAction::Malformed);
}

#[test]
fn client_first_frame_triggers_dial_once() {
    let mut table = ConnTable::new();
    let first = client_demux_step(&mut table, &data_payload(10, b"hi"));
    assert_eq!(first, ClientAction::Dial { id: 10 });
    assert!(table.contains(10));
    // The id entered the table with the dial, so the next frame for it
    // forwards instead of dialling a second time.
    let second = client_demux_step(&mut table, &data_payload(10, b"again"));
    assert_eq!(second, ClientAction::Forward { id: 10 });
}

#[test]
fn client_close_removes_child() {
    let mut table = ConnTable::new();
    let _ = client_demux_step(&mut table, &data_payload(10, b"hi"));
    let a = client_demux_step(&mut table, &close_payload(10));
    assert_eq!(a, ClientAction::Close { target: 10, was_present: true });
    assert!(!table.contains(10));
}

#[test]
fn client_close_unknown_id_is_dropped() {
    let mut table = ConnTable::new();
    let a = client_demux_step(&mut table, &close_payload(77));
    assert_eq!(a, ClientAction::Close { target: 77, was_present: false });
}

#[test]
fn client_consumes_ping_silently() {
    let mut table = ConnTable::new();
    let a = client_demux_step(&mut table, &ping_payload());
    assert_eq!(a, ClientAction::Ping);
    assert!(!table.contains(0));
}

#[test]
fn child_eof_sends_exactly_one_close_and_stops() {
    let step = child_read_step(10, &[]);
    assert_eq!(step.payload, close_payload(10));
    assert!(step.stop);
}

#[test]
fn child_read_forwards_tagged_data() {
    let step = child_read_step(11, b"abc");
    assert_eq!(step.payload, data_payload(11, b"abc"));
    assert!(!step.stop);
}

#[test]
fn ids_increase_from_connection_id_start() {
    let mut idgen = IdGen::new();
    let a = idgen.next_id();
    let b = idgen.next_id();
    let c = idgen.next_id();
    assert_eq!((a, b, c), (10, 11, 12));
    assert!(a >= tcp_tunnel::CONNECTION_ID_START);
    assert!(a < b && b < c);
}
