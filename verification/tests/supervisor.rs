use roster::supervisor::{
    ConnectionChange, MetadataConnection, MetadataConnectionKind, Supervisor,
};

fn accept(supervisor: &mut Supervisor, fd: i32) -> MetadataConnection {
    supervisor.assign_new_connection(
        format!("127.0.0.1:{}", 50000 + fd),
        "127.0.0.1:6379".to_string(),
        fd,
    )
}

#[test]
fn connection_ids_grow() {
    let mut supervisor = Supervisor::new(0);
    let first = accept(&mut supervisor, 3);
    let second = accept(&mut supervisor, 4);
    let third = accept(&mut supervisor, 5);
    assert_eq!(first.id(), 0);
    assert_eq!(second.id(), 1);
    assert_eq!(third.id(), 2);
    assert!(first.id() < second.id() && second.id() < third.id());
}

#[test]
fn ids_start_where_the_supervisor_was_told() {
    let mut supervisor = Supervisor::new(41);
    assert_eq!(accept(&mut supervisor, 3).id(), 41);
    assert_eq!(accept(&mut supervisor, 3).id(), 42);
}

#[test]
fn ids_start_again_after_the_last() {
    let mut supervisor = Supervisor::new(u64::MAX);
    assert_eq!(accept(&mut supervisor, 3).id(), u64::MAX);
    assert_eq!(accept(&mut supervisor, 4).id(), 0);
}

#[test]
fn an_accepted_connection_is_registered_as_it_was_accepted() {
    let mut supervisor = Supervisor::new(7);
    let accepted = accept(&mut supervisor, 9);
    assert_eq!(accepted.id, 7);
    assert_eq!(accepted.kind, MetadataConnectionKind::Normal);
    assert_eq!(accepted.name(), None);
    assert!(!accepted.stopped);
    assert_eq!(accepted.addr, "127.0.0.1:50009");
    assert_eq!(accepted.laddr, "127.0.0.1:6379");
    assert_eq!(accepted.fd, 9);
    let found = supervisor.connection(7).unwrap();
    assert_eq!(found.format_conn(), accepted.format_conn());
    assert!(supervisor.connection(8).is_none());
}

#[test]
fn format_conn_spells_every_field() {
    let mut connection =
        MetadataConnection::new(12, "10.0.0.1:5000".to_string(), "10.0.0.2:6379".to_string(), 7);
    assert_eq!(
        connection.format_conn(),
        "id=12 addr=10.0.0.1:5000 laddr=10.0.0.2:6379 fd=7 name="
    );
    connection.set_name("newname".to_string());
    assert_eq!(
        connection.format_conn(),
        "id=12 addr=10.0.0.1:5000 laddr=10.0.0.2:6379 fd=7 name=newname"
    );
    let odd = MetadataConnection::new(u64::MAX, String::new(), String::new(), -1);
    assert_eq!(odd.format_conn(), "id=18446744073709551615 addr= laddr= fd=-1 name=");
    let lowest = MetadataConnection::new(0, String::new(), String::new(), i32::MIN);
    assert_eq!(lowest.format_conn(), "id=0 addr= laddr= fd=-2147483648 name=");
}

#[test]
fn names_and_stops_change_the_registered_record() {
    let mut supervisor = Supervisor::new(0);
    let accepted = accept(&mut supervisor, 3);
    assert!(supervisor.change_connection(accepted.id(), ConnectionChange::Rename("a".to_string())));
    assert_eq!(supervisor.connection(0).unwrap().name(), Some("a".to_string()));
    assert!(supervisor.change_connection(accepted.id(), ConnectionChange::Rename("b".to_string())));
    assert_eq!(supervisor.connection(0).unwrap().name(), Some("b".to_string()));
    assert!(supervisor.change_connection(accepted.id(), ConnectionChange::Stop));
    let record = supervisor.connection(0).unwrap();
    assert!(record.stopped);
    assert_eq!(record.name(), Some("b".to_string()));
    // A connection that is not registered cannot be changed.
    assert!(!supervisor.change_connection(5, ConnectionChange::Stop));
    assert!(supervisor.connection(5).is_none());
}

#[test]
fn records_change_by_their_own_methods() {
    let mut record = MetadataConnection::new(1, "a".to_string(), "b".to_string(), 2);
    assert!(record.is_normal());
    record.apply(ConnectionChange::Rename("x".to_string()));
    assert_eq!(record.name(), Some("x".to_string()));
    record.apply(ConnectionChange::Stop);
    assert!(record.stopped);
    let mut other = MetadataConnection::new(1, "a".to_string(), "b".to_string(), 2);
    other.stop();
    assert!(other.stopped);
    let copy = record.clone_record();
    assert_eq!(copy.format_conn(), record.format_conn());
    assert!(copy.stopped);
    record.kind = MetadataConnectionKind::Pubsub;
    assert!(!record.is_normal());
}

#[test]
fn only_open_normal_connections_are_listed() {
    let mut supervisor = Supervisor::new(0);
    assert!(supervisor.get_normal_connection().is_empty());
    for fd in 0..5 {
        accept(&mut supervisor, fd);
    }
    assert!(supervisor.change_connection(1, ConnectionChange::Stop));
    assert!(supervisor.change_connection(3, ConnectionChange::Stop));
    let mut ids: Vec<u64> =
        supervisor.get_normal_connection().iter().map(|record| record.id()).collect();
    ids.sort();
    assert_eq!(ids, vec![0, 2, 4]);
}

#[test]
fn an_id_that_is_still_registered_keeps_its_record() {
    let mut supervisor = Supervisor::new(u64::MAX);
    accept(&mut supervisor, 1);
    let second = accept(&mut supervisor, 2);
    assert_eq!(second.id(), 0);
    // Going round once more is not possible in a test; a supervisor that
    // starts again at the same id shows the rule.
    assert!(supervisor.connection(u64::MAX).is_some());
    assert_eq!(supervisor.connection(u64::MAX).unwrap().fd, 1);
    assert_eq!(supervisor.connection(0).unwrap().fd, 2);
}

#[test]
fn sweep_takes_out_the_stopped_connections() {
    let mut supervisor = Supervisor::new(0);
    for fd in 0..6 {
        accept(&mut supervisor, fd);
    }
    supervisor.sweep();
    assert_eq!(supervisor.get_normal_connection().len(), 6);
    assert!(supervisor.change_connection(0, ConnectionChange::Stop));
    assert!(supervisor.change_connection(4, ConnectionChange::Stop));
    assert!(supervisor.change_connection(2, ConnectionChange::Rename("kept".to_string())));
    assert!(supervisor.connection(0).is_some());
    supervisor.sweep();
    assert!(supervisor.connection(0).is_none());
    assert!(supervisor.connection(4).is_none());
    for id in [1u64, 2, 3, 5] {
        assert_eq!(supervisor.connection(id).unwrap().id(), id);
    }
    assert_eq!(supervisor.connection(2).unwrap().name(), Some("kept".to_string()));
    supervisor.sweep();
    assert_eq!(supervisor.get_normal_connection().len(), 4);
    // Sweeping does not give ids back.
    assert_eq!(accept(&mut supervisor, 9).id(), 6);
}

#[test]
fn a_connection_is_found_by_its_socket() {
    let mut supervisor = Supervisor::new(0);
    accept(&mut supervisor, 7);
    accept(&mut supervisor, 8);
    assert_eq!(supervisor.connection_of_socket(8).unwrap().id(), 1);
    assert!(supervisor.connection_of_socket(9).is_none());
    assert!(supervisor.change_connection(1, ConnectionChange::Stop));
    assert!(supervisor.connection_of_socket(8).is_none());
    // The socket number is given to a new connection.
    accept(&mut supervisor, 8);
    assert_eq!(supervisor.connection_of_socket(8).unwrap().id(), 2);
    let copy = supervisor.connection(2).unwrap().clone();
    assert_eq!(copy.fd, 8);
}
