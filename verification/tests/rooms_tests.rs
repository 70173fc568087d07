use collab_board::ident::Oid;
use collab_board::rooms::BoardServer;

fn sorted(mut v: Vec<u128>) -> Vec<u128> {
    v.sort();
    v
}

#[test]
fn sessions_join_and_leave_rooms() {
    let b1 = Oid { value: 1 };
    let b2 = Oid { value: 2 };
    let mut server = BoardServer::new();
    assert!(server.members(b1).is_empty());
    server.connect(b1, 10);
    server.connect(b1, 11);
    server.connect(b1, 10);
    server.connect(b2, 12);
    assert_eq!(sorted(server.members(b1)), vec![10, 11]);
    assert_eq!(server.members(b2), vec![12]);
    server.disconnect(b1, 10);
    assert_eq!(server.members(b1), vec![11]);
    server.disconnect(b1, 11);
    assert!(server.members(b1).is_empty());
    server.disconnect(b1, 11);
    server.disconnect(Oid { value: 3 }, 11);
    assert_eq!(server.members(b2), vec![12]);
}

#[test]
fn connect_then_disconnect_restores_rooms() {
    let b = Oid { value: 5 };
    let mut server = BoardServer::new();
    server.connect(b, 1);
    server.connect(b, 2);
    server.disconnect(b, 2);
    assert_eq!(server.members(b), vec![1]);
}

#[test]
fn join_then_leave_of_new_session_restores_members() {
    let b = Oid { value: 8 };
    let mut server = BoardServer::new();
    server.connect(b, 1);
    server.connect(Oid { value: 9 }, 2);
    server.connect(b, 3);
    server.disconnect(b, 3);
    assert_eq!(server.members(b), vec![1]);
    assert_eq!(server.members(Oid { value: 9 }), vec![2]);
}
