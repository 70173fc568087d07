use collab_board::error::DbFailure;
use collab_board::ident::Oid;
use collab_board::records::{Board, SharedWith};
use collab_board::session::{message_action, BoardSession, SessionAction, WsMessage};

fn board(owner: u128, shared: Vec<SharedWith>) -> Board {
    Board {
        id: Oid { value: 100 },
        owner_id: Oid { value: owner },
        title: "t".to_string(),
        description: None,
        canvas_operations: Vec::new(),
        shared_with: shared,
        created_at: 0,
        updated_at: 0,
        is_owner: None,
    }
}

#[test]
fn admission_follows_read_rights() {
    let s = BoardSession::new(Oid { value: 100 }, Oid { value: 2 });
    assert_eq!(s.user_id, Oid { value: 2 });
    assert!(s.admits(&Ok(Some(board(2, vec![])))));
    assert!(s.admits(&Ok(Some(board(1, vec![SharedWith { user_id: Oid { value: 2 }, can_update: false }])))));
    assert!(!s.admits(&Ok(Some(board(1, vec![])))));
    assert!(!s.admits(&Ok(None)));
    assert!(!s.admits(&Err(DbFailure { write_error_code: None, message: String::new() })));
}

#[test]
fn messages_become_actions() {
    let s = BoardSession::new(Oid { value: 100 }, Oid { value: 2 });
    match s.on_message(WsMessage::Text("{\"type\":\"draw\",\"path\":[1,2]}".to_string())) {
        SessionAction::Forward(op) => assert_eq!(op, "{\"type\":\"draw\",\"path\":[1,2]}"),
        other => panic!("unexpected {:?}", other),
    }
    assert!(matches!(s.on_message(WsMessage::Text("not json".to_string())), SessionAction::Ignore));
    assert!(matches!(s.on_message(WsMessage::Close), SessionAction::Stop));
    assert!(matches!(s.on_message(WsMessage::Other), SessionAction::Ignore));
}

#[test]
fn message_actions_by_json_flag() {
    assert!(matches!(message_action(WsMessage::Text("x".to_string()), true), SessionAction::Forward(t) if t == "x"));
    assert!(matches!(message_action(WsMessage::Text("x".to_string()), false), SessionAction::Ignore));
    assert!(matches!(message_action(WsMessage::Close, true), SessionAction::Stop));
    assert!(matches!(message_action(WsMessage::Other, true), SessionAction::Ignore));
}

#[test]
fn session_ids_are_version4_uuids() {
    let s = BoardSession::new(Oid { value: 1 }, Oid { value: 2 });
    assert_eq!((s.id >> 76) & 0xf, 4);
    assert_eq!((s.id >> 62) & 0x3, 2);
}
