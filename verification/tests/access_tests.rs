use collab_board::access::{
    authorize_board_deletion, authorize_owner, authorize_read, authorize_update,
    board_id_from_path, can_read, can_update, listing_query, loaded, loaded_for_change, loaded_for_view,
    parse_doc_id, DocKind,
};
use collab_board::error::{DbFailure, Status};
use collab_board::ident::Oid;
use collab_board::records::SharedWith;

fn id(v: u128) -> Oid {
    Oid { value: v }
}

fn grants() -> Vec<SharedWith> {
    vec![
        SharedWith { user_id: id(2), can_update: false },
        SharedWith { user_id: id(3), can_update: true },
    ]
}

#[test]
fn read_and_update_rights() {
    let g = grants();
    assert!(can_read(id(1), &g, id(1)));
    assert!(can_update(id(1), &g, id(1)));
    assert!(can_read(id(1), &g, id(2)));
    assert!(!can_update(id(1), &g, id(2)));
    assert!(can_read(id(1), &g, id(3)));
    assert!(can_update(id(1), &g, id(3)));
    assert!(!can_read(id(1), &g, id(4)));
    assert!(!can_update(id(1), &g, id(4)));
    assert!(!can_read(id(1), &Vec::new(), id(2)));
}

#[test]
fn refusals_carry_status_and_message() {
    let g = grants();
    let e = authorize_read(id(1), &g, id(4)).unwrap_err();
    assert_eq!((e.status, e.message.as_str()), (Status::Forbidden, "Access denied"));
    let e = authorize_update(id(1), &g, id(2)).unwrap_err();
    assert_eq!((e.status, e.message.as_str()), (Status::Forbidden, "No update permission"));
    let e = authorize_owner(id(1), id(3)).unwrap_err();
    assert_eq!((e.status, e.message.as_str()), (Status::Forbidden, "Not the owner"));
    let e = authorize_board_deletion(id(1), id(3)).unwrap_err();
    assert_eq!(e.message, "You are not the owner of this board");
    assert!(authorize_owner(id(1), id(1)).is_ok());
    assert!(authorize_board_deletion(id(1), id(1)).is_ok());
    assert!(authorize_read(id(1), &g, id(2)).is_ok());
    assert!(authorize_update(id(1), &g, id(3)).is_ok());
}

#[test]
fn document_ids_from_paths() {
    let o = parse_doc_id(DocKind::Board, "65a1b2c3d4e5f60718293a4b").unwrap();
    assert_eq!(o.value, 0x65a1b2c3d4e5f60718293a4bu128);
    let e = parse_doc_id(DocKind::Board, "nope").unwrap_err();
    assert_eq!((e.status, e.message.as_str()), (Status::BadRequest, "Invalid board id"));
    let e = parse_doc_id(DocKind::Quiz, "nope").unwrap_err();
    assert_eq!(e.message, "Invalid quiz id");
    let e = board_id_from_path(None).unwrap_err();
    assert_eq!((e.status, e.message.as_str()), (Status::BadRequest, "Missing board id"));
    assert!(board_id_from_path(Some("65a1b2c3d4e5f60718293a4b")).is_ok());
}

#[test]
fn lookups_for_change_answer_not_found() {
    let failed: Result<Option<u8>, DbFailure> =
        Err(DbFailure { write_error_code: None, message: "down".to_string() });
    let e = loaded_for_change(DocKind::Board, failed).unwrap_err();
    assert_eq!((e.status, e.message.as_str()), (Status::NotFound, "Invalid board id"));
    let e = loaded_for_change::<u8>(DocKind::Quiz, Ok(None)).unwrap_err();
    assert_eq!((e.status, e.message.as_str()), (Status::NotFound, "Quiz not found"));
    assert_eq!(loaded_for_change(DocKind::Board, Ok(Some(5u8))).unwrap(), 5);
}

#[test]
fn lookups_for_view_answer_server_error() {
    let failed: Result<Option<u8>, DbFailure> =
        Err(DbFailure { write_error_code: None, message: "down".to_string() });
    let e = loaded_for_view(DocKind::Board, failed).unwrap_err();
    assert_eq!((e.status, e.message.as_str()), (Status::InternalServerError, "DB error"));
    let e = loaded_for_view::<u8>(DocKind::Board, Ok(None)).unwrap_err();
    assert_eq!((e.status, e.message.as_str()), (Status::NotFound, "Board not found"));
    let e = loaded::<u8>(DocKind::Quiz, None).unwrap_err();
    assert_eq!(e.message, "Quiz not found");
    assert_eq!(loaded(DocKind::Quiz, Some(1u8)).unwrap(), 1);
}

#[test]
fn listing_queries() {
    let q = listing_query(DocKind::Board, id(5));
    assert_eq!((q.owner_id, q.shared_user_id, q.omitted_field.as_str()), (id(5), id(5), "canvas_operations"));
    let q = listing_query(DocKind::Quiz, id(6));
    assert_eq!(q.omitted_field, "questions");
}
