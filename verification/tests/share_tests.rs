use collab_board::error::{DbFailure, Status};
use collab_board::ident::Oid;
use collab_board::records::{SharedWith, User};
use collab_board::share::{plan_share, share_target, share_target_found, ShareAction, ShareBoardData, ShareFlow, ShareQuizData, ShareStep, ShareUpdate};

fn user(v: u128) -> User {
    User {
        id: Oid { value: v },
        username: "bob".to_string(),
        first_name: String::new(),
        last_name: String::new(),
        profile_picture_url: None,
        email: String::new(),
        password_hash: String::new(),
    }
}

#[test]
fn share_needs_update_flag() {
    let e = plan_share(ShareAction::Share, None, vec![Oid { value: 1 }], 7).unwrap_err();
    assert_eq!((e.status, e.message.as_str()), (Status::BadRequest, "`can_update` required when sharing"));
}

#[test]
fn share_builds_one_grant_per_target() {
    let plan = plan_share(ShareAction::Share, Some(true), vec![Oid { value: 1 }, Oid { value: 2 }], 7).unwrap();
    match plan {
        ShareUpdate::Grant { entries, updated_at } => assert_eq!((updated_at, entries.len()), (7, 2)),
        _ => panic!("expected a grant"),
    }
    let plan = plan_share(ShareAction::Share, Some(true), vec![Oid { value: 1 }, Oid { value: 2 }], 7).unwrap();
    match plan {
        ShareUpdate::Grant { entries, .. } => assert_eq!(
            entries,
            vec![
                SharedWith { user_id: Oid { value: 1 }, can_update: true },
                SharedWith { user_id: Oid { value: 2 }, can_update: true },
            ]
        ),
        _ => panic!("expected a grant"),
    }
}

#[test]
fn revoke_lists_targets_without_flag() {
    let plan = plan_share(ShareAction::Revoke, None, vec![Oid { value: 4 }], 9).unwrap();
    match plan {
        ShareUpdate::Revoke { user_ids, updated_at } => {
            assert_eq!(user_ids, vec![Oid { value: 4 }]);
            assert_eq!(updated_at, 9);
        }
        _ => panic!("expected a revocation"),
    }
}

#[test]
fn unknown_usernames_are_named() {
    let e = share_target("carol", Ok(None)).unwrap_err();
    assert_eq!((e.status, e.message.as_str()), (Status::NotFound, "User `carol` not found"));
    let e = share_target_found("dave", None).unwrap_err();
    assert_eq!(e.message, "User `dave` not found");
    let e = share_target("carol", Err(DbFailure { write_error_code: None, message: "timeout".to_string() })).unwrap_err();
    assert_eq!((e.status, e.message.as_str()), (Status::InternalServerError, "timeout"));
    assert_eq!(share_target("bob", Ok(Some(user(8)))).unwrap(), Oid { value: 8 });
    assert_eq!(share_target_found("bob", Some(user(9))).unwrap(), Oid { value: 9 });
}

#[test]
fn share_flow_resolves_in_order_then_writes() {
    let body = ShareBoardData {
        usernames: vec!["bob".to_string(), "eve".to_string()],
        action: ShareAction::Share,
        can_update: Some(false),
    };
    let mut flow = body.into_flow();
    assert!(matches!(flow.next_step(), ShareStep::LookUp(n) if n == "bob"));
    flow.on_lookup(Ok(Some(user(1))));
    assert!(matches!(flow.next_step(), ShareStep::LookUp(n) if n == "eve"));
    flow.on_lookup(Ok(Some(user(2))));
    match flow.next_step() {
        ShareStep::Write(ShareUpdate::Grant { entries, .. }) => {
            assert_eq!(entries.iter().map(|g| g.user_id.value).collect::<Vec<_>>(), vec![1, 2]);
            assert!(entries.iter().all(|g| !g.can_update));
        }
        other => panic!("unexpected {:?}", other),
    }
}

#[test]
fn share_flow_with_unknown_user_writes_nothing() {
    let mut flow = ShareFlow::new(vec!["bob".to_string(), "ghost".to_string(), "eve".to_string()], ShareAction::Share, Some(true));
    flow.on_lookup(Ok(Some(user(1))));
    flow.on_lookup(Ok(None));
    flow.on_lookup(Ok(Some(user(3))));
    assert_eq!(flow.targets.len(), 1);
    match flow.next_step() {
        ShareStep::Fail(e) => assert_eq!((e.status, e.message.as_str()), (Status::NotFound, "User `ghost` not found")),
        other => panic!("unexpected {:?}", other),
    }
}

#[test]
fn share_flow_checks_update_flag_after_lookups() {
    let mut flow = ShareQuizData { usernames: vec!["bob".to_string()], action: ShareAction::Share, can_update: None }.into_flow();
    assert!(matches!(flow.next_step(), ShareStep::LookUp(_)));
    flow.on_found(Some(user(4)));
    match flow.next_step() {
        ShareStep::Fail(e) => assert_eq!(e.message, "`can_update` required when sharing"),
        other => panic!("unexpected {:?}", other),
    }
    let mut revoke = ShareFlow::new(vec!["bob".to_string()], ShareAction::Revoke, None);
    revoke.on_found(Some(user(4)));
    assert!(matches!(revoke.next_step(), ShareStep::Write(ShareUpdate::Revoke { .. })));
}

#[test]
fn share_flow_failed_lookup_is_a_server_error() {
    let mut flow = ShareFlow::new(vec!["bob".to_string()], ShareAction::Revoke, None);
    flow.on_lookup(Err(DbFailure { write_error_code: None, message: "timeout".to_string() }));
    match flow.next_step() {
        ShareStep::Fail(e) => assert_eq!((e.status, e.message.as_str()), (Status::InternalServerError, "timeout")),
        other => panic!("unexpected {:?}", other),
    }
}
