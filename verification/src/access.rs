//! Access control for boards and quizzes, and the request steps that load a
//! document by id and decide whether the requester may act on it.
use vstd::prelude::*;
use crate::error::{ApiError, DbFailure, Status, fails_with};
use crate::ident::{Oid, is_object_id_text, id_of_text};
use crate::records::SharedWith;

verus! {

/// `uid` holds some grant in `shared`.
pub open spec fn is_shared_with(shared: Seq<SharedWith>, uid: Oid) -> bool {
    exists|i: int| 0 <= i < shared.len() && (#[trigger] shared[i]).user_id == uid
}

/// `uid` holds a grant in `shared` that allows updates.
pub open spec fn is_shared_for_update(shared: Seq<SharedWith>, uid: Oid) -> bool {
    exists|i: int| 0 <= i < shared.len() && (#[trigger] shared[i]).user_id == uid && shared[i].can_update
}

/// `uid` may see a document owned by `owner` and shared as `shared`.
pub open spec fn may_read(owner: Oid, shared: Seq<SharedWith>, uid: Oid) -> bool {
    owner == uid || is_shared_with(shared, uid)
}

/// `uid` may change the title, description or questions of the document.
pub open spec fn may_update(owner: Oid, shared: Seq<SharedWith>, uid: Oid) -> bool {
    owner == uid || is_shared_for_update(shared, uid)
}

/// Whether some grant in `shared` is for `uid`.
pub fn shared_with_user(shared: &Vec<SharedWith>, uid: Oid) -> (found: bool)
    ensures
        found == is_shared_with(shared@, uid),
{
    let n = shared.len();
    let mut i: usize = 0;
    while i < n
        invariant
            n == shared@.len(),
            0 <= i <= n,
            forall|j: int| 0 <= j < i ==> (#[trigger] shared@[j]).user_id != uid,
        decreases n - i,
    {
        if shared[i].user_id == uid {
            assert(shared@[i as int].user_id == uid);
            return true;
        }
        i = i + 1;
    }
    false
}

/// Whether some grant in `shared` lets `uid` update.
pub fn shared_for_update(shared: &Vec<SharedWith>, uid: Oid) -> (found: bool)
    ensures
        found == is_shared_for_update(shared@, uid),
{
    let n = shared.len();
    let mut i: usize = 0;
    while i < n
        invariant
            n == shared@.len(),
            0 <= i <= n,
            forall|j: int|
                0 <= j < i ==> !((#[trigger] shared@[j]).user_id == uid && shared@[j].can_update),
        decreases n - i,
    {
        if shared[i].user_id == uid && shared[i].can_update {
            assert(shared@[i as int].user_id == uid && shared@[i as int].can_update);
            return true;
        }
        i = i + 1;
    }
    false
}

/// Whether `uid` may see the document.
pub fn can_read(owner: Oid, shared: &Vec<SharedWith>, uid: Oid) -> (ok: bool)
    ensures
        ok == may_read(owner, shared@, uid),
{
    owner == uid || shared_with_user(shared, uid)
}

/// Whether `uid` may update the document.
pub fn can_update(owner: Oid, shared: &Vec<SharedWith>, uid: Oid) -> (ok: bool)
    ensures
        ok == may_update(owner, shared@, uid),
{
    owner == uid || shared_for_update(shared, uid)
}

/// Whoever may update a document may also see it, and its owner may do both.
pub proof fn law_update_implies_read(owner: Oid, shared: Seq<SharedWith>, uid: Oid)
    ensures
        may_update(owner, shared, uid) ==> may_read(owner, shared, uid),
        may_update(owner, shared, owner) && may_read(owner, shared, owner),
{
    if is_shared_for_update(shared, uid) {
        let i = choose|i: int| 0 <= i < shared.len() && (#[trigger] shared[i]).user_id == uid && shared[i].can_update;
        assert(shared[i].user_id == uid);
    }
}

/// Which kind of document a request is about.
#[derive(Clone, Copy, Debug, PartialEq, Eq, Structural)]
pub enum DocKind {
    Board,
    Quiz,
}

/// "Invalid board id" or "Invalid quiz id".
pub open spec fn invalid_id_message(kind: DocKind) -> Seq<char> {
    match kind {
        DocKind::Board => "Invalid board id"@,
        DocKind::Quiz => "Invalid quiz id"@,
    }
}

/// "Board not found" or "Quiz not found".
pub open spec fn not_found_message(kind: DocKind) -> Seq<char> {
    match kind {
        DocKind::Board => "Board not found"@,
        DocKind::Quiz => "Quiz not found"@,
    }
}

fn invalid_id(kind: DocKind) -> (e: ApiError)
    ensures
        e.message@ == invalid_id_message(kind),
        e.status == Status::BadRequest,
{
    match kind {
        DocKind::Board => ApiError::new(Status::BadRequest, "Invalid board id"),
        DocKind::Quiz => ApiError::new(Status::BadRequest, "Invalid quiz id"),
    }
}

fn not_found(kind: DocKind) -> (e: ApiError)
    ensures
        e.message@ == not_found_message(kind),
        e.status == Status::NotFound,
{
    match kind {
        DocKind::Board => ApiError::new(Status::NotFound, "Board not found"),
        DocKind::Quiz => ApiError::new(Status::NotFound, "Quiz not found"),
    }
}

/// Reads the document id from its path segment.
pub fn parse_doc_id(kind: DocKind, text: &str) -> (id: Result<Oid, ApiError>)
    ensures
        is_object_id_text(text@) ==> (id matches Ok(o) && o.value == id_of_text(text@) && o.wf()),
        !is_object_id_text(text@) ==> fails_with(id, Status::BadRequest, invalid_id_message(kind)),
{
    match Oid::parse(text) {
        Some(o) => Ok(o),
        None => Err(invalid_id(kind)),
    }
}

/// Reads the board id of a board's websocket path, which may lack it.
pub fn board_id_from_path(segment: Option<&str>) -> (id: Result<Oid, ApiError>)
    ensures
        match segment {
            None => fails_with(id, Status::BadRequest, "Missing board id"@),
            Some(t) => if is_object_id_text(t@) {
                (id matches Ok(o) && o.value == id_of_text(t@))
            } else {
                fails_with(id, Status::BadRequest, "Invalid board id"@)
            },
        },
{
    match segment {
        None => Err(ApiError::new(Status::BadRequest, "Missing board id")),
        Some(t) => parse_doc_id(DocKind::Board, t),
    }
}

/// The document a lookup found, before deleting or sharing it: a failed
/// lookup and a missing document both answer 404.
pub fn loaded_for_change<T>(kind: DocKind, lookup: Result<Option<T>, DbFailure>) -> (doc: Result<T, ApiError>)
    ensures
        match lookup {
            Err(_) => fails_with(doc, Status::NotFound, invalid_id_message(kind)),
            Ok(None) => fails_with(doc, Status::NotFound, not_found_message(kind)),
            Ok(Some(d)) => doc == Ok::<T, ApiError>(d),
        },
{
    match lookup {
        Err(_) => Err(
            match kind {
                DocKind::Board => ApiError::new(Status::NotFound, "Invalid board id"),
                DocKind::Quiz => ApiError::new(Status::NotFound, "Invalid quiz id"),
            },
        ),
        Ok(None) => Err(not_found(kind)),
        Ok(Some(d)) => Ok(d),
    }
}

/// The document a lookup found, before showing or updating it: a failed
/// lookup is a server error, a missing document answers 404.
pub fn loaded_for_view<T>(kind: DocKind, lookup: Result<Option<T>, DbFailure>) -> (doc: Result<T, ApiError>)
    ensures
        match lookup {
            Err(_) => fails_with(doc, Status::InternalServerError, "DB error"@),
            Ok(None) => fails_with(doc, Status::NotFound, not_found_message(kind)),
            Ok(Some(d)) => doc == Ok::<T, ApiError>(d),
        },
{
    match lookup {
        Err(_) => Err(ApiError::new(Status::InternalServerError, "DB error")),
        Ok(None) => Err(not_found(kind)),
        Ok(Some(d)) => Ok(d),
    }
}

/// The document a lookup that cannot fail found.
pub fn loaded<T>(kind: DocKind, found: Option<T>) -> (doc: Result<T, ApiError>)
    ensures
        match found {
            None => fails_with(doc, Status::NotFound, not_found_message(kind)),
            Some(d) => doc == Ok::<T, ApiError>(d),
        },
{
    match found {
        None => Err(not_found(kind)),
        Some(d) => Ok(d),
    }
}

/// Refuses a requester who may not see the document.
pub fn authorize_read(owner: Oid, shared: &Vec<SharedWith>, uid: Oid) -> (r: Result<(), ApiError>)
    ensures
        may_read(owner, shared@, uid) ==> r is Ok,
        !may_read(owner, shared@, uid) ==> fails_with(r, Status::Forbidden, "Access denied"@),
{
    if can_read(owner, shared, uid) {
        Ok(())
    } else {
        Err(ApiError::new(Status::Forbidden, "Access denied"))
    }
}

/// Refuses a requester who may not update the document.
pub fn authorize_update(owner: Oid, shared: &Vec<SharedWith>, uid: Oid) -> (r: Result<(), ApiError>)
    ensures
        may_update(owner, shared@, uid) ==> r is Ok,
        !may_update(owner, shared@, uid) ==> fails_with(r, Status::Forbidden, "No update permission"@),
{
    if can_update(owner, shared, uid) {
        Ok(())
    } else {
        Err(ApiError::new(Status::Forbidden, "No update permission"))
    }
}

/// Refuses a requester who does not own the document (sharing it, deleting a
/// quiz).
pub fn authorize_owner(owner: Oid, uid: Oid) -> (r: Result<(), ApiError>)
    ensures
        owner == uid ==> r is Ok,
        owner != uid ==> fails_with(r, Status::Forbidden, "Not the owner"@),
{
    if owner == uid {
        Ok(())
    } else {
        Err(ApiError::new(Status::Forbidden, "Not the owner"))
    }
}

/// Refuses a board deletion by anyone but the board's owner.
pub fn authorize_board_deletion(owner: Oid, uid: Oid) -> (r: Result<(), ApiError>)
    ensures
        owner == uid ==> r is Ok,
        owner != uid ==> fails_with(r, Status::Forbidden, "You are not the owner of this board"@),
{
    if uid != owner {
        return Err(ApiError::new(Status::Forbidden, "You are not the owner of this board"));
    }
    Ok(())
}

/// The filter of the board and quiz listings: owned by `uid`, or holding a
/// grant whose user is `uid`.
pub open spec fn listed_for(owner: Oid, shared: Seq<SharedWith>, uid: Oid) -> bool {
    owner == uid || exists|i: int| 0 <= i < shared.len() && (#[trigger] shared[i].user_id) == uid
}

/// A listing shows exactly the documents that the requester may open.
pub proof fn law_listing_matches_read(owner: Oid, shared: Seq<SharedWith>, uid: Oid)
    ensures
        listed_for(owner, shared, uid) == may_read(owner, shared, uid),
{
    if listed_for(owner, shared, uid) && owner != uid {
        let i = choose|i: int| 0 <= i < shared.len() && (#[trigger] shared[i].user_id) == uid;
        assert(shared[i].user_id == uid);
    }
    if is_shared_with(shared, uid) {
        let i = choose|i: int| 0 <= i < shared.len() && (#[trigger] shared[i]).user_id == uid;
        assert(shared[i].user_id == uid);
    }
}

/// The query of a listing, as plain values: documents owned by `owner_id` or
/// holding a grant for `shared_user_id`, shown without the field
/// `omitted_field`.
#[derive(Clone, Debug)]
pub struct ListingQuery {
    pub owner_id: Oid,
    pub shared_user_id: Oid,
    pub omitted_field: String,
}

impl ListingQuery {
    /// Whether the query selects a document owned by `owner` and shared as
    /// `shared`.
    pub open spec fn selects(self, owner: Oid, shared: Seq<SharedWith>) -> bool {
        owner == self.owner_id || exists|i: int| 0 <= i < shared.len() && (#[trigger] shared[i].user_id) == self.shared_user_id
    }
}

/// The listing query of `uid`'s boards or quizzes: it selects exactly the
/// documents `uid` may open, and leaves out the canvas operations of boards
/// or the questions of quizzes.
pub fn listing_query(kind: DocKind, uid: Oid) -> (q: ListingQuery)
    ensures
        q.owner_id == uid,
        q.shared_user_id == uid,
        forall|owner: Oid, shared: Seq<SharedWith>|
            #[trigger] q.selects(owner, shared) == listed_for(owner, shared, uid),
        forall|owner: Oid, shared: Seq<SharedWith>|
            #[trigger] q.selects(owner, shared) == may_read(owner, shared, uid),
        q.omitted_field@ == match kind {
            DocKind::Board => "canvas_operations"@,
            DocKind::Quiz => "questions"@,
        },
{
    let omitted_field = match kind {
        DocKind::Board => String::from_str("canvas_operations"),
        DocKind::Quiz => String::from_str("questions"),
    };
    let q = ListingQuery { owner_id: uid, shared_user_id: uid, omitted_field };
    assert forall|owner: Oid, shared: Seq<SharedWith>|
        #[trigger] q.selects(owner, shared) == may_read(owner, shared, uid) by {
        law_listing_matches_read(owner, shared, uid);
    }
    q
}

} // verus!
