//! Sharing boards and quizzes with other users: resolving the usernames,
//! planning the grant or revocation, and what that change does to the list
//! of grants stored with the document.
use vstd::prelude::*;
use crate::access::{is_shared_with, is_shared_for_update, may_read, may_update};
use crate::error::{ApiError, DbFailure, Status, fails_with};
use crate::ident::Oid;
use crate::records::{now_millis, SharedWith, User};

verus! {

/// Whether a share request grants or pulls access.
#[derive(Clone, Copy, Debug, PartialEq, Eq, Structural)]
pub enum ShareAction {
    Share,
    Revoke,
}

/// Body of a board-share request.
#[derive(Clone, Debug)]
pub struct ShareBoardData {
    /// One or more usernames to share with or revoke.
    pub usernames: Vec<String>,
    pub action: ShareAction,
    /// Required when the action is `Share`.
    pub can_update: Option<bool>,
}

/// Body of a quiz-share request.
#[derive(Clone, Debug)]
pub struct ShareQuizData {
    pub usernames: Vec<String>,
    pub action: ShareAction,
    pub can_update: Option<bool>,
}

/// "User `<name>` not found".
pub open spec fn user_not_found_message(username: Seq<char>) -> Seq<char> {
    "User `"@ + username + "` not found"@
}

fn user_not_found(username: &str) -> (e: ApiError)
    ensures
        e.status == Status::NotFound,
        e.message@ == user_not_found_message(username@),
{
    let mut m = String::from_str("User `");
    m.append(username);
    m.append("` not found");
    ApiError { status: Status::NotFound, message: m }
}

/// The id of the user a share request names, from the lookup by username.
pub fn share_target(username: &str, lookup: Result<Option<User>, DbFailure>) -> (id: Result<Oid, ApiError>)
    ensures
        match lookup {
            Err(f) => fails_with(id, Status::InternalServerError, f.message@),
            Ok(None) => fails_with(id, Status::NotFound, user_not_found_message(username@)),
            Ok(Some(u)) => id == Ok::<Oid, ApiError>(u.id),
        },
{
    match lookup {
        Err(f) => Err(ApiError::from_db(&f)),
        Ok(None) => Err(user_not_found(username)),
        Ok(Some(u)) => Ok(u.id),
    }
}

/// The id of the user a share request names, from a lookup that cannot fail.
pub fn share_target_found(username: &str, found: Option<User>) -> (id: Result<Oid, ApiError>)
    ensures
        match found {
            None => fails_with(id, Status::NotFound, user_not_found_message(username@)),
            Some(u) => id == Ok::<Oid, ApiError>(u.id),
        },
{
    match found {
        None => Err(user_not_found(username)),
        Some(u) => Ok(u.id),
    }
}

/// The change a share request makes to a document's grants.
#[derive(Clone, Debug)]
pub enum ShareUpdate {
    /// Add each grant that is not already stored, as `$addToSet` with `$each`,
    /// and set the update time.
    Grant { entries: Vec<SharedWith>, updated_at: i64 },
    /// Remove every grant whose user is listed, as `$pull` with `$in`, and set
    /// the update time.
    Revoke { user_ids: Vec<Oid>, updated_at: i64 },
}

/// One grant per target, all with the same update right.
pub open spec fn grants_for(targets: Seq<Oid>, can_update: bool) -> Seq<SharedWith> {
    targets.map_values(|uid: Oid| SharedWith { user_id: uid, can_update })
}

/// `plan` is the answer to a share request with this action and update flag
/// whose usernames resolved to `targets`, made at time `now`: sharing needs
/// `can_update`.
pub open spec fn is_share_plan(
    plan: Result<ShareUpdate, ApiError>,
    action: ShareAction,
    can_update: Option<bool>,
    targets: Seq<Oid>,
    now: i64,
) -> bool {
    match (action, can_update) {
        (ShareAction::Share, None) => fails_with(plan, Status::BadRequest, "`can_update` required when sharing"@),
        (ShareAction::Share, Some(c)) => (plan matches Ok(ShareUpdate::Grant { entries, updated_at })
            && entries@ == grants_for(targets, c) && updated_at == now),
        (ShareAction::Revoke, _) => (plan matches Ok(ShareUpdate::Revoke { user_ids, updated_at })
            && user_ids@ == targets && updated_at == now),
    }
}

/// Plans the change a share request made at time `now` makes, once every
/// username is resolved to `targets`. Sharing needs `can_update`.
pub fn plan_share(action: ShareAction, can_update: Option<bool>, targets: Vec<Oid>, now: i64) -> (plan: Result<ShareUpdate, ApiError>)
    ensures
        is_share_plan(plan, action, can_update, targets@, now),
        action == ShareAction::Revoke ==> (plan matches Ok(p) && forall|shared: Seq<SharedWith>, uid: Oid|
            targets@.contains(uid) ==> !#[trigger] is_shared_with(p.applied_to(shared), uid)),
        action == ShareAction::Share && can_update is Some ==> (plan matches Ok(p) && forall|shared: Seq<SharedWith>, uid: Oid|
            targets@.contains(uid) ==> #[trigger] is_shared_with(p.applied_to(shared), uid)),
{
    let ghost t = targets@;
    let plan = plan_to_write(action, can_update, targets, now);
    proof {
        if plan is Ok {
            let p = plan->Ok_0;
            assert forall|shared: Seq<SharedWith>, uid: Oid|
                t.contains(uid) implies #[trigger] is_shared_with(p.applied_to(shared), uid)
                    == (action == ShareAction::Share) by {
                law_planned_change_effect(plan, action, can_update, t, now, uid, shared, uid);
            }
        }
    }
    plan
}

/// What a planned share or revocation does to the grants stored with a
/// document, whatever they were: a revocation leaves no grant for any
/// target, so a target keeps access only as the owner, and every other user
/// keeps exactly the access they had; a share gives every target a grant,
/// with the update right when the request asks for it, and takes no access
/// from anyone.
pub proof fn law_planned_change_effect(
    plan: Result<ShareUpdate, ApiError>,
    action: ShareAction,
    can_update: Option<bool>,
    targets: Seq<Oid>,
    now: i64,
    owner: Oid,
    shared: Seq<SharedWith>,
    uid: Oid,
)
    requires
        is_share_plan(plan, action, can_update, targets, now),
    ensures
        action == ShareAction::Revoke ==> (plan matches Ok(p) && ({
            let after = p.applied_to(shared);
            &&& targets.contains(uid) ==> !is_shared_with(after, uid)
            &&& targets.contains(uid) ==> (may_read(owner, after, uid) <==> owner == uid)
            &&& !targets.contains(uid) ==> (may_read(owner, after, uid) == may_read(owner, shared, uid))
            &&& !targets.contains(uid) ==> (may_update(owner, after, uid) == may_update(owner, shared, uid))
        })),
        action == ShareAction::Share ==> (can_update matches Some(c) ==> (plan matches Ok(p) && ({
            let after = p.applied_to(shared);
            &&& targets.contains(uid) ==> is_shared_with(after, uid) && may_read(owner, after, uid)
            &&& targets.contains(uid) && c ==> may_update(owner, after, uid)
            &&& may_read(owner, shared, uid) ==> may_read(owner, after, uid)
            &&& may_update(owner, shared, uid) ==> may_update(owner, after, uid)
        }))),
{
    match action {
        ShareAction::Revoke => {
            law_revoke_removes_access(owner, shared, targets, uid);
        },
        ShareAction::Share => {
            if let Some(c) = can_update {
                law_share_grants_access(owner, shared, targets, c, uid);
                if targets.contains(uid) {
                    let entries = grants_for(targets, c);
                    let j = choose|j: int| 0 <= j < targets.len() && targets[j] == uid;
                    lemma_add_to_set_keeps(shared, entries);
                    assert(entries[j] == SharedWith { user_id: uid, can_update: c });
                    lemma_contains_grant(add_to_set(shared, entries), entries[j]);
                }
            }
        },
    }
}

fn plan_to_write(action: ShareAction, can_update: Option<bool>, targets: Vec<Oid>, now: i64) -> (plan: Result<ShareUpdate, ApiError>)
    ensures
        is_share_plan(plan, action, can_update, targets@, now),
{
    match action {
        ShareAction::Share => {
            let c = match can_update {
                Some(c) => c,
                None => {
                    return Err(ApiError::new(Status::BadRequest, "`can_update` required when sharing"));
                },
            };
            let mut entries: Vec<SharedWith> = Vec::new();
            let n = targets.len();
            let mut i: usize = 0;
            while i < n
                invariant
                    n == targets@.len(),
                    0 <= i <= n,
                    entries@ =~= grants_for(targets@.take(i as int), c),
                decreases n - i,
            {
                entries.push(SharedWith { user_id: targets[i], can_update: c });
                assert(targets@.take(i + 1) =~= targets@.take(i as int).push(targets@[i as int]));
                i = i + 1;
            }
            assert(targets@.take(n as int) =~= targets@);
            Ok(ShareUpdate::Grant { entries, updated_at: now })
        },
        ShareAction::Revoke => Ok(ShareUpdate::Revoke { user_ids: targets, updated_at: now }),
    }
}

/// The next thing a share request does.
#[derive(Clone, Debug)]
pub enum ShareStep {
    /// Look up the user with this username and hand the result to the flow.
    LookUp(String),
    /// Write this change to the document's grants; the request then succeeds.
    Write(ShareUpdate),
    /// Answer with this error; nothing is written.
    Fail(ApiError),
}

/// The state of a share request after the document and its owner were
/// checked: the usernames to resolve, in order, the ids resolved so far, and
/// the failure that ended the request, if one did.
#[derive(Clone, Debug)]
pub struct ShareFlow {
    pub usernames: Vec<String>,
    pub action: ShareAction,
    pub can_update: Option<bool>,
    pub targets: Vec<Oid>,
    pub failure: Option<ApiError>,
}

/// The plan a step carries: the write or the failure that ends the request.
pub open spec fn step_plan(step: ShareStep) -> Option<Result<ShareUpdate, ApiError>> {
    match step {
        ShareStep::LookUp(_) => None,
        ShareStep::Write(u) => Some(Ok(u)),
        ShareStep::Fail(e) => Some(Err(e)),
    }
}

fn copy_error(e: &ApiError) -> (c: ApiError)
    ensures
        c.status == e.status,
        c.message@ == e.message@,
{
    ApiError { status: e.status, message: e.message.clone() }
}

fn copy_ids(v: &Vec<Oid>) -> (c: Vec<Oid>)
    ensures
        c@ == v@,
{
    let mut c: Vec<Oid> = Vec::new();
    let n = v.len();
    let mut i: usize = 0;
    while i < n
        invariant
            n == v@.len(),
            0 <= i <= n,
            c@ =~= v@.take(i as int),
        decreases n - i,
    {
        c.push(v[i]);
        assert(v@.take(i + 1) =~= v@.take(i as int).push(v@[i as int]));
        i = i + 1;
    }
    assert(v@.take(n as int) =~= v@);
    c
}

impl ShareFlow {
    /// A share request that has resolved no username yet.
    pub fn new(usernames: Vec<String>, action: ShareAction, can_update: Option<bool>) -> (flow: ShareFlow)
        ensures
            flow.usernames == usernames,
            flow.action == action,
            flow.can_update == can_update,
            flow.targets@.len() == 0,
            flow.failure is None,
    {
        ShareFlow { usernames, action, can_update, targets: Vec::new(), failure: None }
    }

    /// What the request does next: after a failure, answer with it; while a
    /// username is unresolved, look up the first such one, in order; once all
    /// are resolved, write the planned change made now, or refuse a share
    /// without `can_update`. Nothing is written before every username is
    /// resolved, nor after a lookup failed.
    pub fn next_step(&self) -> (step: ShareStep)
        ensures
            match self.failure {
                Some(e) => step matches ShareStep::Fail(f) && f.status == e.status && f.message@ == e.message@,
                None => if self.targets@.len() < self.usernames@.len() {
                    step matches ShareStep::LookUp(name) && name@ == self.usernames@[self.targets@.len() as int]@
                } else {
                    step_plan(step) matches Some(plan) && exists|now: i64|
                        #[trigger] is_share_plan(plan, self.action, self.can_update, self.targets@, now)
                },
            },
    {
        match &self.failure {
            Some(e) => ShareStep::Fail(copy_error(e)),
            None => {
                let resolved = self.targets.len();
                if resolved < self.usernames.len() {
                    ShareStep::LookUp(self.usernames[resolved].clone())
                } else {
                    let now = now_millis();
                    let plan = plan_share(self.action, self.can_update, copy_ids(&self.targets), now);
                    let step = match plan {
                        Ok(u) => ShareStep::Write(u),
                        Err(e) => ShareStep::Fail(e),
                    };
                    assert(is_share_plan(step_plan(step)->0, self.action, self.can_update, self.targets@, now));
                    step
                }
            },
        }
    }

    /// Records the lookup of the next unresolved username: the found user's
    /// id joins the targets; a missing user or a failed lookup ends the
    /// request. Once every username is resolved, or the request failed, the
    /// state stays as it is.
    pub fn on_lookup(&mut self, lookup: Result<Option<User>, DbFailure>)
        ensures
            final(self).usernames == old(self).usernames,
            final(self).action == old(self).action,
            final(self).can_update == old(self).can_update,
            ({
                let i = old(self).targets@.len();
                if old(self).failure is None && i < old(self).usernames@.len() {
                    let name = old(self).usernames@[i as int]@;
                    match lookup {
                        Err(f) => final(self).targets@ == old(self).targets@ && (final(self).failure matches Some(e)
                            && e.status == Status::InternalServerError && e.message@ == f.message@),
                        Ok(None) => final(self).targets@ == old(self).targets@ && (final(self).failure matches Some(e)
                            && e.status == Status::NotFound && e.message@ == user_not_found_message(name)),
                        Ok(Some(u)) => final(self).targets@ == old(self).targets@.push(u.id) && final(self).failure is None,
                    }
                } else {
                    final(self).targets@ == old(self).targets@ && final(self).failure == old(self).failure
                }
            }),
    {
        let i = self.targets.len();
        if self.failure.is_some() || i >= self.usernames.len() {
            return;
        }
        match share_target(self.usernames[i].as_str(), lookup) {
            Ok(id) => self.targets.push(id),
            Err(e) => self.failure = Some(e),
        }
    }

    /// As `on_lookup`, for a lookup that cannot fail.
    pub fn on_found(&mut self, found: Option<User>)
        ensures
            final(self).usernames == old(self).usernames,
            final(self).action == old(self).action,
            final(self).can_update == old(self).can_update,
            ({
                let i = old(self).targets@.len();
                if old(self).failure is None && i < old(self).usernames@.len() {
                    let name = old(self).usernames@[i as int]@;
                    match found {
                        None => final(self).targets@ == old(self).targets@ && (final(self).failure matches Some(e)
                            && e.status == Status::NotFound && e.message@ == user_not_found_message(name)),
                        Some(u) => final(self).targets@ == old(self).targets@.push(u.id) && final(self).failure is None,
                    }
                } else {
                    final(self).targets@ == old(self).targets@ && final(self).failure == old(self).failure
                }
            }),
    {
        let i = self.targets.len();
        if self.failure.is_some() || i >= self.usernames.len() {
            return;
        }
        match share_target_found(self.usernames[i].as_str(), found) {
            Ok(id) => self.targets.push(id),
            Err(e) => self.failure = Some(e),
        }
    }
}

impl ShareBoardData {
    /// The share request this body starts.
    pub fn into_flow(self) -> (flow: ShareFlow)
        ensures
            flow.usernames == self.usernames,
            flow.action == self.action,
            flow.can_update == self.can_update,
            flow.targets@.len() == 0,
            flow.failure is None,
    {
        ShareFlow::new(self.usernames, self.action, self.can_update)
    }
}

impl ShareQuizData {
    /// The share request this body starts.
    pub fn into_flow(self) -> (flow: ShareFlow)
        ensures
            flow.usernames == self.usernames,
            flow.action == self.action,
            flow.can_update == self.can_update,
            flow.targets@.len() == 0,
            flow.failure is None,
    {
        ShareFlow::new(self.usernames, self.action, self.can_update)
    }
}

/// The grants after adding each of `entries` that is not yet stored, in
/// order.
pub open spec fn add_to_set(shared: Seq<SharedWith>, entries: Seq<SharedWith>) -> Seq<SharedWith>
    decreases entries.len(),
{
    if entries.len() == 0 {
        shared
    } else {
        let before = add_to_set(shared, entries.drop_last());
        if before.contains(entries.last()) {
            before
        } else {
            before.push(entries.last())
        }
    }
}

/// The grants after removing every grant for a listed user.
pub open spec fn pull_users(shared: Seq<SharedWith>, user_ids: Seq<Oid>) -> Seq<SharedWith> {
    shared.filter(|sw: SharedWith| !user_ids.contains(sw.user_id))
}

impl ShareUpdate {
    /// The grants stored with a document after the change is applied to
    /// `shared`.
    pub open spec fn applied_to(&self, shared: Seq<SharedWith>) -> Seq<SharedWith> {
        match self {
            ShareUpdate::Grant { entries, .. } => add_to_set(shared, entries@),
            ShareUpdate::Revoke { user_ids, .. } => pull_users(shared, user_ids@),
        }
    }
}

proof fn lemma_add_to_set_keeps(shared: Seq<SharedWith>, entries: Seq<SharedWith>)
    ensures
        forall|e: SharedWith| shared.contains(e) ==> #[trigger] add_to_set(shared, entries).contains(e),
        forall|j: int| 0 <= j < entries.len() ==> add_to_set(shared, entries).contains(#[trigger] entries[j]),
    decreases entries.len(),
{
    if entries.len() > 0 {
        let init = entries.drop_last();
        lemma_add_to_set_keeps(shared, init);
        let before = add_to_set(shared, init);
        let after = add_to_set(shared, entries);
        assert forall|e: SharedWith| before.contains(e) implies after.contains(e) by {
            if !before.contains(entries.last()) {
                let k = choose|k: int| 0 <= k < before.len() && before[k] == e;
                assert(after[k] == e);
            }
        }
        assert forall|j: int| 0 <= j < entries.len() implies after.contains(#[trigger] entries[j]) by {
            if j < entries.len() - 1 {
                assert(init[j] == entries[j]);
                assert(before.contains(init[j]));
            } else if !before.contains(entries.last()) {
                assert(after[before.len() as int] == entries.last());
            }
        }
    }
}

proof fn lemma_contains_grant(shared: Seq<SharedWith>, g: SharedWith)
    requires
        shared.contains(g),
    ensures
        is_shared_with(shared, g.user_id),
        g.can_update ==> is_shared_for_update(shared, g.user_id),
{
    let k = choose|k: int| 0 <= k < shared.len() && shared[k] == g;
    assert(shared[k].user_id == g.user_id);
}

/// Sharing grants every target access, keeps every grant already stored, and
/// lets the targets update when the request says so.
pub proof fn law_share_grants_access(
    owner: Oid,
    shared: Seq<SharedWith>,
    targets: Seq<Oid>,
    can_update: bool,
    uid: Oid,
)
    ensures
        ({
            let after = add_to_set(shared, grants_for(targets, can_update));
            &&& targets.contains(uid) ==> may_read(owner, after, uid)
            &&& targets.contains(uid) && can_update ==> may_update(owner, after, uid)
            &&& may_read(owner, shared, uid) ==> may_read(owner, after, uid)
            &&& may_update(owner, shared, uid) ==> may_update(owner, after, uid)
        }),
{
    let entries = grants_for(targets, can_update);
    let after = add_to_set(shared, entries);
    lemma_add_to_set_keeps(shared, entries);
    if targets.contains(uid) {
        let j = choose|j: int| 0 <= j < targets.len() && targets[j] == uid;
        assert(entries[j] == SharedWith { user_id: uid, can_update });
        assert(after.contains(entries[j]));
        lemma_contains_grant(after, entries[j]);
    }
    if is_shared_with(shared, uid) {
        let k = choose|k: int| 0 <= k < shared.len() && (#[trigger] shared[k]).user_id == uid;
        assert(shared.contains(shared[k]));
        lemma_contains_grant(after, shared[k]);
    }
    if is_shared_for_update(shared, uid) {
        let k = choose|k: int| 0 <= k < shared.len() && (#[trigger] shared[k]).user_id == uid && shared[k].can_update;
        assert(shared.contains(shared[k]));
        lemma_contains_grant(after, shared[k]);
    }
}

/// Revoking leaves no grant for a target, so a target keeps access only as
/// the owner; users who are not targets keep exactly the grants they had.
pub proof fn law_revoke_removes_access(
    owner: Oid,
    shared: Seq<SharedWith>,
    targets: Seq<Oid>,
    uid: Oid,
)
    ensures
        ({
            let after = pull_users(shared, targets);
            &&& targets.contains(uid) ==> !is_shared_with(after, uid)
            &&& targets.contains(uid) ==> (may_read(owner, after, uid) <==> owner == uid)
            &&& targets.contains(uid) ==> (may_update(owner, after, uid) <==> owner == uid)
            &&& !targets.contains(uid) ==> (may_read(owner, after, uid) == may_read(owner, shared, uid))
            &&& !targets.contains(uid) ==> (may_update(owner, after, uid) == may_update(owner, shared, uid))
        }),
{
    let pred = |sw: SharedWith| !targets.contains(sw.user_id);
    let after = shared.filter(pred);
    assert(after == pull_users(shared, targets));
    assert forall|g: SharedWith| #[trigger] after.contains(g) <==> (shared.contains(g) && pred(g)) by {
        if after.contains(g) {
            let k = choose|k: int| 0 <= k < after.len() && after[k] == g;
            shared.lemma_filter_pred(pred, k);
            shared.lemma_filter_contains_rev(pred, g);
        }
        if shared.contains(g) && pred(g) {
            let k = choose|k: int| 0 <= k < shared.len() && shared[k] == g;
            shared.lemma_filter_contains(pred, k);
        }
    }
    if is_shared_with(after, uid) {
        let k = choose|k: int| 0 <= k < after.len() && (#[trigger] after[k]).user_id == uid;
        assert(after.contains(after[k]));
        if !targets.contains(uid) {
            assert(shared.contains(after[k]));
            lemma_contains_grant(shared, after[k]);
        }
    }
    if is_shared_for_update(after, uid) {
        let k = choose|k: int| 0 <= k < after.len() && (#[trigger] after[k]).user_id == uid && after[k].can_update;
        assert(after.contains(after[k]));
        assert(shared.contains(after[k]));
        lemma_contains_grant(shared, after[k]);
        lemma_contains_grant(after, after[k]);
    }
    if !targets.contains(uid) && is_shared_with(shared, uid) {
        let k = choose|k: int| 0 <= k < shared.len() && (#[trigger] shared[k]).user_id == uid;
        assert(shared.contains(shared[k]));
        assert(after.contains(shared[k]));
        lemma_contains_grant(after, shared[k]);
    }
    if !targets.contains(uid) && is_shared_for_update(shared, uid) {
        let k = choose|k: int| 0 <= k < shared.len() && (#[trigger] shared[k]).user_id == uid && shared[k].can_update;
        assert(shared.contains(shared[k]));
        assert(after.contains(shared[k]));
        lemma_contains_grant(after, shared[k]);
    }
}

proof fn lemma_add_present(shared: Seq<SharedWith>, entries: Seq<SharedWith>)
    requires
        forall|j: int| 0 <= j < entries.len() ==> shared.contains(#[trigger] entries[j]),
    ensures
        add_to_set(shared, entries) == shared,
    decreases entries.len(),
{
    if entries.len() > 0 {
        let init = entries.drop_last();
        assert forall|j: int| 0 <= j < init.len() implies shared.contains(#[trigger] init[j]) by {
            assert(init[j] == entries[j]);
        }
        lemma_add_present(shared, init);
        assert(shared.contains(entries[entries.len() - 1]));
    }
}

/// Repeating a share leaves the grants as the first share left them.
pub proof fn law_share_idempotent(shared: Seq<SharedWith>, targets: Seq<Oid>, can_update: bool)
    ensures
        ({
            let once = add_to_set(shared, grants_for(targets, can_update));
            add_to_set(once, grants_for(targets, can_update)) == once
        }),
{
    let entries = grants_for(targets, can_update);
    lemma_add_to_set_keeps(shared, entries);
    lemma_add_present(add_to_set(shared, entries), entries);
}

proof fn lemma_pull_keeps(shared: Seq<SharedWith>, user_ids: Seq<Oid>)
    requires
        forall|i: int| 0 <= i < shared.len() ==> !user_ids.contains((#[trigger] shared[i]).user_id),
    ensures
        pull_users(shared, user_ids) == shared,
    decreases shared.len(),
{
    let pred = |sw: SharedWith| !user_ids.contains(sw.user_id);
    if shared.len() > 0 {
        let init = shared.drop_last();
        assert forall|i: int| 0 <= i < init.len() implies !user_ids.contains((#[trigger] init[i]).user_id) by {
            assert(init[i] == shared[i]);
        }
        lemma_pull_keeps(init, user_ids);
        init.lemma_filter_push(shared.last(), pred);
        assert(init.push(shared.last()) =~= shared);
        assert(pred(shared[shared.len() - 1]));
    } else {
        assert(shared.filter(pred) =~= shared) by {
            reveal(Seq::filter);
        }
    }
}

proof fn lemma_pull_added(shared: Seq<SharedWith>, entries: Seq<SharedWith>, user_ids: Seq<Oid>)
    requires
        forall|i: int| 0 <= i < shared.len() ==> !user_ids.contains((#[trigger] shared[i]).user_id),
        forall|j: int| 0 <= j < entries.len() ==> user_ids.contains((#[trigger] entries[j]).user_id),
    ensures
        pull_users(add_to_set(shared, entries), user_ids) == shared,
    decreases entries.len(),
{
    let pred = |sw: SharedWith| !user_ids.contains(sw.user_id);
    if entries.len() == 0 {
        lemma_pull_keeps(shared, user_ids);
    } else {
        let init = entries.drop_last();
        assert forall|j: int| 0 <= j < init.len() implies user_ids.contains((#[trigger] init[j]).user_id) by {
            assert(init[j] == entries[j]);
        }
        lemma_pull_added(shared, init, user_ids);
        let before = add_to_set(shared, init);
        let last = entries[entries.len() - 1];
        assert(user_ids.contains(last.user_id));
        before.lemma_filter_push(last, pred);
    }
}

/// Revoking the users of a share undoes it when none of them held a grant
/// before: the grants are as they were.
pub proof fn law_revoke_undoes_share(shared: Seq<SharedWith>, targets: Seq<Oid>, can_update: bool)
    requires
        forall|i: int| 0 <= i < shared.len() ==> !targets.contains((#[trigger] shared[i]).user_id),
    ensures
        pull_users(add_to_set(shared, grants_for(targets, can_update)), targets) == shared,
{
    let entries = grants_for(targets, can_update);
    assert forall|j: int| 0 <= j < entries.len() implies targets.contains((#[trigger] entries[j]).user_id) by {
        assert(entries[j].user_id == targets[j]);
    }
    lemma_pull_added(shared, entries, targets);
}

} // verus!
