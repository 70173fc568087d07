//! The stored documents and request bodies of the service.
use vstd::prelude::*;
use crate::ident::Oid;

verus! {

/// One grant of access to a board or quiz.
#[derive(Clone, Copy, Debug, PartialEq, Eq, Structural)]
pub struct SharedWith {
    pub user_id: Oid,
    pub can_update: bool,
}

/// A whiteboard. Canvas operations are JSON texts; times are milliseconds
/// since the Unix epoch.
#[derive(Clone, Debug)]
pub struct Board {
    pub id: Oid,
    pub owner_id: Oid,
    pub title: String,
    pub description: Option<String>,
    pub canvas_operations: Vec<String>,
    pub shared_with: Vec<SharedWith>,
    pub created_at: i64,
    pub updated_at: i64,
    pub is_owner: Option<bool>,
}

/// A multiple-choice question.
#[derive(Clone, Debug)]
pub struct Question {
    pub prompt: String,
    pub options: [String; 4],
    pub correct_answer: char,
}

/// A quiz.
#[derive(Clone, Debug)]
pub struct Quiz {
    pub id: Oid,
    pub owner_id: Oid,
    pub title: String,
    pub description: Option<String>,
    pub questions: Vec<Question>,
    pub created_at: i64,
    pub updated_at: i64,
    pub shared_with: Vec<SharedWith>,
}

/// A registered account.
#[derive(Clone, Debug)]
pub struct User {
    pub id: Oid,
    pub username: String,
    pub first_name: String,
    pub last_name: String,
    pub profile_picture_url: Option<String>,
    pub email: String,
    pub password_hash: String,
}

/// A login session: the bearer token handed to the client and its user.
#[derive(Clone, Debug)]
pub struct Session {
    pub id: Oid,
    pub session_id: String,
    pub user_id: Oid,
}

/// Body of a login request.
#[derive(Clone, Debug)]
pub struct LoginData {
    pub email: String,
    pub password: String,
}

/// Body of a signup request.
#[derive(Clone, Debug)]
pub struct SignupData {
    pub username: String,
    pub email: String,
    pub password: String,
    pub first_name: String,
    pub last_name: String,
    pub profile_picture_url: Option<String>,
}

/// Body of a board-creation request.
#[derive(Clone, Debug)]
pub struct CreateBoardData {
    pub title: String,
    pub description: Option<String>,
}

/// Body of a board-update request: the fields to overwrite.
#[derive(Clone, Debug)]
pub struct UpdateBoardData {
    pub title: Option<String>,
    pub description: Option<String>,
}

/// Body of a quiz-creation request. When an image address is given, the
/// quiz's questions are the ones generated from that image.
#[derive(Clone, Debug)]
pub struct CreateQuizData {
    pub title: String,
    pub description: Option<String>,
    pub image_url: Option<String>,
}

/// Body of a quiz-update request: the fields to overwrite; `questions`
/// replaces the whole question set.
#[derive(Clone, Debug)]
pub struct UpdateQuizData {
    pub title: Option<String>,
    pub description: Option<String>,
    pub questions: Option<Vec<Question>>,
}

/// Calls `bson::DateTime::now` and hands back its milliseconds since the
/// epoch. The contract claims nothing of the value: it is the clock.
#[verifier::external_body]
pub(crate) fn now_millis() -> i64 {
    bson::DateTime::now().timestamp_millis()
}

impl Board {
    /// The board with id `id` that `owner` creates at time `now`: no canvas
    /// operations, no grants.
    pub fn new(id: Oid, owner: Oid, data: CreateBoardData, now: i64) -> (b: Board)
        ensures
            b.id == id,
            b.owner_id == owner,
            b.title == data.title,
            b.description == data.description,
            b.canvas_operations@.len() == 0,
            b.shared_with@.len() == 0,
            b.created_at == now,
            b.updated_at == now,
            b.is_owner is None,
    {
        Board {
            id,
            owner_id: owner,
            title: data.title,
            description: data.description,
            canvas_operations: Vec::new(),
            shared_with: Vec::new(),
            created_at: now,
            updated_at: now,
            is_owner: None,
        }
    }

    /// A new board owned by `owner`, with an id newly made by bson, no canvas
    /// operations and no grants, created and updated now. Of the id only that
    /// it fits in twelve bytes is stated: bson builds it from the clock's
    /// second, a per-process random value and a counter that wraps, and does
    /// not promise that two ids differ.
    pub fn create(owner: Oid, data: CreateBoardData) -> (b: Board)
        ensures
            b.id.wf(),
            b.owner_id == owner,
            b.title == data.title,
            b.description == data.description,
            b.canvas_operations@.len() == 0,
            b.shared_with@.len() == 0,
            b.created_at == b.updated_at,
            b.is_owner is None,
    {
        let now = now_millis();
        Board::new(Oid::fresh(), owner, data, now)
    }
}

/// The questions a new quiz starts with: those generated from its image
/// address when there is one and a generator produced questions for it,
/// otherwise none.
pub open spec fn initial_questions(image_url: Option<String>, generated: Option<Vec<Question>>) -> Seq<Question> {
    match (image_url, generated) {
        (Some(_), Some(g)) => g@,
        _ => Seq::empty(),
    }
}

impl Quiz {
    /// The quiz with id `id` that `owner` creates at time `now`, with no
    /// grants. `generated` holds the questions generated from the image
    /// address, if a generator produced any; they become the quiz's questions
    /// when the request gives an image address.
    pub fn new(id: Oid, owner: Oid, data: CreateQuizData, generated: Option<Vec<Question>>, now: i64) -> (q: Quiz)
        ensures
            q.id == id,
            q.owner_id == owner,
            q.title == data.title,
            q.description == data.description,
            q.questions@ == initial_questions(data.image_url, generated),
            q.shared_with@.len() == 0,
            q.created_at == now,
            q.updated_at == now,
    {
        let questions = match (&data.image_url, generated) {
            (Some(_), Some(g)) => g,
            _ => Vec::new(),
        };
        Quiz {
            id,
            owner_id: owner,
            title: data.title,
            description: data.description,
            questions,
            created_at: now,
            updated_at: now,
            shared_with: Vec::new(),
        }
    }

    /// A new quiz owned by `owner`, with an id newly made by bson (of which, as
    /// for boards, only that it fits in twelve bytes is stated) and no grants,
    /// created and updated now; its questions are the generated ones when the
    /// request gives an image address and `generated` holds questions,
    /// otherwise none.
    pub fn create(owner: Oid, data: CreateQuizData, generated: Option<Vec<Question>>) -> (q: Quiz)
        ensures
            q.id.wf(),
            q.owner_id == owner,
            q.title == data.title,
            q.description == data.description,
            q.questions@ == initial_questions(data.image_url, generated),
            q.shared_with@.len() == 0,
            q.created_at == q.updated_at,
    {
        let now = now_millis();
        Quiz::new(Oid::fresh(), owner, data, generated, now)
    }
}

} // verus!
