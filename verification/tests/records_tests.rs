use collab_board::config::{AppConfig, MongoConfig, ServerConfig};
use collab_board::edits::FieldUpdate;
use collab_board::ident::Oid;
use collab_board::records::{Board, CreateBoardData, CreateQuizData, Question, Quiz, UpdateBoardData, UpdateQuizData};

#[test]
fn created_board_is_empty_and_owned() {
    let b = Board::create(Oid { value: 4 }, CreateBoardData { title: "Plan".to_string(), description: Some("d".to_string()) });
    assert_eq!(b.owner_id, Oid { value: 4 });
    assert_eq!(b.title, "Plan");
    assert_eq!(b.description.as_deref(), Some("d"));
    assert!(b.canvas_operations.is_empty() && b.shared_with.is_empty());
    assert_eq!(b.created_at, b.updated_at);
    assert!(b.created_at > 1_600_000_000_000);
    assert!(b.is_owner.is_none());
}

#[test]
fn created_quiz_has_no_questions() {
    let q = Quiz::create(
        Oid { value: 4 },
        CreateQuizData { title: "Q".to_string(), description: None, image_url: Some("http://img".to_string()) },
        None,
    );
    assert!(q.questions.is_empty());
    assert_eq!(q.title, "Q");
    assert_eq!(q.created_at, q.updated_at);
}

#[test]
fn board_update_sets_given_fields_only() {
    let a = UpdateBoardData { title: None, description: Some("x".to_string()) }.assignments_at(11);
    assert_eq!(a.len(), 2);
    assert!(matches!(&a[0], FieldUpdate::UpdatedAt(11)));
    assert!(matches!(&a[1], FieldUpdate::Description(d) if d == "x"));
    let none = UpdateBoardData { title: None, description: None }.assignments();
    assert_eq!(none.len(), 1);
    assert!(matches!(&none[0], FieldUpdate::UpdatedAt(t) if *t > 1_600_000_000_000));
    let both = UpdateBoardData { title: Some("t".to_string()), description: Some("d".to_string()) }.assignments_at(3);
    assert!(matches!(&both[1], FieldUpdate::Title(t) if t == "t"));
    assert!(matches!(&both[2], FieldUpdate::Description(d) if d == "d"));
}

#[test]
fn quiz_update_replaces_questions() {
    let a = UpdateQuizData { title: Some("t".to_string()), description: None, questions: Some(Vec::new()) }.assignments_at(5);
    assert_eq!(a.len(), 3);
    assert!(matches!(&a[0], FieldUpdate::UpdatedAt(5)));
    assert!(matches!(&a[2], FieldUpdate::Questions(q) if q.is_empty()));
    let now = UpdateQuizData { title: None, description: None, questions: None }.assignments();
    assert_eq!(now.len(), 1);
}

#[test]
fn config_keeps_its_parts() {
    let c = AppConfig::from_env(
        MongoConfig { uri: "mongodb://db".to_string(), db_name: "app".to_string() },
        ServerConfig { host: "0.0.0.0".to_string(), port: 8080 },
    );
    assert_eq!(c.mongo.db_name, "app");
    assert_eq!(c.server.port, 8080);
}

#[test]
fn board_and_quiz_from_parts() {
    let b = Board::new(Oid { value: 1 }, Oid { value: 2 }, CreateBoardData { title: "a".to_string(), description: None }, 1234);
    assert_eq!((b.id, b.owner_id, b.created_at, b.updated_at), (Oid { value: 1 }, Oid { value: 2 }, 1234, 1234));
    let q = Quiz::new(Oid { value: 3 }, Oid { value: 2 }, CreateQuizData { title: "q".to_string(), description: Some("d".to_string()), image_url: None }, None, 99);
    assert_eq!((q.id, q.created_at, q.updated_at), (Oid { value: 3 }, 99, 99));
    assert!(q.questions.is_empty() && q.shared_with.is_empty());
}

fn question(prompt: &str) -> Question {
    Question {
        prompt: prompt.to_string(),
        options: ["a".to_string(), "b".to_string(), "c".to_string(), "d".to_string()],
        correct_answer: 'a',
    }
}

#[test]
fn generated_questions_follow_the_image_address() {
    let with_image = CreateQuizData { title: "Q".to_string(), description: None, image_url: Some("http://img".to_string()) };
    let q = Quiz::new(Oid { value: 1 }, Oid { value: 2 }, with_image, Some(vec![question("p1"), question("p2")]), 5);
    assert_eq!(q.questions.len(), 2);
    assert_eq!(q.questions[1].prompt, "p2");
    let no_image = CreateQuizData { title: "Q".to_string(), description: None, image_url: None };
    let q = Quiz::create(Oid { value: 2 }, no_image, Some(vec![question("p1")]));
    assert!(q.questions.is_empty());
}
