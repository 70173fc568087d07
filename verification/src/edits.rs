//! Board and quiz edits: the fields an update request overwrites.
use vstd::prelude::*;
use crate::records::{now_millis, Question, UpdateBoardData, UpdateQuizData};

verus! {

/// One field that an update sets. Every update sets the update time.
#[derive(Clone, Debug)]
pub enum FieldUpdate {
    /// The update time, in milliseconds since the Unix epoch.
    UpdatedAt(i64),
    Title(String),
    Description(String),
    Questions(Vec<Question>),
}

/// The title and description assignments that the optional fields ask for,
/// in that order.
pub open spec fn text_assignments(title: Option<String>, description: Option<String>) -> Seq<FieldUpdate> {
    (match title {
        Some(t) => seq![FieldUpdate::Title(t)],
        None => Seq::empty(),
    }) + (match description {
        Some(d) => seq![FieldUpdate::Description(d)],
        None => Seq::empty(),
    })
}

/// `fields` sets the title to `title`'s value when it has one, and to nothing
/// else: each title assignment in it carries that value.
pub open spec fn sets_title_exactly(fields: Seq<FieldUpdate>, title: Option<String>) -> bool {
    &&& forall|i: int| 0 <= i < fields.len() ==> (#[trigger] fields[i] matches FieldUpdate::Title(t) ==> title == Some(t))
    &&& title matches Some(t) ==> fields.contains(FieldUpdate::Title(t))
}

/// `fields` sets the description to `description`'s value when it has one,
/// and to nothing else.
pub open spec fn sets_description_exactly(fields: Seq<FieldUpdate>, description: Option<String>) -> bool {
    &&& forall|i: int| 0 <= i < fields.len() ==> (#[trigger] fields[i] matches FieldUpdate::Description(d) ==> description == Some(d))
    &&& description matches Some(d) ==> fields.contains(FieldUpdate::Description(d))
}

/// `fields` replaces the questions with `questions` when it has a value, and
/// with nothing else.
pub open spec fn sets_questions_exactly(fields: Seq<FieldUpdate>, questions: Option<Vec<Question>>) -> bool {
    &&& forall|i: int| 0 <= i < fields.len() ==> (#[trigger] fields[i] matches FieldUpdate::Questions(q) ==> questions == Some(q))
    &&& questions matches Some(q) ==> fields.contains(FieldUpdate::Questions(q))
}

/// `fields` sets the update time to `now`, and to nothing else.
pub open spec fn sets_time_exactly(fields: Seq<FieldUpdate>, now: i64) -> bool {
    &&& forall|i: int| 0 <= i < fields.len() ==> (#[trigger] fields[i] matches FieldUpdate::UpdatedAt(t) ==> t == now)
    &&& fields.contains(FieldUpdate::UpdatedAt(now))
}

/// The title and description assignments of an update carry the request's
/// own values, field by field: the title is set exactly when the request
/// gives one, and then to that title; the description likewise; nothing else
/// is set.
pub proof fn law_text_assignments_fields(title: Option<String>, description: Option<String>)
    ensures
        sets_title_exactly(text_assignments(title, description), title),
        sets_description_exactly(text_assignments(title, description), description),
        text_assignments(title, description).len()
            == (if title is Some { 1int } else { 0 }) + (if description is Some { 1int } else { 0 }),
        forall|i: int| 0 <= i < text_assignments(title, description).len() ==>
            (#[trigger] text_assignments(title, description)[i] is Title
                || text_assignments(title, description)[i] is Description),
{
    let s = text_assignments(title, description);
    match (title, description) {
        (Some(t), Some(d)) => {
            assert(s =~= seq![FieldUpdate::Title(t), FieldUpdate::Description(d)]);
            assert(s[0] == FieldUpdate::Title(t));
            assert(s[1] == FieldUpdate::Description(d));
        },
        (Some(t), None) => {
            assert(s =~= seq![FieldUpdate::Title(t)]);
            assert(s[0] == FieldUpdate::Title(t));
        },
        (None, Some(d)) => {
            assert(s =~= seq![FieldUpdate::Description(d)]);
            assert(s[0] == FieldUpdate::Description(d));
        },
        (None, None) => {
            assert(s =~= Seq::<FieldUpdate>::empty());
        },
    }
}

fn push_text_assignments(out: &mut Vec<FieldUpdate>, title: Option<String>, description: Option<String>)
    ensures
        final(out)@ == old(out)@ + text_assignments(title, description),
        final(out)@.len() == old(out)@.len() + (if title is Some { 1int } else { 0 }) + (if description is Some { 1int } else { 0 }),
        final(out)@.subrange(0, old(out)@.len() as int) == old(out)@,
        sets_title_exactly(final(out)@.subrange(old(out)@.len() as int, final(out)@.len() as int), title),
        sets_description_exactly(final(out)@.subrange(old(out)@.len() as int, final(out)@.len() as int), description),
        forall|i: int| old(out)@.len() <= i < final(out)@.len() ==>
            (#[trigger] final(out)@[i] is Title || final(out)@[i] is Description),
{
    let ghost start = out@;
    let ghost t0 = title;
    let ghost d0 = description;
    match title {
        Some(t) => out.push(FieldUpdate::Title(t)),
        None => {},
    }
    match description {
        Some(d) => out.push(FieldUpdate::Description(d)),
        None => {},
    }
    assert(out@ =~= start + text_assignments(t0, d0));
    assert(out@.subrange(0, start.len() as int) =~= start);
    assert(out@.subrange(start.len() as int, out@.len() as int) =~= text_assignments(t0, d0));
    proof {
        law_text_assignments_fields(t0, d0);
    }
}

/// The fields a board update with these optional fields sets at time `now`:
/// the update time first, then the fields the request gives.
pub open spec fn board_assignments(title: Option<String>, description: Option<String>, now: i64) -> Seq<FieldUpdate> {
    seq![FieldUpdate::UpdatedAt(now)] + text_assignments(title, description)
}

/// The fields a quiz update sets at time `now`: the update time, the title
/// and description it gives, and its questions, which replace the whole set.
pub open spec fn quiz_assignments(
    title: Option<String>,
    description: Option<String>,
    questions: Option<Vec<Question>>,
    now: i64,
) -> Seq<FieldUpdate> {
    board_assignments(title, description, now) + match questions {
        Some(q) => seq![FieldUpdate::Questions(q)],
        None => Seq::<FieldUpdate>::empty(),
    }
}

proof fn lemma_contains_after_push(s: Seq<FieldUpdate>, x: FieldUpdate)
    ensures
        forall|y: FieldUpdate| s.contains(y) ==> #[trigger] s.push(x).contains(y),
{
    assert forall|y: FieldUpdate| s.contains(y) implies #[trigger] s.push(x).contains(y) by {
        let k = choose|k: int| 0 <= k < s.len() && s[k] == y;
        assert(s.push(x)[k] == y);
    }
}

/// What the update time followed by the title and description assignments
/// sets, field by field.
proof fn lemma_time_then_text(fields: Seq<FieldUpdate>, title: Option<String>, description: Option<String>, now: i64)
    requires
        fields == board_assignments(title, description, now),
    ensures
        fields[0] == FieldUpdate::UpdatedAt(now),
        sets_time_exactly(fields, now),
        sets_title_exactly(fields, title),
        sets_description_exactly(fields, description),
        forall|i: int| 0 <= i < fields.len() ==> !(#[trigger] fields[i] is Questions),
        fields.len() == 1 + (if title is Some { 1int } else { 0 }) + (if description is Some { 1int } else { 0 }),
{
    let text = text_assignments(title, description);
    law_text_assignments_fields(title, description);
    assert(fields[0] == FieldUpdate::UpdatedAt(now));
    assert forall|i: int| 1 <= i < fields.len() implies #[trigger] fields[i] == text[i - 1] by {}
    assert forall|i: int| 0 <= i < fields.len() implies
        (#[trigger] fields[i] matches FieldUpdate::UpdatedAt(t) ==> t == now) by {
        if i >= 1 {
            assert(fields[i] == text[i - 1]);
        }
    }
    assert forall|i: int| 0 <= i < fields.len() implies !(#[trigger] fields[i] is Questions) by {
        if i >= 1 {
            assert(fields[i] == text[i - 1]);
        }
    }
    assert forall|i: int| 0 <= i < fields.len() implies
        (#[trigger] fields[i] matches FieldUpdate::Title(t) ==> title == Some(t)) by {
        if i >= 1 {
            assert(fields[i] == text[i - 1]);
        }
    }
    assert forall|i: int| 0 <= i < fields.len() implies
        (#[trigger] fields[i] matches FieldUpdate::Description(d) ==> description == Some(d)) by {
        if i >= 1 {
            assert(fields[i] == text[i - 1]);
        }
    }
    assert(fields.contains(FieldUpdate::UpdatedAt(now)));
    if let Some(t) = title {
        let k = choose|k: int| 0 <= k < text.len() && text[k] == FieldUpdate::Title(t);
        assert(fields[k + 1] == FieldUpdate::Title(t));
    }
    if let Some(d) = description {
        let k = choose|k: int| 0 <= k < text.len() && text[k] == FieldUpdate::Description(d);
        assert(fields[k + 1] == FieldUpdate::Description(d));
    }
}

impl UpdateBoardData {
    /// The fields a board update made at time `now` sets: the update time,
    /// then exactly the fields the request gives.
    pub fn assignments_at(self, now: i64) -> (fields: Vec<FieldUpdate>)
        ensures
            fields@ == board_assignments(self.title, self.description, now),
            fields@[0] == FieldUpdate::UpdatedAt(now),
            sets_time_exactly(fields@, now),
            sets_title_exactly(fields@, self.title),
            sets_description_exactly(fields@, self.description),
            forall|i: int| 0 <= i < fields@.len() ==> !(#[trigger] fields@[i] is Questions),
            fields@.len() == 1 + (if self.title is Some { 1int } else { 0 })
                + (if self.description is Some { 1int } else { 0 }),
    {
        let ghost title = self.title;
        let ghost description = self.description;
        let mut out: Vec<FieldUpdate> = Vec::new();
        out.push(FieldUpdate::UpdatedAt(now));
        push_text_assignments(&mut out, self.title, self.description);
        assert(out@ =~= board_assignments(title, description, now));
        proof {
            lemma_time_then_text(out@, title, description, now);
        }
        out
    }

    /// The fields a board update made now sets: the update time, then exactly
    /// the fields the request gives.
    pub fn assignments(self) -> (fields: Vec<FieldUpdate>)
        ensures
            exists|now: i64| fields@ == board_assignments(self.title, self.description, now),
    {
        let now = now_millis();
        self.assignments_at(now)
    }
}

impl UpdateQuizData {
    /// The fields a quiz update made at time `now` sets: the update time,
    /// then exactly the fields the request gives; new questions replace the
    /// whole set.
    pub fn assignments_at(self, now: i64) -> (fields: Vec<FieldUpdate>)
        ensures
            fields@ == quiz_assignments(self.title, self.description, self.questions, now),
            fields@[0] == FieldUpdate::UpdatedAt(now),
            sets_time_exactly(fields@, now),
            sets_title_exactly(fields@, self.title),
            sets_description_exactly(fields@, self.description),
            sets_questions_exactly(fields@, self.questions),
            fields@.len() == 1 + (if self.title is Some { 1int } else { 0 })
                + (if self.description is Some { 1int } else { 0 })
                + (if self.questions is Some { 1int } else { 0 }),
    {
        let ghost title = self.title;
        let ghost description = self.description;
        let ghost questions = self.questions;
        let mut out: Vec<FieldUpdate> = Vec::new();
        out.push(FieldUpdate::UpdatedAt(now));
        push_text_assignments(&mut out, self.title, self.description);
        let ghost text = out@;
        proof {
            lemma_time_then_text(text, title, description, now);
        }
        match self.questions {
            Some(q) => out.push(FieldUpdate::Questions(q)),
            None => {},
        }
        assert(out@ =~= quiz_assignments(title, description, questions, now));
        proof {
            match questions {
                Some(q) => {
                    assert(out@ =~= text.push(FieldUpdate::Questions(q)));
                    assert(out@[text.len() as int] == FieldUpdate::Questions(q));
                    assert forall|i: int| 0 <= i < out@.len() implies
                        (#[trigger] out@[i] matches FieldUpdate::Title(t) ==> title == Some(t)) by {
                        if i < text.len() {
                            assert(out@[i] == text[i]);
                        }
                    }
                    assert forall|i: int| 0 <= i < out@.len() implies
                        (#[trigger] out@[i] matches FieldUpdate::Description(d) ==> description == Some(d)) by {
                        if i < text.len() {
                            assert(out@[i] == text[i]);
                        }
                    }
                    assert forall|i: int| 0 <= i < out@.len() implies
                        (#[trigger] out@[i] matches FieldUpdate::UpdatedAt(t) ==> t == now) by {
                        if i < text.len() {
                            assert(out@[i] == text[i]);
                        }
                    }
                    assert forall|i: int| 0 <= i < out@.len() implies
                        (#[trigger] out@[i] matches FieldUpdate::Questions(p) ==> questions == Some(p)) by {
                        if i < text.len() {
                            assert(out@[i] == text[i]);
                        }
                    }
                    lemma_contains_after_push(text, FieldUpdate::Questions(q));
                },
                None => {
                    assert(out@ =~= text);
                },
            }
        }
        out
    }

    /// The fields a quiz update made now sets: the update time, then exactly
    /// the fields the request gives.
    pub fn assignments(self) -> (fields: Vec<FieldUpdate>)
        ensures
            exists|now: i64| fields@ == quiz_assignments(self.title, self.description, self.questions, now),
    {
        let now = now_millis();
        self.assignments_at(now)
    }
}

} // verus!
