//! What an A2A task says: its state and the texts of its history.
use vstd::prelude::*;

use crate::json::{
    find_member, items_view, law_first_member_is_found, member, member_items, member_text,
    members_view, no_members, object, plain_key, put, put_text, reads_back, singleton, size, within,
    writable, Json, JsonView, MAX_LEVELS,
};
use crate::text::same_text;

verus! {

/// A task state from which no further work follows.
pub open spec fn terminal_state(state: Seq<char>) -> bool {
    ||| state == "completed"@
    ||| state == "failed"@
    ||| state == "canceled"@
    ||| state == "rejected"@
}

/// A task whose state is terminal.
pub open spec fn terminal_task(task: JsonView) -> bool {
    match member_text(task, "state"@) {
        Some(state) => terminal_state(state),
        None => false,
    }
}

/// Whether the task has reached a terminal state.
pub fn task_is_terminal(task: &Json) -> (terminal: bool)
    ensures
        terminal == terminal_task(task@),
{
    match task.get_text("state") {
        Some(state) => same_text(state.as_str(), "completed") || same_text(state.as_str(), "failed")
            || same_text(state.as_str(), "canceled") || same_text(state.as_str(), "rejected"),
        None => false,
    }
}

/// A message with a part whose text is exactly `expected`.
pub open spec fn message_says(message: JsonView, expected: Seq<char>) -> bool {
    match member_items(message, "parts"@) {
        Some(parts) => exists|i: int|
            0 <= i < parts.len() && member_text(#[trigger] parts[i], "text"@) == Some(expected),
        None => false,
    }
}

/// Messages of which at least one says exactly `expected`.
pub open spec fn some_message_says(messages: Seq<JsonView>, expected: Seq<char>) -> bool {
    exists|i: int| 0 <= i < messages.len() && message_says(#[trigger] messages[i], expected)
}

/// A task with a message that says exactly `expected`.
pub open spec fn task_says(task: JsonView, expected: Seq<char>) -> bool {
    match member_items(task, "messages"@) {
        Some(messages) => some_message_says(messages, expected),
        None => false,
    }
}

fn message_contains_text(message: &Json, expected: &str) -> (found: bool)
    ensures
        found == message_says(message@, expected@),
{
    let parts = match message.get_items("parts") {
        Some(parts) => parts,
        None => {
            return false;
        },
    };
    let ghost views = items_view(parts@);
    let mut i: usize = 0;
    while i < parts.len()
        invariant
            i <= parts@.len(),
            views == items_view(parts@),
            member_items(message@, "parts"@) == Some(views),
            forall|k: int|
                0 <= k < i ==> member_text(#[trigger] views[k], "text"@) != Some(expected@),
        decreases parts@.len() - i,
    {
        assert(views[i as int] == parts@[i as int]@);
        match parts[i].get_text("text") {
            Some(text) => {
                if same_text(text.as_str(), expected) {
                    return true;
                }
            },
            None => {},
        }
        i = i + 1;
    }
    false
}

/// Whether some message of the task has a part whose text is exactly `expected`.
pub fn task_contains_text(task: &Json, expected: &str) -> (found: bool)
    ensures
        found == task_says(task@, expected@),
{
    let messages = match task.get_items("messages") {
        Some(messages) => messages,
        None => {
            return false;
        },
    };
    let ghost views = items_view(messages@);
    let mut i: usize = 0;
    while i < messages.len()
        invariant
            i <= messages@.len(),
            views == items_view(messages@),
            member_items(task@, "messages"@) == Some(views),
            forall|k: int| 0 <= k < i ==> !message_says(#[trigger] views[k], expected@),
        decreases messages@.len() - i,
    {
        assert(views[i as int] == messages@[i as int]@);
        if message_contains_text(&messages[i], expected) {
            assert(message_says(views[i as int], expected@));
            assert(some_message_says(views, expected@));
            return true;
        }
        i = i + 1;
    }
    false
}

/// The body of a reply: its intent and its text as the only part.
pub open spec fn reply_message(intent: Seq<char>, text: Seq<char>) -> JsonView {
    JsonView::Object(
        seq![
            ("intent"@, JsonView::Text(intent)),
            (
                "parts"@,
                JsonView::Array(seq![JsonView::Object(seq![("text"@, JsonView::Text(text))])]),
            ),
        ],
    )
}

proof fn lemma_reply_reads_back(intent: Seq<char>, text: Seq<char>)
    ensures
        reads_back(reply_message(intent, text), MAX_LEVELS as nat),
{
    reveal_with_fuel(reads_back, 5);
    reveal_strlit("intent");
    reveal_strlit("parts");
    reveal_strlit("text");
    assert(plain_key("intent"@) && plain_key("parts"@) && plain_key("text"@));
}

/// Builds the body of a reply.
pub fn reply_body(intent: &str, text: &str) -> (body: Json)
    ensures
        body@ == reply_message(intent@, text@),
        writable(body@),
        reads_back(body@, MAX_LEVELS as nat),
{
    proof {
        reveal_strlit("intent");
        assert("intent"@.len() == 6);
        reveal_strlit("parts");
        assert("parts"@.len() == 5);
    }
    let mut part = no_members();
    put_text(&mut part, "text", text);
    let mut members = no_members();
    put_text(&mut members, "intent", intent);
    put(&mut members, "parts", singleton(object(part)));
    assert(members_view(members@) =~= reply_message(intent@, text@)->Object_0);
    proof {
        lemma_reply_reads_back(intent@, text@);
    }
    object(members)
}

/// A reply that a task has taken into its history is found there again.
pub proof fn law_posted_reply_is_recognised(
    task: JsonView,
    messages: Seq<JsonView>,
    i: int,
    intent: Seq<char>,
    text: Seq<char>,
)
    requires
        member_items(task, "messages"@) == Some(messages),
        0 <= i < messages.len(),
        messages[i] == reply_message(intent, text),
    ensures
        task_says(task, text),
{
    reveal_strlit("intent");
    reveal_strlit("parts");
    assert("intent"@.len() == 6 && "parts"@.len() == 5);
    reveal_with_fuel(find_member, 3);
    let members = messages[i]->Object_0;
    assert(members.drop_first()[0] == members[1]);
    let parts = members[1].1->Array_0;
    assert(member_items(messages[i], "parts"@) == Some(parts));
    assert(member_text(parts[0], "text"@) == Some(text));
    assert(message_says(messages[i], text));
}

/// A task is over exactly where its state is one of the four words for it; without a state in
/// words it is not.
pub proof fn law_four_states_are_terminal(task: JsonView, state: Seq<char>)
    requires
        member(task, "state"@) == Some(JsonView::Text(state)),
    ensures
        terminal_task(task) <==> state == "completed"@ || state == "failed"@ || state
            == "canceled"@ || state == "rejected"@,
{
}

/// A task whose state is missing or is not a text is not over.
pub proof fn law_task_without_state_goes_on(task: JsonView)
    requires
        !(member(task, "state"@) matches Some(JsonView::Text(_))),
    ensures
        !terminal_task(task),
{
}

/// A text that is said in a task is the whole text of one of its parts, character for character,
/// and every such text is said.
pub proof fn law_history_match_is_exact(task: JsonView, expected: Seq<char>)
    ensures
        task_says(task, expected) ==> exists|m: int, p: int|
            #[trigger] part_text(task, m, p) == Some(expected),
        forall|m: int, p: int| #[trigger]
            part_text(task, m, p) == Some(expected) ==> task_says(task, expected),
{
    if task_says(task, expected) {
        let messages = member_items(task, "messages"@)->0;
        let m = choose|m: int| 0 <= m < messages.len() && message_says(#[trigger] messages[m], expected);
        let parts = member_items(messages[m], "parts"@)->0;
        let p = choose|p: int|
            0 <= p < parts.len() && member_text(#[trigger] parts[p], "text"@) == Some(expected);
        assert(part_text(task, m, p) == Some(expected));
    }
    assert forall|m: int, p: int| #[trigger]
        part_text(task, m, p) == Some(expected) implies task_says(task, expected) by {
        let messages = member(task, "messages"@)->0->Array_0;
        let parts = member(messages[m], "parts"@)->0->Array_0;
        assert(member_text(parts[p], "text"@) == Some(expected));
        assert(message_says(messages[m], expected));
    }
}

/// The text of part `p` of message `m` of a task, where there is one.
pub open spec fn part_text(task: JsonView, m: int, p: int) -> Option<Seq<char>> {
    match member(task, "messages"@) {
        Some(JsonView::Array(messages)) => if 0 <= m < messages.len() {
            match member(messages[m], "parts"@) {
                Some(JsonView::Array(parts)) => if 0 <= p < parts.len() {
                    match member(parts[p], "text"@) {
                        Some(JsonView::Text(text)) => Some(text),
                        _ => None,
                    }
                } else {
                    None
                },
                _ => None,
            }
        } else {
            None
        },
        _ => None,
    }
}

/// Two texts that a task says in a single part are the same: a task with one message of one part
/// says the text of that part and no other.
pub proof fn law_single_part_says_its_text_alone(
    task: JsonView,
    message: JsonView,
    part: JsonView,
    text: Seq<char>,
    expected: Seq<char>,
)
    requires
        member(task, "messages"@) == Some(JsonView::Array(seq![message])),
        member(message, "parts"@) == Some(JsonView::Array(seq![part])),
        member(part, "text"@) == Some(JsonView::Text(text)),
    ensures
        task_says(task, expected) <==> text == expected,
{
    law_history_match_is_exact(task, expected);
    assert(part_text(task, 0, 0) == Some(text));
    if task_says(task, expected) {
        let (m, p) = choose|m: int, p: int| #[trigger] part_text(task, m, p) == Some(expected);
        assert(m == 0 && p == 0);
    }
}

/// A reply carries its intent, and its text as the only part, and nothing else.
pub proof fn law_reply_carries_intent_and_text(intent: Seq<char>, text: Seq<char>)
    ensures
        ({
            let body = Some(reply_message(intent, text));
            &&& size(body) == 2
            &&& within(body, "intent"@) == Some(JsonView::Text(intent))
            &&& within(body, "parts"@) matches Some(JsonView::Array(parts)) && {
                &&& parts.len() == 1
                &&& size(Some(parts[0])) == 1
                &&& member(parts[0], "text"@) == Some(JsonView::Text(text))
            }
        }),
{
    reveal_strlit("intent");
    reveal_strlit("parts");
    assert("intent"@.len() == 6 && "parts"@.len() == 5);
    let members = reply_message(intent, text)->Object_0;
    law_first_member_is_found(members, 0);
    law_first_member_is_found(members, 1);
    law_first_member_is_found(members[1].1->Array_0[0]->Object_0, 0);
}

} // verus!
