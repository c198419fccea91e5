//! A reply to an A2A task, from the first look at the task to its delivery.
use vstd::prelude::*;

use crate::clock::TaskStarts;
use crate::json::{
    json_text, parse_json_bytes, parsed_bytes, parsed_json, render_json, Json, JsonView,
};
use crate::task::{
    law_history_match_is_exact, part_text, reply_body, reply_message, task_contains_text,
    task_is_terminal, task_says, terminal_task,
};
use crate::text::same_text;

verus! {

/// How often a reply is tried.
pub const A2A_REPLY_ATTEMPTS: usize = 3;

/// `uuid::Error`, the refusal of a UUID.
#[verifier::external_type_specification]
#[verifier::external_body]
pub struct ExUuidError(uuid::Error);

/// A hexadecimal digit of either case.
pub open spec fn hex(c: char) -> bool {
    '0' <= c <= '9' || 'a' <= c <= 'f' || 'A' <= c <= 'F'
}

/// Thirty-two hexadecimal digits in five groups, with hyphens between them.
pub open spec fn hyphenated_uuid(text: Seq<char>) -> bool {
    &&& text.len() == 36
    &&& forall|i: int|
        0 <= i < 36 ==> if i == 8 || i == 13 || i == 18 || i == 23 {
            #[trigger] text[i] == '-'
        } else {
            hex(text[i])
        }
}

/// `urn:uuid:`, in letters of either case.
pub open spec fn urn_prefix(text: Seq<char>) -> bool {
    &&& text.len() == 9
    &&& text[0] == 'u' || text[0] == 'U'
    &&& text[1] == 'r' || text[1] == 'R'
    &&& text[2] == 'n' || text[2] == 'N'
    &&& text[3] == ':'
    &&& text[4] == 'u' || text[4] == 'U'
    &&& text[5] == 'u' || text[5] == 'U'
    &&& text[6] == 'i' || text[6] == 'I'
    &&& text[7] == 'd' || text[7] == 'D'
    &&& text[8] == ':'
}

/// A UUID in one of its four spellings: plain digits, hyphenated, in braces, or as a URN.
pub open spec fn uuid_text(text: Seq<char>) -> bool {
    ||| text.len() == 32 && forall|i: int| 0 <= i < 32 ==> hex(#[trigger] text[i])
    ||| hyphenated_uuid(text)
    ||| {
        &&& text.len() == 38
        &&& text[0] == '{'
        &&& text[37] == '}'
        &&& hyphenated_uuid(text.subrange(1, 37))
    }
    ||| {
        &&& text.len() == 45
        &&& urn_prefix(text.subrange(0, 9))
        &&& hyphenated_uuid(text.subrange(9, 45))
    }
}

/// Calls `uuid::Uuid::parse_str`, which accepts a UUID in each of its four spellings and nothing
/// else.
#[verifier::external_body]
fn check_uuid(text: &str) -> (checked: Result<(), uuid::Error>)
    ensures
        checked is Ok <==> uuid_text(text@),
{
    uuid::Uuid::parse_str(text).map(|_| ())
}

/// How a progress report or a reply went.
#[derive(Debug, Clone, Copy, PartialEq, Eq, Structural)]
pub enum WorkerProgressDisposition {
    /// It was delivered, now or earlier.
    Sent,
    /// The task had already ended.
    AlreadyTerminal,
}

/// What a reply waits for.
#[derive(Debug, Clone, Copy, PartialEq, Eq, Structural)]
pub enum ReplyPhase {
    /// The task is being fetched.
    Fetching,
    /// The reply is being posted.
    Posting,
    /// The next attempt is held back.
    Waiting,
    /// The reply has come to an end.
    Done(WorkerProgressDisposition),
    /// Every attempt has failed.
    Failed,
}

/// A reply under way.
pub struct ReplyRun {
    pub task_id: String,
    pub intent: String,
    pub text: String,
    /// The attempts that came before the present one.
    pub attempt: usize,
    pub phase: ReplyPhase,
    /// How the last post failed.
    pub last_error: Option<String>,
}

/// What a reply under way is.
pub struct ReplyView {
    pub task_id: Seq<char>,
    pub intent: Seq<char>,
    pub text: Seq<char>,
    pub attempt: int,
    pub phase: ReplyPhase,
    pub last_error: Option<Seq<char>>,
}

/// What a reply that waits is told.
pub enum ReplyEvent {
    /// The fetch is over, with the task if that could be had and read.
    Fetched(Option<JsonView>),
    /// The post was accepted.
    Accepted,
    /// The post failed.
    Refused(Seq<char>),
    /// The next attempt may begin.
    Waited,
}

/// What is to be done next for a reply.
#[derive(Debug, Clone, Copy, PartialEq, Eq, Structural)]
pub enum ReplyAction {
    FetchTask,
    PostReply,
    /// Let this many milliseconds pass.
    Wait(u64),
    Finish(WorkerProgressDisposition),
    GiveUp,
}

impl View for ReplyRun {
    type V = ReplyView;

    open spec fn view(&self) -> ReplyView {
        ReplyView {
            task_id: self.task_id@,
            intent: self.intent@,
            text: self.text@,
            attempt: self.attempt as int,
            phase: self.phase,
            last_error: match self.last_error {
                Some(error) => Some(error@),
                None => None,
            },
        }
    }
}

/// An intent that ends the task.
pub open spec fn final_intent(intent: Seq<char>) -> bool {
    intent == "complete"@ || intent == "fail"@
}

/// A progress report on a task that has already ended.
pub open spec fn too_late(intent: Seq<char>, task: JsonView) -> bool {
    intent == "progress"@ && terminal_task(task)
}

impl ReplyView {
    /// The attempts are counted, and another one is left where the reply waits for it.
    pub open spec fn wf(self) -> bool {
        &&& 0 <= self.attempt < A2A_REPLY_ATTEMPTS
        &&& self.phase is Waiting ==> self.attempt + 1 < A2A_REPLY_ATTEMPTS
    }

    /// The reply in another phase.
    pub open spec fn to(self, phase: ReplyPhase) -> ReplyView {
        ReplyView { phase, ..self }
    }

    /// What becomes of the reply when it is told `event`. What it does not wait for changes
    /// nothing.
    pub open spec fn step(self, event: ReplyEvent) -> ReplyView {
        match (self.phase, event) {
            (ReplyPhase::Fetching, ReplyEvent::Fetched(Some(task))) => if too_late(self.intent, task) {
                self.to(ReplyPhase::Done(WorkerProgressDisposition::AlreadyTerminal))
            } else if task_says(task, self.text) {
                self.to(ReplyPhase::Done(WorkerProgressDisposition::Sent))
            } else {
                self.to(ReplyPhase::Posting)
            },
            (ReplyPhase::Fetching, ReplyEvent::Fetched(None)) => self.to(ReplyPhase::Posting),
            (ReplyPhase::Posting, ReplyEvent::Accepted) => self.to(
                ReplyPhase::Done(WorkerProgressDisposition::Sent),
            ),
            (ReplyPhase::Posting, ReplyEvent::Refused(error)) => {
                let failed = ReplyView { last_error: Some(error), ..self };
                if self.attempt + 1 < A2A_REPLY_ATTEMPTS {
                    failed.to(ReplyPhase::Waiting)
                } else {
                    failed.to(ReplyPhase::Failed)
                }
            },
            (ReplyPhase::Waiting, ReplyEvent::Waited) => ReplyView {
                attempt: self.attempt + 1,
                ..self.to(ReplyPhase::Fetching)
            },
            _ => self,
        }
    }

    /// Whether the task's clock stops when the reply is told `event`: the task is found to have
    /// ended, or this reply ends it.
    pub open spec fn stops_clock(self, event: ReplyEvent) -> bool {
        match self.step(event).phase {
            ReplyPhase::Done(WorkerProgressDisposition::AlreadyTerminal) => !self.finished(),
            ReplyPhase::Done(WorkerProgressDisposition::Sent) => !self.finished() && final_intent(
                self.intent,
            ),
            _ => false,
        }
    }

    /// Nothing is left to be done.
    pub open spec fn finished(self) -> bool {
        self.phase is Done || self.phase is Failed
    }

    /// What is to be done next.
    pub open spec fn action(self) -> ReplyAction {
        match self.phase {
            ReplyPhase::Fetching => ReplyAction::FetchTask,
            ReplyPhase::Posting => ReplyAction::PostReply,
            ReplyPhase::Waiting => ReplyAction::Wait((250 * (self.attempt + 1)) as u64),
            ReplyPhase::Done(disposition) => ReplyAction::Finish(disposition),
            ReplyPhase::Failed => ReplyAction::GiveUp,
        }
    }

    /// The starts of the running tasks once the reply has been told `event`.
    pub open spec fn starts_after(
        self,
        event: ReplyEvent,
        starts: Map<Seq<char>, u128>,
    ) -> Map<Seq<char>, u128> {
        if self.stops_clock(event) {
            starts.remove(self.task_id)
        } else {
            starts
        }
    }
}

/// Why a reply cannot begin.
pub enum ReplyError {
    /// The task id is not a UUID.
    InvalidTaskId(uuid::Error),
}

impl ReplyError {
    /// The words of the error.
    pub open spec fn words(self) -> Seq<char> {
        match self {
            ReplyError::InvalidTaskId(_) => "invalid inbound A2A task id"@,
        }
    }

    /// The words of the error.
    pub fn message(&self) -> (text: String)
        ensures
            text@ == self.words(),
    {
        match self {
            ReplyError::InvalidTaskId(_) => "invalid inbound A2A task id".to_owned(),
        }
    }
}

impl ReplyRun {
    /// The attempts are counted.
    pub open spec fn wf(self) -> bool {
        self@.wf()
    }

    /// Begins a reply to a task with a look at the task.
    pub fn begin(task_id: &str, intent: &str, text: &str) -> (run: Result<ReplyRun, ReplyError>)
        ensures
            match run {
                Ok(r) => {
                    &&& uuid_text(task_id@)
                    &&& r.wf()
                    &&& r@ == (ReplyView {
                        task_id: task_id@,
                        intent: intent@,
                        text: text@,
                        attempt: 0,
                        phase: ReplyPhase::Fetching,
                        last_error: None,
                    })
                },
                Err(error) => {
                    &&& !uuid_text(task_id@)
                    &&& error.words() == "invalid inbound A2A task id"@
                },
            },
    {
        match check_uuid(task_id) {
            Ok(_) => Ok(
                ReplyRun {
                    task_id: task_id.to_owned(),
                    intent: intent.to_owned(),
                    text: text.to_owned(),
                    attempt: 0,
                    phase: ReplyPhase::Fetching,
                    last_error: None,
                },
            ),
            Err(error) => Err(ReplyError::InvalidTaskId(error)),
        }
    }

    /// What is to be done next.
    pub fn action(&self) -> (action: ReplyAction)
        requires
            self.wf(),
        ensures
            action == self@.action(),
    {
        match self.phase {
            ReplyPhase::Fetching => ReplyAction::FetchTask,
            ReplyPhase::Posting => ReplyAction::PostReply,
            ReplyPhase::Waiting => ReplyAction::Wait(250 * (self.attempt as u64 + 1)),
            ReplyPhase::Done(disposition) => ReplyAction::Finish(disposition),
            ReplyPhase::Failed => ReplyAction::GiveUp,
        }
    }

    /// The body that is posted.
    pub fn body_text(&self) -> (body: String)
        ensures
            body@ == json_text(reply_message(self.intent@, self.text@)),
            parsed_json(body@) == Some(reply_message(self.intent@, self.text@)),
    {
        render_json(&reply_body(self.intent.as_str(), self.text.as_str()))
    }

    /// Whether the intent ends the task.
    fn ends_task(&self) -> (ends: bool)
        ensures
            ends == final_intent(self.intent@),
    {
        same_text(self.intent.as_str(), "complete") || same_text(self.intent.as_str(), "fail")
    }

    /// Tells the reply that the fetch is over, with the task if that could be had.
    pub fn fetched(&mut self, task: Option<&Json>, starts: &mut TaskStarts)
        requires
            old(self).wf(),
        ensures
            final(self).wf(),
            final(self)@ == old(self)@.step(ReplyEvent::Fetched(task_view(task))),
            final(starts)@ == old(self)@.starts_after(
                ReplyEvent::Fetched(task_view(task)),
                old(starts)@,
            ),
            final(starts).origin() == old(starts).origin(),
    {
        if self.phase != ReplyPhase::Fetching {
            return;
        }
        match task {
            Some(task) => {
                if same_text(self.intent.as_str(), "progress") && task_is_terminal(task) {
                    starts.stop(self.task_id.as_str());
                    self.phase = ReplyPhase::Done(WorkerProgressDisposition::AlreadyTerminal);
                } else if task_contains_text(task, self.text.as_str()) {
                    if self.ends_task() {
                        starts.stop(self.task_id.as_str());
                    }
                    self.phase = ReplyPhase::Done(WorkerProgressDisposition::Sent);
                } else {
                    self.phase = ReplyPhase::Posting;
                }
            },
            None => {
                self.phase = ReplyPhase::Posting;
            },
        }
    }

    /// Tells the reply that the fetch is over, with the body of the answer if there was one. A
    /// body that is not JSON counts as none.
    pub fn fetched_body(&mut self, body: Option<&[u8]>, starts: &mut TaskStarts)
        requires
            old(self).wf(),
        ensures
            final(self).wf(),
            final(self)@ == old(self)@.step(ReplyEvent::Fetched(body_task(body))),
            final(starts)@ == old(self)@.starts_after(
                ReplyEvent::Fetched(body_task(body)),
                old(starts)@,
            ),
            final(starts).origin() == old(starts).origin(),
    {
        match body {
            Some(bytes) => {
                match parse_json_bytes(bytes) {
                    Some(task) => self.fetched(Some(&task), starts),
                    None => self.fetched(None, starts),
                }
            },
            None => self.fetched(None, starts),
        }
    }

    /// Tells the reply how the post went.
    pub fn posted(&mut self, result: Result<(), String>, starts: &mut TaskStarts)
        requires
            old(self).wf(),
        ensures
            final(self).wf(),
            final(self)@ == old(self)@.step(post_event(result)),
            final(starts)@ == old(self)@.starts_after(post_event(result), old(starts)@),
            final(starts).origin() == old(starts).origin(),
    {
        if self.phase != ReplyPhase::Posting {
            return;
        }
        match result {
            Ok(_) => {
                if self.ends_task() {
                    starts.stop(self.task_id.as_str());
                }
                self.phase = ReplyPhase::Done(WorkerProgressDisposition::Sent);
            },
            Err(error) => {
                self.last_error = Some(error);
                if self.attempt + 1 < A2A_REPLY_ATTEMPTS {
                    self.phase = ReplyPhase::Waiting;
                } else {
                    self.phase = ReplyPhase::Failed;
                }
            },
        }
    }

    /// Tells the reply that the next attempt may begin.
    pub fn waited(&mut self)
        requires
            old(self).wf(),
        ensures
            final(self).wf(),
            final(self)@ == old(self)@.step(ReplyEvent::Waited),
    {
        if self.phase == ReplyPhase::Waiting {
            self.attempt = self.attempt + 1;
            self.phase = ReplyPhase::Fetching;
        }
    }

    /// What the failure of the last post was.
    pub fn failure(&self) -> (error: String)
        ensures
            error@ == match self@.last_error {
                Some(last) => last,
                None => "send A2A task reply"@,
            },
    {
        match &self.last_error {
            Some(error) => error.clone(),
            None => "send A2A task reply".to_owned(),
        }
    }
}

/// The view of a task that may be missing.
pub open spec fn task_view(task: Option<&Json>) -> Option<JsonView> {
    match task {
        Some(task) => Some(task@),
        None => None,
    }
}

/// The task in the body of an answer that may be missing.
pub open spec fn body_task(body: Option<&[u8]>) -> Option<JsonView> {
    match body {
        Some(bytes) => parsed_bytes(bytes@),
        None => None,
    }
}

/// What the result of a post tells.
pub open spec fn post_event(result: Result<(), String>) -> ReplyEvent {
    match result {
        Ok(_) => ReplyEvent::Accepted,
        Err(error) => ReplyEvent::Refused(error@),
    }
}

impl ReplyView {
    /// What becomes of the reply when it is told one thing after the other.
    pub open spec fn after(self, events: Seq<ReplyEvent>) -> ReplyView
        decreases events.len(),
    {
        if events.len() == 0 {
            self
        } else {
            self.step(events[0]).after(events.drop_first())
        }
    }

    /// Whether `event` is what the reply waits for.
    pub open spec fn awaits(self, event: ReplyEvent) -> bool {
        match self.phase {
            ReplyPhase::Fetching => event is Fetched,
            ReplyPhase::Posting => event is Accepted || event is Refused,
            ReplyPhase::Waiting => event is Waited,
            _ => false,
        }
    }

    /// Whether the reply is told what it waits for, each time until it has finished.
    pub open spec fn answered(self, events: Seq<ReplyEvent>) -> bool
        decreases events.len(),
    {
        events.len() == 0 || self.finished() || {
            &&& self.awaits(events[0])
            &&& self.step(events[0]).answered(events.drop_first())
        }
    }

    /// How many posts are made while the reply is told one thing after the other.
    pub open spec fn posts_made(self, events: Seq<ReplyEvent>) -> nat
        decreases events.len(),
    {
        if events.len() == 0 {
            0
        } else {
            let made: nat = if self.phase is Posting && self.awaits(events[0]) {
                1
            } else {
                0
            };
            made + self.step(events[0]).posts_made(events.drop_first())
        }
    }

    /// How many milliseconds are let pass while the reply is told one thing after the other.
    pub open spec fn millis_waited(self, events: Seq<ReplyEvent>) -> int
        decreases events.len(),
    {
        if events.len() == 0 {
            0
        } else {
            let waited: int = if self.phase is Waiting && self.awaits(events[0]) {
                250 * (self.attempt + 1)
            } else {
                0
            };
            waited + self.step(events[0]).millis_waited(events.drop_first())
        }
    }

    /// How many posts can still be made.
    spec fn posts_left(self) -> int {
        match self.phase {
            ReplyPhase::Fetching => A2A_REPLY_ATTEMPTS - self.attempt,
            ReplyPhase::Posting => A2A_REPLY_ATTEMPTS - self.attempt,
            ReplyPhase::Waiting => A2A_REPLY_ATTEMPTS - self.attempt - 1,
            _ => 0,
        }
    }

    /// How many answers can still be awaited.
    spec fn answers_left(self) -> int {
        match self.phase {
            ReplyPhase::Fetching => 3 * (A2A_REPLY_ATTEMPTS - self.attempt) - 1,
            ReplyPhase::Posting => 3 * (A2A_REPLY_ATTEMPTS - self.attempt) - 2,
            ReplyPhase::Waiting => 3 * (A2A_REPLY_ATTEMPTS - self.attempt) - 3,
            _ => 0,
        }
    }

    /// How many milliseconds can still be let pass.
    spec fn millis_left(self) -> int {
        match self.phase {
            ReplyPhase::Failed => 0,
            ReplyPhase::Done(_) => 0,
            _ => if self.attempt == 0 {
                750
            } else if self.attempt == 1 {
                500
            } else {
                0
            },
        }
    }
}

/// The attempts of a reply stay counted, whatever it is told.
pub proof fn law_step_keeps_wf(run: ReplyView, event: ReplyEvent)
    requires
        run.wf(),
    ensures
        run.step(event).wf(),
{
}

/// A reply that has finished is never taken up again: whatever it is told changes nothing and
/// posts nothing.
pub proof fn law_finished_is_final(run: ReplyView, events: Seq<ReplyEvent>)
    requires
        run.finished(),
    ensures
        run.after(events) == run,
        run.posts_made(events) == 0,
    decreases events.len(),
{
    if events.len() > 0 {
        law_finished_is_final(run.step(events[0]), events.drop_first());
    }
}

proof fn lemma_posts_bounded(run: ReplyView, events: Seq<ReplyEvent>)
    requires
        run.wf(),
    ensures
        run.posts_made(events) <= run.posts_left(),
    decreases events.len(),
{
    if events.len() > 0 {
        lemma_posts_bounded(run.step(events[0]), events.drop_first());
    }
}

/// A reply is posted at most as often as there are attempts.
pub proof fn law_posts_are_bounded(run: ReplyView, events: Seq<ReplyEvent>)
    requires
        run.wf(),
    ensures
        run.posts_made(events) <= A2A_REPLY_ATTEMPTS - run.attempt,
{
    lemma_posts_bounded(run, events);
}

/// A post is never owed but after a look at the task in the same attempt, and only where the task
/// could not be had, or was neither over for a progress report nor already said what the reply
/// says.
pub proof fn law_every_post_follows_a_fetch(run: ReplyView, event: ReplyEvent)
    requires
        !(run.phase is Posting),
        run.step(event).phase is Posting,
    ensures
        run.phase is Fetching,
        run.step(event).attempt == run.attempt,
        event matches ReplyEvent::Fetched(seen) && match seen {
            Some(task) => !too_late(run.intent, task) && !task_says(task, run.text),
            None => true,
        },
{
}

/// A reply that the task already holds counts as sent and is not posted, then or later. The
/// exception is a progress report on a task that is over.
pub proof fn law_accepted_reply_is_not_posted_again(
    run: ReplyView,
    task: JsonView,
    later: Seq<ReplyEvent>,
)
    requires
        run.phase is Fetching,
        task_says(task, run.text),
        !too_late(run.intent, task),
    ensures
        run.step(ReplyEvent::Fetched(Some(task))).phase == ReplyPhase::Done(
            WorkerProgressDisposition::Sent,
        ),
        run.step(ReplyEvent::Fetched(Some(task))).posts_made(later) == 0,
{
    law_finished_is_final(run.step(ReplyEvent::Fetched(Some(task))), later);
}

/// A progress report on a task that is over is not posted, then or later: it ends with
/// `AlreadyTerminal`, and the task's clock stops. This holds also where the task already says
/// what the report says.
pub proof fn law_late_progress_is_not_posted(
    run: ReplyView,
    task: JsonView,
    later: Seq<ReplyEvent>,
)
    requires
        run.phase is Fetching,
        run.intent == "progress"@,
        terminal_task(task),
    ensures
        run.step(ReplyEvent::Fetched(Some(task))).phase == ReplyPhase::Done(
            WorkerProgressDisposition::AlreadyTerminal,
        ),
        run.step(ReplyEvent::Fetched(Some(task))).posts_made(later) == 0,
        run.stops_clock(ReplyEvent::Fetched(Some(task))),
{
    law_finished_is_final(run.step(ReplyEvent::Fetched(Some(task))), later);
}

proof fn lemma_answers_bounded(run: ReplyView, events: Seq<ReplyEvent>)
    requires
        run.wf(),
        run.answered(events),
        events.len() >= run.answers_left(),
    ensures
        run.after(events).finished(),
    decreases events.len(),
{
    if run.finished() {
        law_finished_is_final(run, events);
    } else {
        lemma_answers_bounded(run.step(events[0]), events.drop_first());
    }
}

/// A reply comes to an end: three fetches, three posts and the two waits between them are all
/// that it can wait for.
pub proof fn law_reply_ends(run: ReplyView, events: Seq<ReplyEvent>)
    requires
        run.wf(),
        run.answered(events),
        events.len() >= 3 * A2A_REPLY_ATTEMPTS - 1,
    ensures
        run.after(events).finished(),
{
    lemma_answers_bounded(run, events);
}

proof fn lemma_waits_bounded(run: ReplyView, events: Seq<ReplyEvent>)
    requires
        run.wf(),
    ensures
        0 <= run.millis_waited(events) <= run.millis_left(),
    decreases events.len(),
{
    if events.len() > 0 {
        lemma_waits_bounded(run.step(events[0]), events.drop_first());
    }
}

/// The waits between attempts grow, a quarter of a second and then half a second, so a reply is
/// held back for at most three quarters of a second.
pub proof fn law_waits_are_bounded(run: ReplyView, events: Seq<ReplyEvent>)
    requires
        run.wf(),
    ensures
        run.millis_waited(events) <= 750,
        run.phase is Waiting ==> run.action() == ReplyAction::Wait(
            if run.attempt == 0 {
                250
            } else {
                500
            },
        ),
{
    lemma_waits_bounded(run, events);
}

/// The clock of a task stops exactly where a reply that has not finished finds the task over for
/// a progress report, or is sent with an intent that ends the task. A report of progress that is
/// sent, and a post that fails, leave it running.
pub proof fn law_clock_stops_with_the_task(
    run: ReplyView,
    event: ReplyEvent,
    starts: Map<Seq<char>, u128>,
)
    ensures
        run.stops_clock(event) ==> run.step(event).phase is Done,
        event is Refused ==> run.starts_after(event, starts) == starts,
        !run.finished() && run.step(event).phase == ReplyPhase::Done(
            WorkerProgressDisposition::AlreadyTerminal,
        ) ==> !run.starts_after(event, starts).contains_key(run.task_id),
        !run.finished() && run.step(event).phase == ReplyPhase::Done(WorkerProgressDisposition::Sent)
            ==> run.starts_after(event, starts) == if final_intent(run.intent) {
            starts.remove(run.task_id)
        } else {
            starts
        },
        forall|other: Seq<char>|
            other != run.task_id && starts.contains_key(other) ==> (#[trigger] run.starts_after(
                event,
                starts,
            ).contains_key(other)) && run.starts_after(event, starts)[other] == starts[other],
{
}

/// A reply that gives up reports how its last post failed.
pub proof fn law_failure_is_the_last_one(run: ReplyView, error: Seq<char>)
    requires
        run.wf(),
        run.phase is Posting,
    ensures
        run.step(ReplyEvent::Refused(error)).last_error == Some(error),
        run.step(ReplyEvent::Refused(error)).phase is Failed <==> run.attempt
            == A2A_REPLY_ATTEMPTS - 1,
{
}

/// The view of a reply keeps all that the reply holds.
pub proof fn law_reply_view_keeps_everything(run: ReplyRun)
    ensures
        run@.task_id == run.task_id@,
        run@.intent == run.intent@,
        run@.text == run.text@,
        run@.attempt == run.attempt,
        run@.phase == run.phase,
        run.last_error is None <==> run@.last_error is None,
        run.last_error matches Some(error) ==> run@.last_error == Some(error@),
{
}

/// A look at the task decides what becomes of a reply, in every attempt alike. A progress report on
/// a task that is over ends there; a reply that some part of the history is, word for word, counts
/// as sent; and every other reply is posted.
pub proof fn law_fetch_decides(run: ReplyView, task: JsonView)
    requires
        run.phase is Fetching,
    ensures
        ({
            let next = run.step(ReplyEvent::Fetched(Some(task))).phase;
            let late = run.intent == "progress"@ && terminal_task(task);
            let held = exists|m: int, p: int| #[trigger] part_text(task, m, p) == Some(run.text);
            &&& late <==> next == ReplyPhase::Done(WorkerProgressDisposition::AlreadyTerminal)
            &&& !late && held <==> next == ReplyPhase::Done(WorkerProgressDisposition::Sent)
            &&& !late && !held <==> next == ReplyPhase::Posting
        }),
{
    law_history_match_is_exact(task, run.text);
}

/// A reply whose task could not be had is posted, in every attempt alike.
pub proof fn law_missing_task_is_posted_to(run: ReplyView)
    requires
        run.phase is Fetching,
    ensures
        run.step(ReplyEvent::Fetched(None)).phase == ReplyPhase::Posting,
{
}

/// A post that is accepted ends the reply as sent. One that fails is followed by a wait, and after
/// that by another look at the task in the next attempt, until three have been made.
pub proof fn law_post_decides(run: ReplyView, error: Seq<char>)
    requires
        run.phase is Posting,
        0 <= run.attempt < 3,
    ensures
        run.step(ReplyEvent::Accepted).phase == ReplyPhase::Done(WorkerProgressDisposition::Sent),
        run.attempt < 2 ==> run.step(ReplyEvent::Refused(error)).phase == ReplyPhase::Waiting,
        run.attempt == 2 ==> run.step(ReplyEvent::Refused(error)).phase == ReplyPhase::Failed,
        run.step(ReplyEvent::Refused(error)).last_error == Some(error),
        run.step(ReplyEvent::Refused(error)).attempt == run.attempt,
        run.attempt < 2 ==> ({
            let again = run.step(ReplyEvent::Refused(error)).step(ReplyEvent::Waited);
            again.phase == ReplyPhase::Fetching && again.attempt == run.attempt + 1
                && again.last_error == Some(error)
        }),
{
}

/// What a reply does not wait for leaves it as it is, and leaves every clock running.
pub proof fn law_unawaited_events_change_nothing(
    run: ReplyView,
    event: ReplyEvent,
    starts: Map<Seq<char>, u128>,
)
    requires
        match event {
            ReplyEvent::Fetched(_) => run.phase != ReplyPhase::Fetching,
            ReplyEvent::Accepted | ReplyEvent::Refused(_) => run.phase != ReplyPhase::Posting,
            ReplyEvent::Waited => run.phase != ReplyPhase::Waiting,
        },
    ensures
        run.step(event) == run,
        run.starts_after(event, starts) == starts,
{
}

/// What is replied, and to which task, never changes; only a wait begins another attempt, and only
/// a post that fails leaves an error.
pub proof fn law_reply_stays_itself(run: ReplyView, event: ReplyEvent)
    ensures
        run.step(event).task_id == run.task_id,
        run.step(event).intent == run.intent,
        run.step(event).text == run.text,
        !(event is Waited) ==> run.step(event).attempt == run.attempt,
        !(event is Refused) ==> run.step(event).last_error == run.last_error,
{
}

/// What is to be done follows from the phase alone, but for the length of a wait.
pub proof fn law_action_follows_the_phase(run: ReplyView, disposition: WorkerProgressDisposition)
    requires
        run.wf(),
    ensures
        run.phase == ReplyPhase::Fetching <==> run.action() == ReplyAction::FetchTask,
        run.phase == ReplyPhase::Posting <==> run.action() == ReplyAction::PostReply,
        run.phase == ReplyPhase::Waiting <==> run.action() == ReplyAction::Wait(
            (250 * (run.attempt + 1)) as u64,
        ),
        run.phase == ReplyPhase::Done(disposition) <==> run.action() == ReplyAction::Finish(
            disposition,
        ),
        run.phase == ReplyPhase::Failed <==> run.action() == ReplyAction::GiveUp,
{
}

/// Whether an event shows that the reply has reached the task: a post that was accepted, or a
/// history that holds its text.
pub open spec fn shows_delivery(event: ReplyEvent, text: Seq<char>) -> bool {
    match event {
        ReplyEvent::Accepted => true,
        ReplyEvent::Fetched(Some(task)) => exists|m: int, p: int| #[trigger]
            part_text(task, m, p) == Some(text),
        _ => false,
    }
}

/// A reply is reported as sent only where it has reached its task, however many attempts it took.
pub proof fn law_sent_means_delivered(run: ReplyView, events: Seq<ReplyEvent>)
    requires
        run.phase != ReplyPhase::Done(WorkerProgressDisposition::Sent),
        run.after(events).phase == ReplyPhase::Done(WorkerProgressDisposition::Sent),
    ensures
        exists|i: int| 0 <= i < events.len() && shows_delivery(#[trigger] events[i], run.text),
    decreases events.len(),
{
    if events.len() > 0 {
        let next = run.step(events[0]);
        if next.phase == ReplyPhase::Done(WorkerProgressDisposition::Sent) {
            match events[0] {
                ReplyEvent::Fetched(Some(task)) => {
                    law_fetch_decides(run, task);
                },
                _ => {},
            }
            assert(shows_delivery(events[0], run.text));
        } else {
            let rest = events.drop_first();
            law_sent_means_delivered(next, rest);
            let i = choose|i: int| 0 <= i < rest.len() && shows_delivery(#[trigger] rest[i], next.text);
            assert(shows_delivery(events[i + 1], run.text));
        }
    }
}

/// The clock of the task stops where a reply ends as sent with an intent of `complete` or `fail`,
/// and where a progress report comes too late; it runs on in every other case.
pub proof fn law_intent_decides_on_the_clock(
    run: ReplyView,
    event: ReplyEvent,
    starts: Map<Seq<char>, u128>,
)
    requires
        !(run.phase is Done),
    ensures
        ({
            let next = run.step(event).phase;
            let ends = run.intent == "complete"@ || run.intent == "fail"@;
            let stops = next == ReplyPhase::Done(WorkerProgressDisposition::AlreadyTerminal) || next
                == ReplyPhase::Done(WorkerProgressDisposition::Sent) && ends;
            run.starts_after(event, starts) == if stops {
                starts.remove(run.task_id)
            } else {
                starts
            }
        }),
{
}

/// How many posts have been made by a reply that is in this state, unless one was accepted.
spec fn posts_so_far(run: ReplyView) -> int {
    match run.phase {
        ReplyPhase::Waiting | ReplyPhase::Failed => run.attempt + 1,
        _ => run.attempt,
    }
}

proof fn lemma_posts_counted(run: ReplyView, events: Seq<ReplyEvent>)
    requires
        run.wf(),
        run.phase is Failed ==> run.attempt == 2,
    ensures
        run.after(events).phase is Failed ==> run.after(events).attempt == 2,
        !(run.after(events).phase is Done) ==> run.posts_made(events) == posts_so_far(
            run.after(events),
        ) - posts_so_far(run),
    decreases events.len(),
{
    if events.len() > 0 {
        lemma_posts_counted(run.step(events[0]), events.drop_first());
        if run.step(events[0]).finished() {
            law_finished_is_final(run.step(events[0]), events.drop_first());
        }
    }
}

/// A reply gives up only after three posts, and never makes a fourth.
pub proof fn law_gives_up_after_three_posts(run: ReplyView, events: Seq<ReplyEvent>)
    requires
        run.phase is Fetching,
        run.attempt == 0,
    ensures
        run.posts_made(events) <= 3,
        run.after(events).phase is Failed ==> run.posts_made(events) == 3,
{
    lemma_posts_counted(run, events);
    law_posts_are_bounded(run, events);
}

} // verus!
