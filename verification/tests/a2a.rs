use std::time::{Duration, Instant};

use inkbox_channel::a2a::{cadence_text, A2aDelivery, DeliveryError};
use inkbox_channel::clock::TaskStarts;
use inkbox_channel::json::{parse_json, Json};
use inkbox_channel::reply::{
    ReplyAction, ReplyError, ReplyPhase, ReplyRun, WorkerProgressDisposition,
};
use inkbox_channel::task::{task_contains_text, task_is_terminal};
use reqwest::header::HeaderMap;

const TASK_ID: &str = "11111111-1111-1111-1111-111111111111";

fn text(value: &str) -> Json {
    Json::Text(value.to_string())
}

fn task(state: &str, texts: &[&str]) -> Json {
    let messages = texts
        .iter()
        .map(|t| {
            Json::Object(vec![(
                "parts".to_string(),
                Json::Array(vec![Json::Object(vec![("text".to_string(), text(t))])]),
            )])
        })
        .collect();
    Json::Object(vec![
        ("state".to_string(), text(state)),
        ("messages".to_string(), Json::Array(messages)),
    ])
}

fn test_delivery(interval: u64) -> A2aDelivery {
    A2aDelivery {
        base_url: "https://example.invalid".to_string(),
        identity: "worker".to_string(),
        progress_interval_secs: interval,
        headers: HeaderMap::new(),
        task_starts: TaskStarts::new(),
    }
}

fn begin(intent: &str, reply: &str) -> ReplyRun {
    match ReplyRun::begin(TASK_ID, intent, reply) {
        Ok(run) => run,
        Err(_) => panic!("a valid task id was refused"),
    }
}

/// A service that answers every fetch with the same body and takes or refuses posts.
struct Service {
    body: Option<&'static str>,
    accepts: bool,
    requests: Vec<(&'static str, String)>,
    posted: Vec<String>,
    waits: Vec<u64>,
}

impl Service {
    fn new(body: Option<&'static str>, accepts: bool) -> Service {
        Service { body, accepts, requests: Vec::new(), posted: Vec::new(), waits: Vec::new() }
    }

    fn serve(
        &mut self,
        delivery: &mut A2aDelivery,
        run: &mut ReplyRun,
    ) -> Result<WorkerProgressDisposition, String> {
        loop {
            match run.action() {
                ReplyAction::FetchTask => {
                    self.requests.push(("GET", delivery.task_url(&run.task_id)));
                    run.fetched_body(self.body.map(str::as_bytes), &mut delivery.task_starts);
                }
                ReplyAction::PostReply => {
                    self.requests.push(("POST", delivery.reply_url(&run.task_id)));
                    self.posted.push(run.body_text());
                    let result = if self.accepts {
                        Ok(())
                    } else {
                        Err(format!("refused {}", self.posted.len()))
                    };
                    run.posted(result, &mut delivery.task_starts);
                }
                ReplyAction::Wait(millis) => {
                    self.waits.push(millis);
                    run.waited();
                }
                ReplyAction::Finish(disposition) => return Ok(disposition),
                ReplyAction::GiveUp => return Err(run.failure()),
            }
        }
    }
}

#[test]
fn default_acknowledgement_names_three_minute_cadence() {
    assert_eq!(cadence_text(180), "3 minutes");
    assert_eq!(cadence_text(60), "1 minute");
    assert_eq!(cadence_text(1), "1 second");
}

#[test]
fn history_match_is_exact_and_terminal_state_is_recognized() {
    let task = Json::Object(vec![
        ("state".to_string(), text("completed")),
        (
            "messages".to_string(),
            Json::Array(vec![Json::Object(vec![(
                "parts".to_string(),
                Json::Array(vec![Json::Object(vec![("text".to_string(), text("still working"))])]),
            )])]),
        ),
    ]);
    assert!(task_contains_text(&task, "still working"));
    assert!(!task_contains_text(&task, "working"));
    assert!(task_is_terminal(&task));
}

#[test]
fn task_elapsed_time_survives_follow_up_turns_until_stopped() {
    let task_id = "11111111-1111-1111-1111-111111111111";
    let mut task_starts = TaskStarts::since(Instant::now() - Duration::from_secs(12));
    assert_eq!(task_starts.elapsed_secs_at(task_id, 0), 0);
    let mut delivery = A2aDelivery {
        base_url: "https://example.invalid".to_string(),
        identity: "worker".to_string(),
        progress_interval_secs: 180,
        headers: HeaderMap::new(),
        task_starts,
    };

    assert_eq!(
        delivery.acknowledgement(task_id),
        format!(
            "Task {task_id} received. Work is queued and starting. Expect progress updates about every 3 minutes."
        )
    );
    assert!(delivery.elapsed_secs(task_id) >= 12);
    assert!(delivery.elapsed_secs(task_id) >= 12);
    delivery.stop(task_id);
    assert_eq!(delivery.elapsed_secs(task_id), 0);
}

#[test]
fn accepted_reply_is_found_before_retrying_and_not_duplicated() {
    let mut delivery = test_delivery(180);
    let mut service = Service::new(
        Some(r#"{"state": "working", "messages": [{"parts": [{"text": "Still working."}]}]}"#),
        true,
    );
    let mut run = begin("progress", "Still working.");
    let outcome = service.serve(&mut delivery, &mut run);
    assert_eq!(outcome, Ok(WorkerProgressDisposition::Sent));
    assert_eq!(service.requests.len(), 1);
    assert_eq!(service.requests[0].0, "GET");
    assert_eq!(
        service.requests[0].1,
        format!("https://example.invalid/api/v1/identities/worker/a2a/tasks/{TASK_ID}")
    );
}

#[test]
fn progress_reports_terminal_disposition_without_posting() {
    let mut delivery = test_delivery(180);
    let mut service = Service::new(
        Some(r#"{"state": "canceled", "messages": [{"parts": [{"text": "Task received."}]}]}"#),
        true,
    );
    let mut run = begin("progress", "Task received.");
    let disposition = service.serve(&mut delivery, &mut run).unwrap();
    assert_eq!(disposition, WorkerProgressDisposition::AlreadyTerminal);
    assert_eq!(service.requests.len(), 1);
    assert_eq!(service.requests[0].0, "GET");
}

#[test]
fn progress_reply_uses_nonterminal_intent() {
    let mut delivery = test_delivery(180);
    let mut service = Service::new(Some(r#"{"state": "working", "messages": []}"#), true);
    let mut run = begin("progress", "Still working.");
    service.serve(&mut delivery, &mut run).unwrap();

    let post = service.requests.iter().find(|request| request.0 == "POST").unwrap();
    assert_eq!(
        post.1,
        format!("https://example.invalid/api/v1/identities/worker/a2a/tasks/{TASK_ID}/reply")
    );
    let body = parse_json(&service.posted[0]).unwrap();
    assert_eq!(body.get_text("intent").unwrap(), "progress");
    let parts = body.get_items("parts").unwrap();
    assert_eq!(parts[0].get_text("text").unwrap(), "Still working.");
    assert_eq!(service.posted[0], r#"{"intent":"progress","parts":[{"text":"Still working."}]}"#);
}

#[test]
fn cadence_falls_back_to_seconds() {
    assert_eq!(cadence_text(0), "0 seconds");
    assert_eq!(cadence_text(59), "59 seconds");
    assert_eq!(cadence_text(61), "61 seconds");
    assert_eq!(cadence_text(120), "2 minutes");
    assert_eq!(cadence_text(u64::MAX), format!("{} seconds", u64::MAX));
}

#[test]
fn acknowledgement_without_updates_names_no_cadence() {
    assert_eq!(
        test_delivery(0).acknowledgement("t"),
        "Task t received. Work is queued and starting."
    );
    assert_eq!(test_delivery(90).progress_interval_secs(), 90);
}

#[test]
fn delivery_carries_its_headers_and_trims_the_base_url() {
    let delivery = match A2aDelivery::new("key-1", "https://host//", "me".to_string(), 5) {
        Ok(delivery) => delivery,
        Err(_) => panic!("a valid key was refused"),
    };
    assert_eq!(delivery.base_url, "https://host");
    assert_eq!(delivery.task_url("t"), "https://host/api/v1/identities/me/a2a/tasks/t");
    assert_eq!(delivery.headers.len(), 3);
    assert_eq!(delivery.headers.get("X-API-Key").unwrap(), "key-1");
    assert_eq!(delivery.headers.get("Accept").unwrap(), "application/json");
    assert_eq!(delivery.headers.get("User-Agent").unwrap(), "zeroclaw-inkbox-channel");
}

#[test]
fn delivery_refuses_a_key_that_cannot_stand_in_a_header() {
    for key in ["a\nb", "\u{7f}", "\u{0}"] {
        match A2aDelivery::new(key, "https://host", "me".to_string(), 5) {
            Err(error) => {
                assert!(matches!(error, DeliveryError::InvalidApiKey(_)));
                assert_eq!(error.message(), "invalid Inkbox API key bytes");
            }
            Ok(_) => panic!("a key with a control character was taken"),
        }
    }
    assert!(A2aDelivery::new("tab\tand \u{e9}", "https://host", "me".to_string(), 5).is_ok());
}

#[test]
fn only_uuids_can_be_replied_to() {
    let hyphenated = "936DA01f-9abd-4d9d-80c7-02af85c822a8";
    for id in [
        hyphenated.to_string(),
        hyphenated.replace('-', ""),
        format!("{{{hyphenated}}}"),
        format!("urn:uuid:{hyphenated}"),
        format!("URN:UUID:{hyphenated}"),
    ] {
        assert!(ReplyRun::begin(&id, "progress", "x").is_ok());
    }
    for id in [
        "",
        "not-a-uuid",
        "936da01f-9abd-4d9d-80c7-02af85c822a",
        "936da01f9-abd-4d9d-80c7-02af85c822a8",
        "g36da01f-9abd-4d9d-80c7-02af85c822a8",
        "(936da01f-9abd-4d9d-80c7-02af85c822a8)",
        "urn-uuid:936da01f-9abd-4d9d-80c7-02af85c822a8",
    ] {
        match ReplyRun::begin(id, "progress", "x") {
            Err(error) => {
                assert!(matches!(error, ReplyError::InvalidTaskId(_)));
                assert_eq!(error.message(), "invalid inbound A2A task id");
            }
            Ok(_) => panic!("a text that is no UUID was taken"),
        }
    }
}

#[test]
fn every_terminal_state_and_no_other_is_terminal() {
    for state in ["completed", "failed", "canceled", "rejected"] {
        assert!(task_is_terminal(&task(state, &[])));
    }
    for state in ["working", "Completed", "cancelled", ""] {
        assert!(!task_is_terminal(&task(state, &[])));
    }
    assert!(!task_is_terminal(&Json::Object(vec![("state".to_string(), Json::Bool(true))])));
    assert!(!task_is_terminal(&Json::Array(vec![text("completed")])));
    assert!(!task_is_terminal(&Json::Null));
}

#[test]
fn history_is_searched_past_malformed_messages() {
    let task = parse_json(
        r#"{"messages": [1, {"parts": "x"}, {"parts": [null, {"text": 3}, {"text": "a"}]}, {"parts": [{"text": "b"}]}]}"#,
    )
    .unwrap();
    assert!(task_contains_text(&task, "a"));
    assert!(task_contains_text(&task, "b"));
    assert!(!task_contains_text(&task, "3"));
    assert!(!task_contains_text(&parse_json(r#"{"messages": {}}"#).unwrap(), "a"));
}

#[test]
fn failing_posts_are_retried_with_growing_waits_and_then_given_up() {
    let mut delivery = test_delivery(180);
    delivery.elapsed_secs(TASK_ID);
    let mut service = Service::new(None, false);
    let mut run = begin("complete", "done");
    let outcome = service.serve(&mut delivery, &mut run);
    assert_eq!(outcome, Err("refused 3".to_string()));
    assert_eq!(service.waits, vec![250, 500]);
    let verbs: Vec<&str> = service.requests.iter().map(|request| request.0).collect();
    assert_eq!(verbs, vec!["GET", "POST", "GET", "POST", "GET", "POST"]);
    assert_eq!(run.phase, ReplyPhase::Failed);
    assert!(delivery.task_starts.elapsed_secs_at(TASK_ID, 3_600_000_000_000) >= 3599);
}

#[test]
fn an_answer_that_is_not_json_does_not_keep_the_reply_back() {
    let mut delivery = test_delivery(180);
    let mut service = Service::new(Some("<html>"), true);
    let mut run = begin("fail", "no");
    assert_eq!(
        service.serve(&mut delivery, &mut run),
        Ok(WorkerProgressDisposition::Sent)
    );
    assert_eq!(service.posted, vec![r#"{"intent":"fail","parts":[{"text":"no"}]}"#.to_string()]);
}

#[test]
fn a_body_that_is_not_utf8_counts_as_none() {
    let mut starts = TaskStarts::new();
    let mut run = begin("progress", "text");
    let mut body = br#"{"state": "failed", "note": "?"}"#.to_vec();
    let mark = body.iter().position(|byte| *byte == b'?').unwrap();
    body[mark] = 0xff;
    run.fetched_body(Some(&body[..]), &mut starts);
    assert_eq!(run.action(), ReplyAction::PostReply);
    let mut run = begin("progress", "text");
    body[mark] = b'!';
    run.fetched_body(Some(&body[..]), &mut starts);
    assert_eq!(run.action(), ReplyAction::Finish(WorkerProgressDisposition::AlreadyTerminal));
}

#[test]
fn a_final_reply_to_a_terminal_task_is_still_posted() {
    let mut run = begin("complete", "done");
    let mut starts = TaskStarts::new();
    run.fetched(Some(&task("completed", &["other"])), &mut starts);
    assert_eq!(run.action(), ReplyAction::PostReply);
}

#[test]
fn the_clock_stops_with_final_replies_and_late_progress_only() {
    let hour: u128 = 3_600_000_000_000;
    let cases = [
        ("complete", "working", 0),
        ("fail", "working", 0),
        ("progress", "working", 3600),
        ("progress", "rejected", 0),
        ("input-required", "working", 3600),
    ];
    for (intent, state, left) in cases {
        let mut starts = TaskStarts::new();
        starts.elapsed_secs_at(TASK_ID, 0);
        starts.elapsed_secs_at("other", 0);
        let mut run = begin(intent, "text");
        run.fetched(Some(&task(state, &["text"])), &mut starts);
        assert!(matches!(run.action(), ReplyAction::Finish(_)));
        assert_eq!(starts.elapsed_secs_at(TASK_ID, hour), left);
        assert_eq!(starts.elapsed_secs_at("other", hour), 3600);
    }
}

#[test]
fn a_finished_reply_ignores_what_it_is_told() {
    let mut run = begin("progress", "text");
    let mut starts = TaskStarts::new();
    run.waited();
    run.posted(Ok(()), &mut starts);
    assert_eq!(run.action(), ReplyAction::FetchTask);
    run.fetched(None, &mut starts);
    run.posted(Ok(()), &mut starts);
    run.fetched(None, &mut starts);
    run.posted(Err("late".to_string()), &mut starts);
    assert_eq!(run.action(), ReplyAction::Finish(WorkerProgressDisposition::Sent));
    assert_eq!(run.failure(), "send A2A task reply");
}

#[test]
fn elapsed_time_counts_whole_seconds_from_the_first_turn() {
    let mut starts = TaskStarts::new();
    assert_eq!(starts.elapsed_secs_at("a", 5_000_000_000), 0);
    assert_eq!(starts.elapsed_secs_at("a", 6_999_999_999), 1);
    assert_eq!(starts.elapsed_secs_at("a", 7_000_000_000), 2);
    assert_eq!(starts.elapsed_secs_at("a", 1), 0);
    assert_eq!(starts.elapsed_secs_at("b", 9_000_000_000), 0);
    starts.stop("a");
    assert_eq!(starts.elapsed_secs_at("a", 8_000_000_000), 0);
    assert_eq!(starts.elapsed_secs_at("a", 8_999_999_999), 0);
    starts.stop("b");
    assert_eq!(starts.elapsed_secs_at("b", 0), 0);
    assert_eq!(starts.elapsed_secs_at("b", 18_446_744_073_709_551_615_999_999_999), u64::MAX);
}

#[test]
fn a_start_survives_what_happens_to_other_tasks() {
    let mut starts = TaskStarts::new();
    assert_eq!(starts.elapsed_secs_at("a", 1_000_000_000), 0);
    assert_eq!(starts.elapsed_secs_at("b", 2_000_000_000), 0);
    assert_eq!(starts.elapsed_secs_at("a", 3_000_000_000), 2);
    starts.stop("b");
    starts.stop("c");
    assert_eq!(starts.elapsed_secs_at("b", 4_000_000_000), 0);
    assert_eq!(starts.elapsed_secs_at("a", 5_000_000_000), 4);
}

#[test]
fn a_posted_reply_is_recognised_in_the_history() {
    let run = begin("progress", "Still \"working\".");
    let history = format!(r#"{{"state": "working", "messages": [{{}}, {}]}}"#, run.body_text());
    let task = parse_json(&history).unwrap();
    assert!(task_contains_text(&task, "Still \"working\"."));
    let mut again = begin("progress", "Still \"working\".");
    again.fetched(Some(&task), &mut TaskStarts::new());
    assert_eq!(again.action(), ReplyAction::Finish(WorkerProgressDisposition::Sent));
}
