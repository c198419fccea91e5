use inkbox_channel::bridge::{Bridge, Outgoing, Peer, Reaction, SocketInput};
use inkbox_channel::call::Call;
use inkbox_channel::json::{parse_json, render_json};
use inkbox_channel::realtime::{
    build_greeting, build_instructions, realtime_request, realtime_url, session_update, CallMeta,
    ConnectError, RealtimeConfig,
};

fn config() -> RealtimeConfig {
    RealtimeConfig {
        api_key: "sk-1".to_string(),
        model: "gpt-realtime-2".to_string(),
        voice: "cedar".to_string(),
    }
}

fn meta(direction: &str, name: Option<&str>) -> CallMeta {
    CallMeta { direction: direction.to_string(), contact_name: name.map(|n| n.to_string()) }
}

fn frame(raw: &str) -> SocketInput {
    SocketInput::Text(raw.to_string())
}

fn texts(reaction: &Reaction) -> Vec<String> {
    reaction.sends.iter().map(|out| out.text()).collect()
}

fn peers(reaction: &Reaction) -> Vec<(Peer, bool)> {
    reaction.sends.iter().map(|out| (out.to, out.required)).collect()
}

const GREETING: &str = r#"{"type":"response.create","response":{"instructions":"Greet the caller now: say something like \"Hi Ada, how can I help?\" One short sentence, then wait."}}"#;

#[test]
fn realtime_needs_both_the_switch_and_a_credential() {
    assert!(RealtimeConfig::usable(true, "sk-1"));
    assert!(RealtimeConfig::usable(true, " sk-1 "));
    assert!(!RealtimeConfig::usable(false, "sk-1"));
    assert!(!RealtimeConfig::usable(true, ""));
    assert!(!RealtimeConfig::usable(true, " \t\n\u{a0}\u{3000}"));
    assert!(RealtimeConfig::usable(true, "\u{200b}"));
}

#[test]
fn instructions_name_the_contact_and_the_direction() {
    assert_eq!(
        build_instructions(&meta("outbound", Some("Ada Lovelace"))),
        "You are a helpful voice assistant on a live phone call with Ada Lovelace. Speak naturally and concisely, one short turn at a time. This is spoken audio, not text — no markdown, no long monologues. Direction: outbound."
    );
    assert_eq!(
        build_instructions(&CallMeta::default()),
        "You are a helpful voice assistant on a live phone call with the caller. Speak naturally and concisely, one short turn at a time. This is spoken audio, not text — no markdown, no long monologues. Direction: inbound."
    );
}

#[test]
fn greeting_depends_on_the_direction_and_the_first_name() {
    assert_eq!(
        build_greeting(&meta("outbound", Some("Ada"))),
        "Open the call: greet the person and concisely explain why you're calling. One short sentence, then wait."
    );
    let cases = [
        (Some("Ada Lovelace"), "Ada"),
        (Some("  \tAda  Lovelace"), "Ada"),
        (Some("Ada"), "Ada"),
        (Some("J\u{fc}rgen\u{2003}M"), "J\u{fc}rgen"),
        (Some("   "), "   "),
        (Some(""), ""),
        (None, "there"),
    ];
    for (name, who) in cases {
        for direction in ["inbound", "", "Outbound"] {
            assert_eq!(
                build_greeting(&meta(direction, name)),
                format!("Greet the caller now: say something like \"Hi {who}, how can I help?\" One short sentence, then wait.")
            );
        }
    }
}

#[test]
fn session_update_is_written_as_one_compact_object() {
    let message = session_update(&config(), &meta("inbound", Some("A \"B\"")));
    assert_eq!(
        render_json(&message),
        concat(&[
            r#"{"type":"session.update","session":{"type":"realtime","model":"gpt-realtime-2","#,
            r#""instructions":"You are a helpful voice assistant on a live phone call with A \"B\". Speak naturally and concisely, one short turn at a time. This is spoken audio, not text — no markdown, no long monologues. Direction: inbound.","#,
            r#""output_modalities":["audio"],"audio":{"input":{"format":{"type":"audio/pcmu"},"transcription":{"model":"gpt-4o-mini-transcribe"},"#,
            r#""turn_detection":{"type":"server_vad","threshold":0.5,"prefix_padding_ms":300,"silence_duration_ms":500,"create_response":true,"interrupt_response":true}},"#,
            r#""output":{"format":{"type":"audio/pcmu"},"voice":"cedar"}},"tool_choice":"auto"}}"#,
        ])
    );
    let opening = Bridge::opening(&config(), &CallMeta::default());
    assert_eq!(opening.to, Peer::OpenAi);
    assert!(opening.required);
    let read = parse_json(&opening.text()).unwrap();
    assert_eq!(render_json(&read), opening.text());
}

fn concat(parts: &[&str]) -> String {
    parts.concat()
}

#[test]
fn model_ids_are_percent_encoded_into_the_url() {
    assert_eq!(
        realtime_url(&config()),
        "wss://api.openai.com/v1/realtime?model=gpt-realtime-2"
    );
    let mut cfg = config();
    cfg.model = "a b/c&d=\u{e9}~_.-%".to_string();
    assert_eq!(
        realtime_url(&cfg),
        "wss://api.openai.com/v1/realtime?model=a%20b%2Fc%26d%3D%C3%A9~_.-%25"
    );
}

#[test]
fn the_handshake_request_is_authorized() {
    let request = match realtime_request(&config()) {
        Ok(request) => request,
        Err(_) => panic!("a plain configuration was refused"),
    };
    assert_eq!(
        request.uri().to_string(),
        "wss://api.openai.com/v1/realtime?model=gpt-realtime-2"
    );
    assert_eq!(request.headers().get("Authorization").unwrap(), "Bearer sk-1");
    assert_eq!(request.headers().len(), 6);
    assert_eq!(request.headers().get("Host").unwrap(), "api.openai.com");
    assert_eq!(request.headers().get("Connection").unwrap(), "Upgrade");
    assert_eq!(request.headers().get("Upgrade").unwrap(), "websocket");
    assert_eq!(request.headers().get("Sec-WebSocket-Version").unwrap(), "13");
    assert_eq!(request.headers().get_all("Sec-WebSocket-Key").iter().count(), 1);
}

fn refusal(cfg: &RealtimeConfig) -> ConnectError {
    match realtime_request(cfg) {
        Ok(_) => panic!("the configuration was taken"),
        Err(error) => error,
    }
}

#[test]
fn bad_keys_and_endless_models_are_refused() {
    let mut cfg = config();
    cfg.api_key = "sk\r\n1".to_string();
    assert!(matches!(refusal(&cfg), ConnectError::BadAuthHeader(_)));
    assert_eq!(
        refusal(&cfg).message(),
        "realtime: bad auth header: failed to parse header value"
    );
    cfg.model = "m".repeat(65534);
    assert!(matches!(refusal(&cfg), ConnectError::BadUrl(_)));
    assert_eq!(refusal(&cfg).message(), "realtime: bad URL: HTTP format error: uri too long");
    let prefix = "wss://api.openai.com/v1/realtime?model=".len();
    let mut cfg = config();
    cfg.model = "m".repeat(65534 - prefix);
    assert!(realtime_request(&cfg).is_ok());
    cfg.model = "m".repeat(65535 - prefix);
    assert!(matches!(refusal(&cfg), ConnectError::BadUrl(_)));
}

#[test]
fn a_key_does_not_show_in_the_error() {
    let mut first = config();
    first.api_key = "secret\none".to_string();
    let mut second = config();
    second.api_key = "\u{7f}another".to_string();
    assert_eq!(refusal(&first).message(), refusal(&second).message());
}

#[test]
fn the_start_of_the_stream_brings_the_greeting_once() {
    let mut bridge = Bridge::new(meta("", Some("Ada Lovelace")));
    let reaction = bridge.on_inkbox(&frame(r#"{"event":"start","stream_id":"s1"}"#));
    assert_eq!(texts(&reaction), vec![GREETING.to_string()]);
    assert_eq!(peers(&reaction), vec![(Peer::OpenAi, true)]);
    assert!(!reaction.over);
    let again = bridge.on_inkbox(&frame(r#"{"event":"start"}"#));
    assert!(again.sends.is_empty());
    assert_eq!(bridge.stream_id, Some("s1".to_string()));
    let moved = bridge.on_inkbox(&frame(r#"{"event":"start","stream_id":"s2"}"#));
    assert!(moved.sends.is_empty());
    assert_eq!(bridge.stream_id, Some("s2".to_string()));
}

#[test]
fn first_audio_without_a_start_brings_greeting_and_audio() {
    let mut bridge = Bridge::new(meta("", Some("Ada Lovelace")));
    let reaction = bridge.on_inkbox(&frame(r#"{"event":"media","media":{"payload":"AAA="}}"#));
    assert_eq!(
        texts(&reaction),
        vec![
            GREETING.to_string(),
            r#"{"type":"input_audio_buffer.append","audio":"AAA="}"#.to_string(),
        ]
    );
    assert_eq!(peers(&reaction), vec![(Peer::OpenAi, false), (Peer::OpenAi, true)]);
    let next = bridge.on_inkbox(&frame(r#"{"event":"media","media":{"payload":"BBB="}}"#));
    assert_eq!(
        texts(&next),
        vec![r#"{"type":"input_audio_buffer.append","audio":"BBB="}"#.to_string()]
    );
    let empty = bridge.on_inkbox(&frame(r#"{"event":"media","media":["payload"]}"#));
    assert!(empty.sends.is_empty() && !empty.over);
}

#[test]
fn model_audio_goes_out_with_the_stream_id() {
    let mut bridge = Bridge::new(CallMeta::default());
    for kind in ["response.output_audio.delta", "response.audio.delta"] {
        let reaction = bridge.on_openai(&frame(&format!(r#"{{"type":"{kind}","delta":"D="}}"#)));
        assert_eq!(
            texts(&reaction),
            vec![r#"{"event":"media","media":{"payload":"D=","track":"outbound"}}"#.to_string()]
        );
        assert_eq!(peers(&reaction), vec![(Peer::Inkbox, true)]);
        let none = bridge.on_openai(&frame(&format!(r#"{{"type":"{kind}","delta":7}}"#)));
        assert!(none.sends.is_empty());
    }
    for kind in ["response.output_audio.done", "response.audio.done"] {
        let reaction = bridge.on_openai(&frame(&format!(r#"{{"type":"{kind}"}}"#)));
        assert_eq!(texts(&reaction), vec![r#"{"event":"audio_done"}"#.to_string()]);
        assert_eq!(peers(&reaction), vec![(Peer::Inkbox, false)]);
    }
    bridge.on_inkbox(&frame(r#"{"event":"start","stream_id":"s1"}"#));
    let media = bridge.on_openai(&frame(r#"{"type":"response.audio.delta","delta":"D="}"#));
    assert_eq!(
        texts(&media),
        vec![
            r#"{"event":"media","media":{"payload":"D=","track":"outbound"},"stream_id":"s1"}"#
                .to_string()
        ]
    );
    let done = bridge.on_openai(&frame(r#"{"type":"response.audio.done"}"#));
    assert_eq!(texts(&done), vec![r#"{"event":"audio_done","stream_id":"s1"}"#.to_string()]);
}

#[test]
fn barge_in_clears_queued_audio() {
    let mut bridge = Bridge::new(CallMeta::default());
    bridge.on_inkbox(&frame(r#"{"event":"start","stream_id":"s1"}"#));
    let reaction = bridge.on_openai(&frame(r#"{"type":"input_audio_buffer.speech_started"}"#));
    assert_eq!(texts(&reaction), vec![r#"{"event":"clear"}"#.to_string()]);
    assert_eq!(peers(&reaction), vec![(Peer::Inkbox, false)]);
}

#[test]
fn transcripts_accumulate_in_order() {
    let mut bridge = Bridge::new(CallMeta::default());
    let events = [
        r#"{"type":"response.audio_transcript.done","transcript":"Hi."}"#,
        r#"{"type":"conversation.item.input_audio_transcription.completed","transcript":"Hello."}"#,
        r#"{"type":"response.output_audio_transcript.done","transcript":"Bye."}"#,
        r#"{"type":"response.output_audio_transcript.done"}"#,
        r#"{"type":"something.else","transcript":"no"}"#,
    ];
    for event in events {
        let reaction = bridge.on_openai(&frame(event));
        assert!(reaction.sends.is_empty() && !reaction.over);
    }
    assert_eq!(bridge.turns(), 3);
    let turns: Vec<(&str, &str)> =
        bridge.transcript.iter().map(|(who, what)| (who.as_str(), what.as_str())).collect();
    assert_eq!(turns, vec![("agent", "Hi."), ("caller", "Hello."), ("agent", "Bye.")]);
}

#[test]
fn a_call_ends_with_a_hang_up_or_its_sockets() {
    for event in ["stop", "closed", "hangup"] {
        let mut bridge = Bridge::new(CallMeta::default());
        let reaction = bridge.on_inkbox(&frame(&format!(r#"{{"event":"{event}"}}"#)));
        assert!(reaction.over && reaction.sends.is_empty());
        assert!(!bridge.greeting_sent);
    }
    let mut bridge = Bridge::new(CallMeta::default());
    assert!(bridge.on_inkbox(&SocketInput::Ended).over);
    assert!(bridge.on_inkbox(&SocketInput::Failed).over);
    assert!(!bridge.on_inkbox(&SocketInput::Close).over);
    assert!(!bridge.on_inkbox(&SocketInput::Other).over);
    assert!(bridge.on_openai(&SocketInput::Ended).over);
    assert!(bridge.on_openai(&SocketInput::Failed).over);
    assert!(bridge.on_openai(&SocketInput::Close).over);
    assert!(!bridge.on_openai(&SocketInput::Other).over);
}

#[test]
fn unreadable_and_unknown_messages_are_passed_over() {
    let mut bridge = Bridge::new(CallMeta::default());
    for raw in ["", "{", "[]", "\"start\"", r#"{"event":1}"#, r#"{"event":"dtmf"}"#] {
        let reaction = bridge.on_inkbox(&frame(raw));
        assert!(reaction.sends.is_empty() && !reaction.over);
        let reaction = bridge.on_openai(&frame(raw));
        assert!(reaction.sends.is_empty() && !reaction.over);
    }
    assert!(!bridge.greeting_sent);
    assert_eq!(bridge.turns(), 0);
}

#[test]
fn only_required_messages_end_the_call_when_they_fail() {
    let required = Bridge::opening(&config(), &CallMeta::default());
    assert!(required.goes_on(true));
    assert!(!required.goes_on(false));
    let optional = Outgoing { required: false, ..required };
    assert!(optional.goes_on(true));
    assert!(optional.goes_on(false));
}

/// What a call sends while it is told of `inputs`, with the n-th message failing where `fails`
/// says so.
fn drive(call: &mut Call, inputs: Vec<(Peer, SocketInput)>, fails: &[usize]) -> Vec<(Peer, String)> {
    let mut tried = Vec::new();
    let mut inputs = inputs.into_iter();
    loop {
        if let Some(out) = call.next() {
            tried.push((out.to, out.text()));
            call.sent(!fails.contains(&(tried.len() - 1)));
            continue;
        }
        match inputs.next() {
            Some((Peer::Inkbox, input)) => call.on_inkbox(&input),
            Some((Peer::OpenAi, input)) => call.on_openai(&input),
            None => return tried,
        }
    }
}

fn audio(payload: &str) -> (Peer, SocketInput) {
    let raw = format!(r#"{{"event":"media","media":{{"payload":"{payload}"}}}}"#);
    (Peer::Inkbox, SocketInput::Text(raw))
}

#[test]
fn a_whole_call_goes_out_in_order() {
    let cfg = config();
    let mut call = Call::open(&cfg, meta("", Some("Ada")));
    let tried = drive(
        &mut call,
        vec![
            audio("A="),
            (Peer::Inkbox, frame(r#"{"event":"start","stream_id":"s"}"#)),
            audio("B="),
            (Peer::OpenAi, frame(r#"{"type":"response.audio.delta","delta":"M="}"#)),
            (Peer::OpenAi, frame("not json")),
            (Peer::Inkbox, SocketInput::Close),
            (Peer::OpenAi, frame(r#"{"type":"response.audio_transcript.done","transcript":"Hi"}"#)),
            (Peer::Inkbox, frame(r#"{"event":"hangup"}"#)),
            audio("C="),
            (Peer::OpenAi, frame(r#"{"type":"response.audio.delta","delta":"N="}"#)),
        ],
        &[],
    );
    assert_eq!(tried.len(), 5);
    assert_eq!(tried[0].1, render_json(&session_update(&cfg, &meta("", Some("Ada")))));
    assert_eq!(tried[1], (Peer::OpenAi, GREETING.to_string()));
    assert_eq!(tried[2].1, r#"{"type":"input_audio_buffer.append","audio":"A="}"#);
    assert_eq!(tried[3].1, r#"{"type":"input_audio_buffer.append","audio":"B="}"#);
    assert_eq!(
        tried[4],
        (
            Peer::Inkbox,
            r#"{"event":"media","media":{"payload":"M=","track":"outbound"},"stream_id":"s"}"#
                .to_string()
        )
    );
    assert!(call.is_over());
    assert_eq!(call.turns(), 1);
}

#[test]
fn a_call_that_cannot_be_configured_is_over() {
    let mut call = Call::open(&config(), CallMeta::default());
    assert!(!call.is_over());
    assert!(!call.is_configured());
    let tried = drive(&mut call, vec![audio("A=")], &[0]);
    assert_eq!(tried.len(), 1);
    assert!(call.is_over());
    assert!(!call.is_configured());

    let mut call = Call::open(&config(), CallMeta::default());
    drive(&mut call, vec![(Peer::OpenAi, SocketInput::Close)], &[]);
    assert!(call.is_over());
    assert!(call.is_configured());
}

#[test]
fn a_greeting_that_fails_ends_the_call_only_at_the_start_of_the_stream() {
    let mut call = Call::open(&config(), CallMeta::default());
    let start = (Peer::Inkbox, frame(r#"{"event":"start"}"#));
    let tried = drive(&mut call, vec![start, audio("A=")], &[1]);
    assert_eq!(tried.len(), 2);
    assert!(call.is_over());

    let mut call = Call::open(&config(), CallMeta::default());
    let tried = drive(&mut call, vec![audio("A="), audio("B=")], &[1]);
    assert_eq!(tried.len(), 4);
    assert!(!call.is_over());

    let mut call = Call::open(&config(), CallMeta::default());
    let tried = drive(&mut call, vec![audio("A="), audio("B=")], &[2]);
    assert_eq!(tried.len(), 3);
    assert!(call.is_over());
}

#[test]
fn a_call_ends_when_either_side_closes() {
    let closing = [
        (Peer::Inkbox, SocketInput::Ended),
        (Peer::Inkbox, SocketInput::Failed),
        (Peer::OpenAi, SocketInput::Close),
        (Peer::OpenAi, SocketInput::Ended),
        (Peer::OpenAi, SocketInput::Failed),
    ];
    for input in closing {
        let mut call = Call::open(&config(), CallMeta::default());
        let tried = drive(&mut call, vec![input, audio("A=")], &[]);
        assert_eq!(tried.len(), 1);
        assert!(call.is_over());
    }
    let mut call = Call::open(&config(), CallMeta::default());
    drive(&mut call, vec![(Peer::Inkbox, SocketInput::Close)], &[]);
    assert!(!call.is_over());
}

#[test]
fn a_call_with_messages_left_does_not_listen() {
    let mut call = Call::open(&config(), CallMeta::default());
    call.on_openai(&SocketInput::Close);
    assert!(!call.is_over());
    assert!(call.next().is_some());
    call.sent(true);
    assert!(call.next().is_none());
    call.sent(false);
    assert!(!call.is_over());
    call.on_openai(&SocketInput::Close);
    assert!(call.is_over());
}

#[test]
fn audio_goes_out_complete_with_the_latest_stream_id() {
    let delta = |payload: &str| {
        let raw = format!(r#"{{"type":"response.output_audio.delta","delta":"{payload}"}}"#);
        (Peer::OpenAi, SocketInput::Text(raw))
    };
    let start = |id: &str| {
        let raw = format!(r#"{{"event":"start","stream_id":"{id}"}}"#);
        (Peer::Inkbox, SocketInput::Text(raw))
    };
    let mut call = Call::open(&config(), CallMeta::default());
    let tried = drive(
        &mut call,
        vec![
            delta("1"),
            audio("a"),
            start("s1"),
            delta("2"),
            audio("b"),
            (Peer::Inkbox, frame(r#"{"event":"mark","stream_id":"x"}"#)),
            (Peer::OpenAi, frame(r#"{"type":"session.updated"}"#)),
            start("s2"),
            delta("3"),
            audio("b"),
        ],
        &[],
    );
    let mut caller = Vec::new();
    let mut model = Vec::new();
    let mut greetings = 0;
    for (to, text) in &tried {
        let body = parse_json(text).unwrap();
        if let Some(payload) = body.get_text("audio") {
            caller.push(payload.clone());
        }
        if *to == Peer::Inkbox {
            let payload = body.get("media").unwrap().get_text("payload").unwrap().clone();
            model.push((payload, body.get_text("stream_id").cloned()));
        }
        if body.get_text("type").map(String::as_str) == Some("response.create") {
            greetings += 1;
        }
    }
    assert_eq!(caller, vec!["a".to_string(), "b".to_string(), "b".to_string()]);
    assert_eq!(
        model,
        vec![
            ("1".to_string(), None),
            ("2".to_string(), Some("s1".to_string())),
            ("3".to_string(), Some("s2".to_string())),
        ]
    );
    assert_eq!(greetings, 1);
}
