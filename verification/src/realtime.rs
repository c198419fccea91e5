//! Realtime voice calls: configuration, prompts, and the messages that open a session.
use tokio_tungstenite::tungstenite::http::Request;
use vstd::prelude::*;
use vstd::utf8::encode_utf8;

use crate::headers::{
    client_request, handshake_fields, header_refusal_text, header_text, header_value, insert_header,
    plain_parts, query_char, request_fields, request_headers, request_uri, uri_refusal_text, wss_url,
    MAX_URI_LEN,
};
use crate::json::{
    law_first_member_is_found, members_view, no_members, object, plain_key, plain_number, put,
    put_text, reads_back, singleton, size, within, writable, Json, JsonView, MAX_LEVELS,
};
use crate::text::{
    blank, first_word, first_word_of, is_blank, law_first_word_is_found, same_text, white_space,
};
use crate::url::{lemma_percent_encoded_chars, percent_encoded, url_encode};

verus! {

/// Realtime bridge configuration.
#[derive(Debug, Clone)]
pub struct RealtimeConfig {
    /// OpenAI API key (Bearer).
    pub api_key: String,
    /// Realtime model id (e.g. `gpt-realtime-2`).
    pub model: String,
    /// Voice (e.g. `cedar`).
    pub voice: String,
}

impl RealtimeConfig {
    /// Whether realtime is usable: enabled, and a credential is present.
    pub fn usable(enabled: bool, api_key: &str) -> (usable: bool)
        ensures
            usable == (enabled && !blank(api_key@)),
    {
        enabled && !is_blank(api_key)
    }
}

/// Call metadata known when the call's socket is accepted.
#[derive(Debug, Clone)]
pub struct CallMeta {
    /// `outbound` for a call that was placed, `inbound` or empty for one that came in.
    pub direction: String,
    /// Who the call is with, where it is known.
    pub contact_name: Option<String>,
}

impl Default for CallMeta {
    fn default() -> (meta: CallMeta)
        ensures
            meta.direction@ == Seq::<char>::empty(),
            meta.contact_name is None,
    {
        CallMeta { direction: String::new(), contact_name: None }
    }
}

/// The system instructions of a call: whom it is with, how to speak, and its direction.
pub open spec fn instructions_text(meta: CallMeta) -> Seq<char> {
    let who = match meta.contact_name {
        Some(name) => name@,
        None => "the caller"@,
    };
    let direction = if meta.direction@.len() == 0 {
        "inbound"@
    } else {
        meta.direction@
    };
    "You are a helpful voice assistant on a live phone call with "@ + who
        + ". Speak naturally and concisely, one short turn at a time. This is spoken audio, not text — no markdown, no long monologues. Direction: "@
        + direction + "."@
}

/// Builds the system instructions for the realtime model from call metadata.
pub fn build_instructions(meta: &CallMeta) -> (text: String)
    ensures
        text@ == instructions_text(*meta),
{
    let mut text = "You are a helpful voice assistant on a live phone call with ".to_owned();
    match &meta.contact_name {
        Some(name) => text.append(name.as_str()),
        None => text.append("the caller"),
    }
    text.append(
        ". Speak naturally and concisely, one short turn at a time. This is spoken audio, not text — no markdown, no long monologues. Direction: ",
    );
    if meta.direction.as_str().is_empty() {
        text.append("inbound");
    } else {
        text.append(meta.direction.as_str());
    }
    text.append(".");
    text
}

/// What the caller is greeted by: the first word of the contact name, the name itself where it
/// has no word, or `there` where there is no name.
pub open spec fn greeted_name(meta: CallMeta) -> Seq<char> {
    match meta.contact_name {
        Some(name) => match first_word_of(name@) {
            Some(word) => word,
            None => name@,
        },
        None => "there"@,
    }
}

/// The opening instruction of a call.
pub open spec fn greeting_text(meta: CallMeta) -> Seq<char> {
    if meta.direction@ == "outbound"@ {
        "Open the call: greet the person and concisely explain why you're calling. One short sentence, then wait."@
    } else {
        "Greet the caller now: say something like \"Hi "@ + greeted_name(meta)
            + ", how can I help?\" One short sentence, then wait."@
    }
}

/// Builds the opening instruction (greeting) sent once when the call connects.
pub fn build_greeting(meta: &CallMeta) -> (text: String)
    ensures
        text@ == greeting_text(*meta),
{
    if same_text(meta.direction.as_str(), "outbound") {
        "Open the call: greet the person and concisely explain why you're calling. One short sentence, then wait.".to_owned()
    } else {
        let mut text = "Greet the caller now: say something like \"Hi ".to_owned();
        match &meta.contact_name {
            Some(name) => match first_word(name.as_str()) {
                Some(word) => text.append(word.as_str()),
                None => text.append(name.as_str()),
            },
            None => text.append("there"),
        }
        text.append(", how can I help?\" One short sentence, then wait.");
        text
    }
}

/// The model that transcribes the caller's audio.
pub const INPUT_TRANSCRIPTION_MODEL: &'static str = "gpt-4o-mini-transcribe";

/// The audio format of a phone call, G.711 mu-law.
pub open spec fn pcmu_format() -> JsonView {
    JsonView::Object(seq![("type"@, JsonView::Text("audio/pcmu"@))])
}

/// Server-side voice activity detection that answers and yields by itself.
pub open spec fn turn_detection() -> JsonView {
    JsonView::Object(
        seq![
            ("type"@, JsonView::Text("server_vad"@)),
            ("threshold"@, JsonView::Number("0.5"@)),
            ("prefix_padding_ms"@, JsonView::Number("300"@)),
            ("silence_duration_ms"@, JsonView::Number("500"@)),
            ("create_response"@, JsonView::Bool(true)),
            ("interrupt_response"@, JsonView::Bool(true)),
        ],
    )
}

/// How the caller's audio comes in.
pub open spec fn input_audio() -> JsonView {
    JsonView::Object(
        seq![
            ("format"@, pcmu_format()),
            (
                "transcription"@,
                JsonView::Object(seq![("model"@, JsonView::Text(INPUT_TRANSCRIPTION_MODEL@))]),
            ),
            ("turn_detection"@, turn_detection()),
        ],
    )
}

/// How the model's audio goes out.
pub open spec fn output_audio(cfg: RealtimeConfig) -> JsonView {
    JsonView::Object(
        seq![("format"@, pcmu_format()), ("voice"@, JsonView::Text(cfg.voice@))],
    )
}

/// The session that a call asks for.
pub open spec fn session(cfg: RealtimeConfig, meta: CallMeta) -> JsonView {
    JsonView::Object(
        seq![
            ("type"@, JsonView::Text("realtime"@)),
            ("model"@, JsonView::Text(cfg.model@)),
            ("instructions"@, JsonView::Text(instructions_text(meta))),
            ("output_modalities"@, JsonView::Array(seq![JsonView::Text("audio"@)])),
            (
                "audio"@,
                JsonView::Object(seq![("input"@, input_audio()), ("output"@, output_audio(cfg))]),
            ),
            ("tool_choice"@, JsonView::Text("auto"@)),
        ],
    )
}

/// The `session.update` message of a call.
pub open spec fn session_update_message(cfg: RealtimeConfig, meta: CallMeta) -> JsonView {
    JsonView::Object(
        seq![("type"@, JsonView::Text("session.update"@)), ("session"@, session(cfg, meta))],
    )
}

fn build_pcmu_format() -> (json: Json)
    ensures
        json@ == pcmu_format(),
        writable(json@),
{
    let mut members = no_members();
    put_text(&mut members, "type", "audio/pcmu");
    object(members)
}

fn build_turn_detection() -> (json: Json)
    ensures
        json@ == turn_detection(),
        writable(json@),
{
    proof {
        reveal_strlit("type");
        assert("type"@.len() == 4);
        reveal_strlit("threshold");
        assert("threshold"@.len() == 9);
        reveal_strlit("prefix_padding_ms");
        assert("prefix_padding_ms"@.len() == 17);
        reveal_strlit("silence_duration_ms");
        assert("silence_duration_ms"@.len() == 19);
        reveal_strlit("create_response");
        assert("create_response"@.len() == 15);
        reveal_strlit("interrupt_response");
        assert("interrupt_response"@.len() == 18);
        reveal_strlit("0.5");
        assert(plain_number("0.5"@));
        reveal_strlit("300");
        assert(plain_number("300"@));
        reveal_strlit("500");
        assert(plain_number("500"@));
    }
    let mut members = no_members();
    put_text(&mut members, "type", "server_vad");
    put(&mut members, "threshold", Json::Number("0.5".to_owned()));
    put(&mut members, "prefix_padding_ms", Json::Number("300".to_owned()));
    put(&mut members, "silence_duration_ms", Json::Number("500".to_owned()));
    put(&mut members, "create_response", Json::Bool(true));
    put(&mut members, "interrupt_response", Json::Bool(true));
    assert(members_view(members@) =~= turn_detection()->Object_0);
    object(members)
}

fn build_input_audio() -> (json: Json)
    ensures
        json@ == input_audio(),
        writable(json@),
{
    proof {
        reveal_strlit("format");
        assert("format"@.len() == 6);
        reveal_strlit("transcription");
        assert("transcription"@.len() == 13);
        reveal_strlit("turn_detection");
        assert("turn_detection"@.len() == 14);
    }
    let mut transcription = no_members();
    put_text(&mut transcription, "model", INPUT_TRANSCRIPTION_MODEL);
    let mut members = no_members();
    put(&mut members, "format", build_pcmu_format());
    put(&mut members, "transcription", object(transcription));
    put(&mut members, "turn_detection", build_turn_detection());
    assert(members_view(members@) =~= input_audio()->Object_0);
    object(members)
}

fn build_output_audio(cfg: &RealtimeConfig) -> (json: Json)
    ensures
        json@ == output_audio(*cfg),
        writable(json@),
{
    proof {
        reveal_strlit("format");
        assert("format"@.len() == 6);
        reveal_strlit("voice");
        assert("voice"@.len() == 5);
    }
    let mut members = no_members();
    put(&mut members, "format", build_pcmu_format());
    put_text(&mut members, "voice", cfg.voice.as_str());
    assert(members_view(members@) =~= output_audio(*cfg)->Object_0);
    object(members)
}

fn build_session(cfg: &RealtimeConfig, meta: &CallMeta) -> (json: Json)
    ensures
        json@ == session(*cfg, *meta),
        writable(json@),
{
    proof {
        reveal_strlit("input");
        assert("input"@.len() == 5);
        reveal_strlit("output");
        assert("output"@.len() == 6);
        reveal_strlit("type");
        assert("type"@.len() == 4);
        reveal_strlit("model");
        assert("model"@.len() == 5);
        reveal_strlit("instructions");
        assert("instructions"@.len() == 12);
        reveal_strlit("output_modalities");
        assert("output_modalities"@.len() == 17);
        reveal_strlit("audio");
        assert("audio"@.len() == 5);
        reveal_strlit("tool_choice");
        assert("tool_choice"@.len() == 11);
        assert("model"@[0] != "audio"@[0]);
    }
    let mut audio = no_members();
    put(&mut audio, "input", build_input_audio());
    put(&mut audio, "output", build_output_audio(cfg));
    assert(members_view(audio@) =~= seq![("input"@, input_audio()), ("output"@, output_audio(*cfg))]);
    let mut members = no_members();
    put_text(&mut members, "type", "realtime");
    put_text(&mut members, "model", cfg.model.as_str());
    put_text(&mut members, "instructions", build_instructions(meta).as_str());
    put(&mut members, "output_modalities", singleton(Json::Text("audio".to_owned())));
    put(&mut members, "audio", object(audio));
    put_text(&mut members, "tool_choice", "auto");
    assert(members_view(members@) =~= session(*cfg, *meta)->Object_0);
    object(members)
}

proof fn lemma_input_audio_reads_back()
    ensures
        reads_back(input_audio(), 97),
{
    reveal_with_fuel(reads_back, 2);
    reveal_strlit("type");
    assert(plain_key("type"@));
    reveal_strlit("threshold");
    assert(plain_key("threshold"@));
    reveal_strlit("prefix_padding_ms");
    assert(plain_key("prefix_padding_ms"@));
    reveal_strlit("silence_duration_ms");
    assert(plain_key("silence_duration_ms"@));
    reveal_strlit("create_response");
    assert(plain_key("create_response"@));
    reveal_strlit("interrupt_response");
    assert(plain_key("interrupt_response"@));
    reveal_strlit("format");
    assert(plain_key("format"@));
    reveal_strlit("transcription");
    assert(plain_key("transcription"@));
    reveal_strlit("turn_detection");
    assert(plain_key("turn_detection"@));
    reveal_strlit("model");
    assert(plain_key("model"@));
    assert(reads_back(turn_detection(), 96));
    assert(reads_back(pcmu_format(), 96));
    assert(reads_back(
        JsonView::Object(seq![("model"@, JsonView::Text(INPUT_TRANSCRIPTION_MODEL@))]),
        96,
    ));
}

proof fn lemma_session_update_reads_back(cfg: RealtimeConfig, meta: CallMeta)
    ensures
        reads_back(session_update_message(cfg, meta), MAX_LEVELS as nat),
{
    reveal_with_fuel(reads_back, 2);
    lemma_input_audio_reads_back();
    reveal_strlit("type");
    assert(plain_key("type"@));
    reveal_strlit("format");
    assert(plain_key("format"@));
    reveal_strlit("model");
    assert(plain_key("model"@));
    reveal_strlit("voice");
    assert(plain_key("voice"@));
    reveal_strlit("input");
    assert(plain_key("input"@));
    reveal_strlit("output");
    assert(plain_key("output"@));
    reveal_strlit("instructions");
    assert(plain_key("instructions"@));
    reveal_strlit("output_modalities");
    assert(plain_key("output_modalities"@));
    reveal_strlit("audio");
    assert(plain_key("audio"@));
    reveal_strlit("tool_choice");
    assert(plain_key("tool_choice"@));
    reveal_strlit("session");
    assert(plain_key("session"@));
    assert(reads_back(pcmu_format(), 96));
    assert(reads_back(output_audio(cfg), 97));
    let audio = JsonView::Object(
        seq![("input"@, input_audio()), ("output"@, output_audio(cfg))],
    );
    assert(reads_back(audio, 98));
    assert(reads_back(JsonView::Array(seq![JsonView::Text("audio"@)]), 98));
    assert(reads_back(session(cfg, meta), 99));
}

/// Builds the `session.update` message: PCMU audio both ways, server-side turn detection, the
/// configured voice, and transcription of the caller.
pub fn session_update(cfg: &RealtimeConfig, meta: &CallMeta) -> (message: Json)
    ensures
        message@ == session_update_message(*cfg, *meta),
        writable(message@),
        reads_back(message@, MAX_LEVELS as nat),
{
    proof {
        reveal_strlit("type");
        assert("type"@.len() == 4);
        reveal_strlit("session");
        assert("session"@.len() == 7);
    }
    let mut members = no_members();
    put_text(&mut members, "type", "session.update");
    put(&mut members, "session", build_session(cfg, meta));
    assert(members_view(members@) =~= session_update_message(*cfg, *meta)->Object_0);
    proof {
        lemma_session_update_reads_back(*cfg, *meta);
    }
    object(members)
}

/// Where the realtime API listens.
pub const OPENAI_REALTIME_URL: &'static str = "wss://api.openai.com/v1/realtime";

/// The URL of a realtime session with the given model.
pub open spec fn realtime_url_text(model: Seq<char>) -> Seq<char> {
    OPENAI_REALTIME_URL@ + "?model="@ + percent_encoded(encode_utf8(model))
}

/// Where the realtime API is hosted.
pub const OPENAI_HOST: &'static str = "api.openai.com";

/// The URL has plain parts, its host among them.
proof fn lemma_realtime_url_is_plain(model: Seq<char>)
    ensures
        ({
            let query = "model="@ + percent_encoded(encode_utf8(model));
            &&& realtime_url_text(model) == wss_url(OPENAI_HOST@, "v1/realtime"@, query)
            &&& plain_parts(OPENAI_HOST@, "v1/realtime"@, query)
        }),
{
    let encoded = percent_encoded(encode_utf8(model));
    let host = OPENAI_HOST@;
    let path = "v1/realtime"@;
    let query = "model="@ + encoded;
    reveal_strlit("wss://api.openai.com/v1/realtime");
    reveal_strlit("?model=");
    reveal_strlit("wss://");
    reveal_strlit("/");
    reveal_strlit("?");
    reveal_strlit("api.openai.com");
    reveal_strlit("v1/realtime");
    reveal_strlit("model=");
    lemma_percent_encoded_chars(encode_utf8(model));
    assert(OPENAI_REALTIME_URL@ =~= "wss://"@ + host + "/"@ + path);
    assert("?model="@ =~= "?"@ + "model="@);
    assert(realtime_url_text(model) =~= wss_url(host, path, query));
    assert forall|i: int| 0 <= i < query.len() implies query_char(#[trigger] query[i]) by {
        if i >= "model="@.len() {
            assert(query[i] == encoded[i - "model="@.len()]);
        }
    }
}

/// The URL of a realtime session with the configured model.
pub fn realtime_url(cfg: &RealtimeConfig) -> (url: String)
    ensures
        url@ == realtime_url_text(cfg.model@),
{
    let mut url = OPENAI_REALTIME_URL.to_owned();
    url.append("?model=");
    url.append(url_encode(cfg.model.as_str()).as_str());
    url
}

/// Why no request for a realtime session can be made.
#[derive(Debug, Clone)]
pub enum ConnectError {
    /// The URL was refused, for the reason that is given.
    BadUrl(String),
    /// The API key cannot stand in a header, for the reason that is given.
    BadAuthHeader(String),
}

impl ConnectError {
    /// The words of the error: what was refused, and the reason.
    pub open spec fn words(self) -> Seq<char> {
        match self {
            ConnectError::BadUrl(reason) => "realtime: bad URL: "@ + reason@,
            ConnectError::BadAuthHeader(reason) => "realtime: bad auth header: "@ + reason@,
        }
    }

    /// The words of the error.
    pub fn message(&self) -> (text: String)
        ensures
            text@ == self.words(),
    {
        match self {
            ConnectError::BadUrl(reason) => "realtime: bad URL: ".to_owned().concat(
                reason.as_str(),
            ),
            ConnectError::BadAuthHeader(reason) => "realtime: bad auth header: ".to_owned().concat(
                reason.as_str(),
            ),
        }
    }
}

/// The value of the `Authorization` header.
pub open spec fn bearer_text(api_key: Seq<char>) -> Seq<char> {
    "Bearer "@ + api_key
}

/// The words of the error where no request can be made: the URL is refused for its length before
/// the API key is looked at.
pub open spec fn connect_failure(cfg: RealtimeConfig) -> Option<Seq<char>> {
    if realtime_url_text(cfg.model@).len() > MAX_URI_LEN {
        Some("realtime: bad URL: "@ + "HTTP format error: uri too long"@)
    } else if !header_text(bearer_text(cfg.api_key@)) {
        Some("realtime: bad auth header: "@ + "failed to parse header value"@)
    } else {
        None
    }
}

/// Makes the handshake request for a realtime session, with Bearer authorization.
pub fn realtime_request(cfg: &RealtimeConfig) -> (request: Result<Request<()>, ConnectError>)
    ensures
        match request {
            Ok(r) => {
                &&& realtime_url_text(cfg.model@).len() <= MAX_URI_LEN
                &&& header_text(bearer_text(cfg.api_key@))
                &&& connect_failure(*cfg) is None
                &&& request_uri(r) == realtime_url_text(cfg.model@)
                &&& handshake_fields(request_fields(r).remove("authorization"@), OPENAI_HOST@)
                &&& request_fields(r).contains_key("authorization"@)
                &&& request_fields(r)["authorization"@] == seq![
                    encode_utf8(bearer_text(cfg.api_key@)),
                ]
            },
            Err(error) => {
                &&& connect_failure(*cfg) == Some(error.words())
                &&& match error {
                    ConnectError::BadUrl(_) => realtime_url_text(cfg.model@).len() > MAX_URI_LEN,
                    ConnectError::BadAuthHeader(_) => realtime_url_text(cfg.model@).len()
                        <= MAX_URI_LEN && !header_text(bearer_text(cfg.api_key@)),
                }
            },
        },
{
    let url = realtime_url(cfg);
    proof {
        lemma_realtime_url_is_plain(cfg.model@);
    }
    let mut request = match client_request(url.as_str()) {
        Ok(request) => request,
        Err(error) => {
            return Err(ConnectError::BadUrl(uri_refusal_text(&error)));
        },
    };
    let bearer = "Bearer ".to_owned().concat(cfg.api_key.as_str());
    let value = match header_value(bearer.as_str()) {
        Ok(value) => value,
        Err(error) => {
            return Err(ConnectError::BadAuthHeader(header_refusal_text(&error)));
        },
    };
    proof {
        reveal_strlit("authorization");
        assert("authorization"@.len() == 13);
        reveal_strlit("host");
        assert("host"@.len() == 4);
        reveal_strlit("connection");
        assert("connection"@.len() == 10);
        reveal_strlit("upgrade");
        assert("upgrade"@.len() == 7);
        reveal_strlit("sec-websocket-version");
        assert("sec-websocket-version"@.len() == 21);
        reveal_strlit("sec-websocket-key");
        assert("sec-websocket-key"@.len() == 17);
    }
    let ghost handshake = request_fields(request);
    assert(handshake_fields(handshake, OPENAI_HOST@));
    insert_header(request_headers(&mut request), "authorization", value);
    assert(request_fields(request).remove("authorization"@) =~= handshake);
    Ok(request)
}

/// The API key does not show in the error: configurations that differ in it alone fail with the
/// same words where both fail. A key that cannot stand in a header always fails, with the words of
/// a bad header unless the URL has been refused before.
pub proof fn law_key_stays_out_of_error_text(a: RealtimeConfig, b: RealtimeConfig)
    requires
        a.model@ == b.model@,
    ensures
        connect_failure(a) is Some && connect_failure(b) is Some ==> connect_failure(a)
            == connect_failure(b),
        !header_text(bearer_text(a.api_key@)) ==> connect_failure(a) is Some,
        !header_text(bearer_text(a.api_key@)) && realtime_url_text(a.model@).len() <= MAX_URI_LEN
            ==> "realtime: bad auth header: "@.is_prefix_of(connect_failure(a)->0),
{
}

/// The instructions name the contact as given, or the caller where none is known, and say how to
/// speak.
pub proof fn law_instructions_name_the_contact(meta: CallMeta, who: Seq<char>)
    requires
        match meta.contact_name {
            Some(name) => who == name@,
            None => who == "the caller"@,
        },
    ensures
        ("You are a helpful voice assistant on a live phone call with "@ + who
            + ". Speak naturally and concisely, one short turn at a time. This is spoken audio, not text — no markdown, no long monologues. Direction: "@).is_prefix_of(
            instructions_text(meta),
        ),
{
}

/// The instructions end with the direction as given, or `inbound` where none is; nothing else in
/// them depends on it.
pub proof fn law_instructions_end_with_the_direction(a: CallMeta, b: CallMeta)
    requires
        a.contact_name == b.contact_name,
        a.direction@.len() > 0,
        b.direction@.len() == 0,
    ensures
        exists|start: Seq<char>|
            instructions_text(a) == #[trigger] (start + a.direction@ + "."@) && instructions_text(b)
                == start + "inbound"@ + "."@,
{
    let who = match a.contact_name {
        Some(name) => name@,
        None => "the caller"@,
    };
    let start = "You are a helpful voice assistant on a live phone call with "@ + who
        + ". Speak naturally and concisely, one short turn at a time. This is spoken audio, not text — no markdown, no long monologues. Direction: "@;
    assert(instructions_text(a) =~= start + a.direction@ + "."@);
    assert(instructions_text(b) =~= start + "inbound"@ + "."@);
}

/// The instructions are no longer than what they are made of.
pub proof fn law_instructions_hold_nothing_else(meta: CallMeta)
    ensures
        instructions_text(meta).len() == "You are a helpful voice assistant on a live phone call with "@.len()
            + (match meta.contact_name {
            Some(name) => name@.len(),
            None => "the caller"@.len(),
        })
            + ". Speak naturally and concisely, one short turn at a time. This is spoken audio, not text — no markdown, no long monologues. Direction: "@.len()
            + (if meta.direction@.len() == 0 {
            "inbound"@.len()
        } else {
            meta.direction@.len()
        }) + "."@.len(),
{
}

/// The direction alone decides the kind of greeting: every outbound call opens in the same words,
/// whoever it is with and whether or not that is known, and no other call does.
pub proof fn law_direction_alone_decides_the_greeting(outbound: CallMeta, other: CallMeta)
    requires
        outbound.direction@ == "outbound"@,
    ensures
        greeting_text(outbound)
            == "Open the call: greet the person and concisely explain why you're calling. One short sentence, then wait."@,
        other.direction@ == "outbound"@ <==> greeting_text(other) == greeting_text(outbound),
{
    reveal_strlit(
        "Open the call: greet the person and concisely explain why you're calling. One short sentence, then wait.",
    );
    reveal_strlit("Greet the caller now: say something like \"Hi ");
    if other.direction@ != "outbound"@ {
        assert(greeting_text(other)[0] == 'G');
        assert(greeting_text(outbound)[0] == 'O');
    }
}

/// A call that is not outbound is greeted by the first word of the contact's name, whatever white
/// space stands around it and whatever the direction is called.
pub proof fn law_caller_is_greeted_by_first_name(
    meta: CallMeta,
    name: String,
    before: Seq<char>,
    word: Seq<char>,
    behind: Seq<char>,
)
    requires
        meta.direction@ != "outbound"@,
        meta.contact_name == Some(name),
        name@ == before + word + behind,
        blank(before),
        word.len() > 0,
        forall|i: int| 0 <= i < word.len() ==> !white_space(#[trigger] word[i]),
        behind.len() > 0 ==> white_space(behind[0]),
    ensures
        greeting_text(meta) == "Greet the caller now: say something like \"Hi "@ + word
            + ", how can I help?\" One short sentence, then wait."@,
{
    law_first_word_is_found(before, word, behind);
}

/// A call that is not outbound is greeted by `there` where no name is known, and by the name as it
/// is where it has no word.
pub proof fn law_caller_without_a_word_for_a_name(meta: CallMeta)
    requires
        meta.direction@ != "outbound"@,
        meta.contact_name matches Some(name) ==> blank(name@),
    ensures
        greeting_text(meta) == "Greet the caller now: say something like \"Hi "@ + (
        match meta.contact_name {
            Some(name) => name@,
            None => "there"@,
        }) + ", how can I help?\" One short sentence, then wait."@,
{
}

proof fn lemma_turn_detection_members()
    ensures
        ({
            let it = Some(turn_detection());
            &&& size(it) == 6
            &&& within(it, "type"@) == Some(JsonView::Text("server_vad"@))
            &&& within(it, "threshold"@) == Some(JsonView::Number("0.5"@))
            &&& within(it, "prefix_padding_ms"@) == Some(JsonView::Number("300"@))
            &&& within(it, "silence_duration_ms"@) == Some(JsonView::Number("500"@))
            &&& within(it, "create_response"@) == Some(JsonView::Bool(true))
            &&& within(it, "interrupt_response"@) == Some(JsonView::Bool(true))
        }),
{
    reveal_strlit("type");
    reveal_strlit("threshold");
    reveal_strlit("prefix_padding_ms");
    reveal_strlit("silence_duration_ms");
    reveal_strlit("create_response");
    reveal_strlit("interrupt_response");
    assert("type"@.len() == 4 && "threshold"@.len() == 9 && "prefix_padding_ms"@.len() == 17);
    assert("silence_duration_ms"@.len() == 19 && "create_response"@.len() == 15);
    assert("interrupt_response"@.len() == 18);
    let members = turn_detection()->Object_0;
    law_first_member_is_found(members, 0);
    law_first_member_is_found(members, 1);
    law_first_member_is_found(members, 2);
    law_first_member_is_found(members, 3);
    law_first_member_is_found(members, 4);
    law_first_member_is_found(members, 5);
}

proof fn lemma_audio_members(cfg: RealtimeConfig)
    ensures
        size(Some(input_audio())) == 3,
        size(Some(output_audio(cfg))) == 2,
        size(within(Some(input_audio()), "format"@)) == 1,
        size(within(Some(input_audio()), "transcription"@)) == 1,
        size(within(Some(output_audio(cfg)), "format"@)) == 1,
        within(within(Some(input_audio()), "format"@), "type"@) == Some(
            JsonView::Text("audio/pcmu"@),
        ),
        within(within(Some(input_audio()), "transcription"@), "model"@) == Some(
            JsonView::Text("gpt-4o-mini-transcribe"@),
        ),
        within(Some(input_audio()), "turn_detection"@) == Some(turn_detection()),
        within(within(Some(output_audio(cfg)), "format"@), "type"@) == Some(
            JsonView::Text("audio/pcmu"@),
        ),
        within(Some(output_audio(cfg)), "voice"@) == Some(JsonView::Text(cfg.voice@)),
{
    reveal_strlit("format");
    reveal_strlit("transcription");
    reveal_strlit("turn_detection");
    reveal_strlit("voice");
    assert("format"@.len() == 6 && "transcription"@.len() == 13 && "turn_detection"@.len() == 14);
    assert("voice"@.len() == 5);
    let input = input_audio()->Object_0;
    law_first_member_is_found(input, 0);
    law_first_member_is_found(input, 1);
    law_first_member_is_found(input, 2);
    law_first_member_is_found(input[1].1->Object_0, 0);
    let output = output_audio(cfg)->Object_0;
    law_first_member_is_found(output, 0);
    law_first_member_is_found(output, 1);
    law_first_member_is_found(pcmu_format()->Object_0, 0);
}

proof fn lemma_session_members(cfg: RealtimeConfig, meta: CallMeta)
    ensures
        ({
            let message = Some(session_update_message(cfg, meta));
            let it = within(message, "session"@);
            &&& size(message) == 2
            &&& within(message, "type"@) == Some(JsonView::Text("session.update"@))
            &&& size(it) == 6
            &&& within(it, "type"@) == Some(JsonView::Text("realtime"@))
            &&& within(it, "model"@) == Some(JsonView::Text(cfg.model@))
            &&& within(it, "instructions"@) == Some(JsonView::Text(instructions_text(meta)))
            &&& within(it, "output_modalities"@) == Some(
                JsonView::Array(seq![JsonView::Text("audio"@)]),
            )
            &&& within(it, "tool_choice"@) == Some(JsonView::Text("auto"@))
            &&& size(within(it, "audio"@)) == 2
            &&& within(within(it, "audio"@), "input"@) == Some(input_audio())
            &&& within(within(it, "audio"@), "output"@) == Some(output_audio(cfg))
        }),
{
    reveal_strlit("session");
    reveal_strlit("type");
    reveal_strlit("model");
    reveal_strlit("instructions");
    reveal_strlit("output_modalities");
    reveal_strlit("audio");
    reveal_strlit("tool_choice");
    reveal_strlit("input");
    reveal_strlit("output");
    assert("session"@.len() == 7 && "type"@.len() == 4 && "model"@.len() == 5);
    assert("instructions"@.len() == 12 && "output_modalities"@.len() == 17);
    assert("audio"@.len() == 5 && "tool_choice"@.len() == 11);
    assert("input"@.len() == 5 && "output"@.len() == 6);
    assert("model"@[0] != "audio"@[0]);
    let message = session_update_message(cfg, meta)->Object_0;
    law_first_member_is_found(message, 0);
    law_first_member_is_found(message, 1);
    let members = session(cfg, meta)->Object_0;
    law_first_member_is_found(members, 0);
    law_first_member_is_found(members, 1);
    law_first_member_is_found(members, 2);
    law_first_member_is_found(members, 3);
    law_first_member_is_found(members, 4);
    law_first_member_is_found(members, 5);
    let audio = members[4].1->Object_0;
    law_first_member_is_found(audio, 0);
    law_first_member_is_found(audio, 1);
}

/// The session is asked for with the configured model and the configured voice, as they are, and
/// with the instructions of the call.
pub proof fn law_session_carries_the_configuration(cfg: RealtimeConfig, meta: CallMeta)
    ensures
        ({
            let message = Some(session_update_message(cfg, meta));
            let it = within(message, "session"@);
            let output = within(within(it, "audio"@), "output"@);
            &&& within(message, "type"@) == Some(JsonView::Text("session.update"@))
            &&& within(it, "type"@) == Some(JsonView::Text("realtime"@))
            &&& within(it, "model"@) == Some(JsonView::Text(cfg.model@))
            &&& within(it, "instructions"@) == Some(JsonView::Text(instructions_text(meta)))
            &&& within(output, "voice"@) == Some(JsonView::Text(cfg.voice@))
        }),
{
    lemma_session_members(cfg, meta);
    lemma_audio_members(cfg);
}

/// Whatever the configuration, the session speaks and hears PCMU audio, transcribes the caller, and
/// lets the server take turns, answer and yield.
pub proof fn law_session_speaks_phone_audio(cfg: RealtimeConfig, meta: CallMeta)
    ensures
        ({
            let it = within(Some(session_update_message(cfg, meta)), "session"@);
            let input = within(within(it, "audio"@), "input"@);
            let output = within(within(it, "audio"@), "output"@);
            let turns = within(input, "turn_detection"@);
            &&& within(it, "output_modalities"@) == Some(
                JsonView::Array(seq![JsonView::Text("audio"@)]),
            )
            &&& within(it, "tool_choice"@) == Some(JsonView::Text("auto"@))
            &&& within(within(input, "format"@), "type"@) == Some(JsonView::Text("audio/pcmu"@))
            &&& within(within(output, "format"@), "type"@) == Some(JsonView::Text("audio/pcmu"@))
            &&& within(within(input, "transcription"@), "model"@) == Some(
                JsonView::Text("gpt-4o-mini-transcribe"@),
            )
            &&& within(turns, "type"@) == Some(JsonView::Text("server_vad"@))
            &&& within(turns, "threshold"@) == Some(JsonView::Number("0.5"@))
            &&& within(turns, "prefix_padding_ms"@) == Some(JsonView::Number("300"@))
            &&& within(turns, "silence_duration_ms"@) == Some(JsonView::Number("500"@))
            &&& within(turns, "create_response"@) == Some(JsonView::Bool(true))
            &&& within(turns, "interrupt_response"@) == Some(JsonView::Bool(true))
        }),
{
    lemma_session_members(cfg, meta);
    lemma_audio_members(cfg);
    lemma_turn_detection_members();
}

/// The session is asked for with nothing but these settings.
pub proof fn law_session_holds_nothing_else(cfg: RealtimeConfig, meta: CallMeta)
    ensures
        ({
            let message = Some(session_update_message(cfg, meta));
            let it = within(message, "session"@);
            let input = within(within(it, "audio"@), "input"@);
            let output = within(within(it, "audio"@), "output"@);
            &&& size(message) == 2
            &&& size(it) == 6
            &&& size(within(it, "audio"@)) == 2
            &&& size(input) == 3
            &&& size(output) == 2
            &&& size(within(input, "format"@)) == 1
            &&& size(within(output, "format"@)) == 1
            &&& size(within(input, "transcription"@)) == 1
            &&& size(within(input, "turn_detection"@)) == 6
        }),
{
    lemma_session_members(cfg, meta);
    lemma_audio_members(cfg);
    lemma_turn_detection_members();
}

/// The URL names the realtime API and hands it the model, percent-encoded as a whole: it ends with
/// what the model's bytes are written as, and nothing in front of that depends on the model.
pub proof fn law_url_carries_the_model(model: Seq<char>)
    ensures
        realtime_url_text(model) == "wss://api.openai.com/v1/realtime?model="@ + percent_encoded(
            encode_utf8(model),
        ),
{
    reveal_strlit("wss://api.openai.com/v1/realtime?model=");
    reveal_strlit("wss://api.openai.com/v1/realtime");
    reveal_strlit("?model=");
    assert("wss://api.openai.com/v1/realtime"@ + "?model="@
        =~= "wss://api.openai.com/v1/realtime?model="@);
}

/// The key is handed over as it is behind the word `Bearer`: keys that differ give values that
/// differ.
pub proof fn law_authorization_carries_the_key(a: Seq<char>, b: Seq<char>)
    ensures
        bearer_text(a).len() == 7 + a.len(),
        bearer_text(a).skip(7) == a,
        bearer_text(a).take(7) == "Bearer "@,
        bearer_text(a) == bearer_text(b) <==> a == b,
{
    reveal_strlit("Bearer ");
    assert("Bearer "@.len() == 7);
    assert(bearer_text(a).skip(7) =~= a);
    assert(bearer_text(b).skip(7) =~= b);
    assert(bearer_text(a).take(7) =~= "Bearer "@);
}

/// A request fails exactly where the URL is too long or the key cannot stand in a header, in words
/// that tell which; the URL is looked at first.
pub proof fn law_connect_failure_tells_the_cause(cfg: RealtimeConfig)
    ensures
        ({
            let url = "wss://api.openai.com/v1/realtime?model="@ + percent_encoded(
                encode_utf8(cfg.model@),
            );
            let fits = url.len() <= 65534;
            let legal = header_text("Bearer "@ + cfg.api_key@);
            &&& fits && legal <==> connect_failure(cfg) is None
            &&& !fits ==> connect_failure(cfg) == Some(
                "realtime: bad URL: HTTP format error: uri too long"@,
            )
            &&& fits && !legal ==> connect_failure(cfg) == Some(
                "realtime: bad auth header: failed to parse header value"@,
            )
        }),
{
    law_url_carries_the_model(cfg.model@);
    reveal_strlit("realtime: bad URL: HTTP format error: uri too long");
    reveal_strlit("realtime: bad URL: ");
    reveal_strlit("HTTP format error: uri too long");
    reveal_strlit("realtime: bad auth header: failed to parse header value");
    reveal_strlit("realtime: bad auth header: ");
    reveal_strlit("failed to parse header value");
    assert("realtime: bad URL: "@ + "HTTP format error: uri too long"@
        =~= "realtime: bad URL: HTTP format error: uri too long"@);
    assert("realtime: bad auth header: "@ + "failed to parse header value"@
        =~= "realtime: bad auth header: failed to parse header value"@);
}

} // verus!
