//! The bridge of a call: what goes from the phone side to the model and back.
use vstd::prelude::*;

use crate::json::{
    find_member, json_text, law_first_member_is_found, law_missing_member_is_not_found, member,
    member_text, members_view, no_members, object, parse_json, parsed_json, plain_key, put, put_text,
    reads_back, render_json, size, within, writable, Json, JsonView, MAX_LEVELS,
};
use crate::realtime::{
    build_greeting, greeting_text, session_update, session_update_message, CallMeta, RealtimeConfig,
};
use crate::text::same_text;

verus! {

/// The two ends that a bridge connects.
#[derive(Debug, Clone, Copy, PartialEq, Eq, Structural)]
pub enum Peer {
    /// The call's media socket.
    Inkbox,
    /// The realtime model.
    OpenAi,
}

/// A message that is to be sent.
pub struct Outgoing {
    pub to: Peer,
    pub body: Json,
    /// Whether the call ends if the message cannot be sent.
    pub required: bool,
}

/// What a message that is to be sent is.
pub struct OutgoingView {
    pub to: Peer,
    pub body: JsonView,
    pub required: bool,
}

impl View for Outgoing {
    type V = OutgoingView;

    open spec fn view(&self) -> OutgoingView {
        OutgoingView { to: self.to, body: self.body@, required: self.required }
    }
}

impl Outgoing {
    /// The message can be written and read back.
    pub open spec fn wf(self) -> bool {
        writable(self.body@) && reads_back(self.body@, MAX_LEVELS as nat)
    }

    /// The text that goes over the wire.
    pub fn text(&self) -> (text: String)
        requires
            self.wf(),
        ensures
            text@ == json_text(self.body@),
            parsed_json(text@) == Some(self.body@),
    {
        render_json(&self.body)
    }

    /// Whether the call goes on once the message has been sent, or could not be.
    pub fn goes_on(&self, sent: bool) -> (goes_on: bool)
        ensures
            goes_on == (sent || !self.required),
    {
        sent || !self.required
    }
}

/// What follows from one input: the messages to send, in order, and whether the call is over.
pub struct Reaction {
    pub sends: Vec<Outgoing>,
    pub over: bool,
}

/// What follows from one input.
pub struct ReactionView {
    pub sends: Seq<OutgoingView>,
    pub over: bool,
}

/// The views of messages that are to be sent.
pub open spec fn sends_view(sends: Seq<Outgoing>) -> Seq<OutgoingView> {
    sends.map_values(|out: Outgoing| out@)
}

impl View for Reaction {
    type V = ReactionView;

    open spec fn view(&self) -> ReactionView {
        ReactionView { sends: sends_view(self.sends@), over: self.over }
    }
}

impl Reaction {
    /// Every message can be written.
    pub open spec fn wf(self) -> bool {
        forall|i: int| 0 <= i < self.sends@.len() ==> (#[trigger] self.sends@[i]).wf()
    }

    /// Nothing to send, and the call goes on.
    fn nothing() -> (reaction: Reaction)
        ensures
            reaction.wf(),
            reaction@ == nothing(),
    {
        let reaction = Reaction { sends: Vec::new(), over: false };
        assert(reaction@.sends =~= Seq::empty());
        reaction
    }

    /// Nothing to send, and the call is over.
    fn end() -> (reaction: Reaction)
        ensures
            reaction.wf(),
            reaction@ == end(),
    {
        let reaction = Reaction { sends: Vec::new(), over: true };
        assert(reaction@.sends =~= Seq::empty());
        reaction
    }

    /// Adds a message.
    fn send(&mut self, to: Peer, body: Json, required: bool)
        requires
            old(self).wf(),
            writable(body@),
            reads_back(body@, MAX_LEVELS as nat),
        ensures
            final(self).wf(),
            final(self)@ == and_send(old(self)@, to, body@, required),
    {
        self.sends.push(Outgoing { to, body, required });
        assert(self@.sends =~= and_send(old(self)@, to, body@, required).sends);
    }
}

/// Nothing to send, and the call goes on.
pub open spec fn nothing() -> ReactionView {
    ReactionView { sends: Seq::empty(), over: false }
}

/// Nothing to send, and the call is over.
pub open spec fn end() -> ReactionView {
    ReactionView { sends: Seq::empty(), over: true }
}

/// One more message to send.
pub open spec fn and_send(
    reaction: ReactionView,
    to: Peer,
    body: JsonView,
    required: bool,
) -> ReactionView {
    ReactionView { sends: reaction.sends.push(OutgoingView { to, body, required }), ..reaction }
}

/// Asks the model to speak the greeting.
pub open spec fn greet_message(greeting: Seq<char>) -> JsonView {
    JsonView::Object(
        seq![
            ("type"@, JsonView::Text("response.create"@)),
            ("response"@, JsonView::Object(seq![("instructions"@, JsonView::Text(greeting))])),
        ],
    )
}

/// Hands the caller's audio to the model.
pub open spec fn append_message(payload: Seq<char>) -> JsonView {
    JsonView::Object(
        seq![
            ("type"@, JsonView::Text("input_audio_buffer.append"@)),
            ("audio"@, JsonView::Text(payload)),
        ],
    )
}

/// Members with the id of the media stream at the end, where it is known.
pub open spec fn with_stream_id(
    members: Seq<(Seq<char>, JsonView)>,
    stream_id: Option<Seq<char>>,
) -> Seq<(Seq<char>, JsonView)> {
    match stream_id {
        Some(id) => members.push(("stream_id"@, JsonView::Text(id))),
        None => members,
    }
}

/// Hands the model's audio to the caller.
pub open spec fn media_message(payload: Seq<char>, stream_id: Option<Seq<char>>) -> JsonView {
    JsonView::Object(
        with_stream_id(
            seq![
                ("event"@, JsonView::Text("media"@)),
                (
                    "media"@,
                    JsonView::Object(
                        seq![
                            ("payload"@, JsonView::Text(payload)),
                            ("track"@, JsonView::Text("outbound"@)),
                        ],
                    ),
                ),
            ],
            stream_id,
        ),
    )
}

/// Tells the phone side that the model has finished speaking.
pub open spec fn audio_done_message(stream_id: Option<Seq<char>>) -> JsonView {
    JsonView::Object(
        with_stream_id(seq![("event"@, JsonView::Text("audio_done"@))], stream_id),
    )
}

/// Tells the phone side to drop audio that has not been played yet.
pub open spec fn clear_message() -> JsonView {
    JsonView::Object(seq![("event"@, JsonView::Text("clear"@))])
}

fn build_greet(greeting: &str) -> (body: Json)
    ensures
        body@ == greet_message(greeting@),
        writable(body@),
        reads_back(body@, MAX_LEVELS as nat),
{
    proof {
        reveal_strlit("type");
        assert("type"@.len() == 4);
        reveal_strlit("response");
        assert("response"@.len() == 8);
    }
    let mut response = no_members();
    put_text(&mut response, "instructions", greeting);
    let mut members = no_members();
    put_text(&mut members, "type", "response.create");
    put(&mut members, "response", object(response));
    assert(members_view(members@) =~= greet_message(greeting@)->Object_0);
    proof {
        reveal_with_fuel(reads_back, 4);
        assert(plain_key("type"@));
        assert(plain_key("response"@));
        reveal_strlit("instructions");
        assert(plain_key("instructions"@));
    }
    object(members)
}

fn build_append(payload: &str) -> (body: Json)
    ensures
        body@ == append_message(payload@),
        writable(body@),
        reads_back(body@, MAX_LEVELS as nat),
{
    proof {
        reveal_strlit("type");
        assert("type"@.len() == 4);
        reveal_strlit("audio");
        assert("audio"@.len() == 5);
    }
    let mut members = no_members();
    put_text(&mut members, "type", "input_audio_buffer.append");
    put_text(&mut members, "audio", payload);
    assert(members_view(members@) =~= append_message(payload@)->Object_0);
    proof {
        reveal_with_fuel(reads_back, 4);
        assert(plain_key("type"@));
        assert(plain_key("audio"@));
    }
    object(members)
}

/// The view of a stream id.
pub open spec fn id_view(stream_id: Option<String>) -> Option<Seq<char>> {
    match stream_id {
        Some(id) => Some(id@),
        None => None,
    }
}

fn build_media(payload: &str, stream_id: &Option<String>) -> (body: Json)
    ensures
        body@ == media_message(payload@, id_view(*stream_id)),
        writable(body@),
        reads_back(body@, MAX_LEVELS as nat),
{
    proof {
        reveal_strlit("event");
        assert("event"@.len() == 5);
        reveal_strlit("media");
        assert("media"@.len() == 5);
        assert("event"@[0] != "media"@[0]);
        reveal_strlit("stream_id");
        assert("stream_id"@.len() == 9);
        reveal_strlit("payload");
        assert("payload"@.len() == 7);
        reveal_strlit("track");
        assert("track"@.len() == 5);
    }
    let mut media = no_members();
    put_text(&mut media, "payload", payload);
    put_text(&mut media, "track", "outbound");
    assert(members_view(media@) =~= seq![
        ("payload"@, JsonView::Text(payload@)),
        ("track"@, JsonView::Text("outbound"@)),
    ]);
    let mut members = no_members();
    put_text(&mut members, "event", "media");
    put(&mut members, "media", object(media));
    match stream_id {
        Some(id) => put_text(&mut members, "stream_id", id.as_str()),
        None => {},
    }
    assert(members_view(members@) =~= media_message(payload@, id_view(*stream_id))->Object_0);
    proof {
        reveal_with_fuel(reads_back, 4);
        assert(plain_key("event"@));
        assert(plain_key("media"@));
        assert(plain_key("payload"@));
        assert(plain_key("track"@));
        assert(plain_key("stream_id"@));
    }
    object(members)
}

fn build_audio_done(stream_id: &Option<String>) -> (body: Json)
    ensures
        body@ == audio_done_message(id_view(*stream_id)),
        writable(body@),
        reads_back(body@, MAX_LEVELS as nat),
{
    proof {
        reveal_strlit("event");
        assert("event"@.len() == 5);
        reveal_strlit("stream_id");
        assert("stream_id"@.len() == 9);
    }
    let mut members = no_members();
    put_text(&mut members, "event", "audio_done");
    match stream_id {
        Some(id) => put_text(&mut members, "stream_id", id.as_str()),
        None => {},
    }
    assert(members_view(members@) =~= audio_done_message(id_view(*stream_id))->Object_0);
    proof {
        reveal_with_fuel(reads_back, 4);
        assert(plain_key("event"@));
        assert(plain_key("stream_id"@));
    }
    object(members)
}

fn build_clear() -> (body: Json)
    ensures
        body@ == clear_message(),
        writable(body@),
        reads_back(body@, MAX_LEVELS as nat),
{
    let mut members = no_members();
    put_text(&mut members, "event", "clear");
    proof {
        reveal_with_fuel(reads_back, 4);
        reveal_strlit("event");
        assert(plain_key("event"@));
    }
    object(members)
}

/// The state of a call.
pub struct Bridge {
    pub meta: CallMeta,
    /// The media stream of the call, once it is known.
    pub stream_id: Option<String>,
    pub greeting_sent: bool,
    /// Who said what, in order.
    pub transcript: Vec<(String, String)>,
}

/// What the state of a call is.
pub struct BridgeView {
    pub meta: CallMeta,
    pub stream_id: Option<Seq<char>>,
    pub greeting_sent: bool,
    pub transcript: Seq<(Seq<char>, Seq<char>)>,
}

/// The view of a transcript.
pub open spec fn transcript_view(turns: Seq<(String, String)>) -> Seq<(Seq<char>, Seq<char>)> {
    turns.map_values(|turn: (String, String)| (turn.0@, turn.1@))
}

impl View for Bridge {
    type V = BridgeView;

    open spec fn view(&self) -> BridgeView {
        BridgeView {
            meta: self.meta,
            stream_id: id_view(self.stream_id),
            greeting_sent: self.greeting_sent,
            transcript: transcript_view(self.transcript@),
        }
    }
}

/// The audio in a media frame.
pub open spec fn media_payload(frame: JsonView) -> Option<Seq<char>> {
    match member(frame, "media"@) {
        Some(media) => member_text(media, "payload"@),
        None => None,
    }
}

/// A frame with which the phone side ends the call.
pub open spec fn hang_up(event: Seq<char>) -> bool {
    event == "stop"@ || event == "closed"@ || event == "hangup"@
}

/// A model event that carries audio.
pub open spec fn audio_event(kind: Seq<char>) -> bool {
    kind == "response.output_audio.delta"@ || kind == "response.audio.delta"@
}

/// A model event that ends a stretch of audio.
pub open spec fn audio_done_event(kind: Seq<char>) -> bool {
    kind == "response.output_audio.done"@ || kind == "response.audio.done"@
}

/// A model event that carries what the model said.
pub open spec fn agent_transcript_event(kind: Seq<char>) -> bool {
    kind == "response.audio_transcript.done"@ || kind == "response.output_audio_transcript.done"@
}

/// A frame from the phone side that means anything to a call.
pub open spec fn known_frame(frame: JsonView) -> bool {
    match member_text(frame, "event"@) {
        Some(event) => event == "start"@ || event == "media"@ || hang_up(event),
        None => false,
    }
}

/// An event from the model that means anything to a call.
pub open spec fn known_event(event: JsonView) -> bool {
    match member_text(event, "type"@) {
        Some(kind) => {
            ||| audio_event(kind)
            ||| audio_done_event(kind)
            ||| kind == "input_audio_buffer.speech_started"@
            ||| agent_transcript_event(kind)
            ||| kind == "conversation.item.input_audio_transcription.completed"@
        },
        None => false,
    }
}

/// A frame that brings the greeting where it is still due: the start of the stream, or audio.
pub open spec fn calls_for_greeting(frame: JsonView) -> bool {
    match member_text(frame, "event"@) {
        Some(event) => event == "start"@ || event == "media"@,
        None => false,
    }
}

/// The caller's audio that a frame carries: none, or one piece.
pub open spec fn frame_audio(frame: JsonView) -> Seq<Seq<char>> {
    match (member_text(frame, "event"@), media_payload(frame)) {
        (Some(event), Some(payload)) => if event == "media"@ {
            seq![payload]
        } else {
            Seq::empty()
        },
        _ => Seq::empty(),
    }
}

/// The id of the media stream after a frame, where it was `id` before: the start of a stream may
/// announce another.
pub open spec fn announced_id(frame: JsonView, id: Option<Seq<char>>) -> Option<Seq<char>> {
    match (member_text(frame, "event"@), member_text(frame, "stream_id"@)) {
        (Some(event), Some(announced)) => if event == "start"@ {
            Some(announced)
        } else {
            id
        },
        _ => id,
    }
}

/// The model's audio that an event carries, none or one piece, each with the id of its stream.
pub open spec fn event_audio(event: JsonView, id: Option<Seq<char>>) -> Seq<
    (Seq<char>, Option<Seq<char>>),
> {
    match (member_text(event, "type"@), member_text(event, "delta"@)) {
        (Some(kind), Some(delta)) => if audio_event(kind) {
            seq![(delta, id)]
        } else {
            Seq::empty()
        },
        _ => Seq::empty(),
    }
}

impl BridgeView {
    /// The call after the greeting has gone out.
    pub open spec fn greeted(self) -> BridgeView {
        BridgeView { greeting_sent: true, ..self }
    }

    /// The greeting where it has not been sent yet, and nothing otherwise.
    pub open spec fn greeting(self, required: bool) -> ReactionView {
        if self.greeting_sent {
            nothing()
        } else {
            and_send(nothing(), Peer::OpenAi, greet_message(greeting_text(self.meta)), required)
        }
    }

    /// The call with one more turn in its transcript.
    pub open spec fn said(self, who: Seq<char>, what: Seq<char>) -> BridgeView {
        BridgeView { transcript: self.transcript.push((who, what)), ..self }
    }

    /// The call after a frame from the phone side.
    pub open spec fn after_frame(self, frame: JsonView) -> BridgeView {
        match member_text(frame, "event"@) {
            Some(event) => if event == "start"@ {
                BridgeView {
                    stream_id: match member_text(frame, "stream_id"@) {
                        Some(id) => Some(id),
                        None => self.stream_id,
                    },
                    ..self.greeted()
                }
            } else if event == "media"@ {
                self.greeted()
            } else {
                self
            },
            None => self,
        }
    }

    /// What follows from a frame from the phone side. The start of the stream, or the first
    /// audio where no start comes, brings the greeting; audio goes on to the model.
    pub open spec fn on_frame(self, frame: JsonView) -> ReactionView {
        match member_text(frame, "event"@) {
            Some(event) => if event == "start"@ {
                self.greeting(true)
            } else if event == "media"@ {
                match media_payload(frame) {
                    Some(payload) => and_send(
                        self.greeting(false),
                        Peer::OpenAi,
                        append_message(payload),
                        true,
                    ),
                    None => self.greeting(false),
                }
            } else if hang_up(event) {
                end()
            } else {
                nothing()
            },
            None => nothing(),
        }
    }

    /// The call after an event from the model.
    pub open spec fn after_event(self, event: JsonView) -> BridgeView {
        match (member_text(event, "type"@), member_text(event, "transcript"@)) {
            (Some(kind), Some(what)) => if agent_transcript_event(kind) {
                self.said("agent"@, what)
            } else if kind == "conversation.item.input_audio_transcription.completed"@ {
                self.said("caller"@, what)
            } else {
                self
            },
            _ => self,
        }
    }

    /// What follows from an event from the model. Audio goes on to the caller; when the caller
    /// starts to speak, audio that waits is dropped.
    pub open spec fn on_event(self, event: JsonView) -> ReactionView {
        match member_text(event, "type"@) {
            Some(kind) => if audio_event(kind) {
                match member_text(event, "delta"@) {
                    Some(delta) => and_send(
                        nothing(),
                        Peer::Inkbox,
                        media_message(delta, self.stream_id),
                        true,
                    ),
                    None => nothing(),
                }
            } else if audio_done_event(kind) {
                and_send(nothing(), Peer::Inkbox, audio_done_message(self.stream_id), false)
            } else if kind == "input_audio_buffer.speech_started"@ {
                and_send(nothing(), Peer::Inkbox, clear_message(), false)
            } else {
                nothing()
            },
            None => nothing(),
        }
    }
}

/// A model event that carries a transcript carries no audio and is no barge-in.
proof fn lemma_kinds_differ(kind: Seq<char>)
    requires
        agent_transcript_event(kind) || kind
            == "conversation.item.input_audio_transcription.completed"@,
    ensures
        !audio_event(kind),
        !audio_done_event(kind),
        kind != "input_audio_buffer.speech_started"@,
        !(agent_transcript_event(kind) && kind
            == "conversation.item.input_audio_transcription.completed"@),
{
    reveal_strlit("response.output_audio.delta");
    assert("response.output_audio.delta"@.len() == 27);
    reveal_strlit("response.audio.delta");
    assert("response.audio.delta"@.len() == 20);
    reveal_strlit("response.output_audio.done");
    assert("response.output_audio.done"@.len() == 26);
    reveal_strlit("response.audio.done");
    assert("response.audio.done"@.len() == 19);
    reveal_strlit("input_audio_buffer.speech_started");
    assert("input_audio_buffer.speech_started"@.len() == 33);
    reveal_strlit("response.audio_transcript.done");
    assert("response.audio_transcript.done"@.len() == 30);
    reveal_strlit("response.output_audio_transcript.done");
    assert("response.output_audio_transcript.done"@.len() == 37);
    reveal_strlit("conversation.item.input_audio_transcription.completed");
    assert("conversation.item.input_audio_transcription.completed"@.len() == 53);
}

impl Bridge {
    /// A call that has just been connected.
    pub fn new(meta: CallMeta) -> (bridge: Bridge)
        ensures
            bridge@ == (BridgeView {
                meta,
                stream_id: None,
                greeting_sent: false,
                transcript: Seq::empty(),
            }),
    {
        let bridge = Bridge { meta, stream_id: None, greeting_sent: false, transcript: Vec::new() };
        assert(bridge@.transcript =~= Seq::empty());
        bridge
    }

    /// Adds the greeting where it has not been sent yet.
    fn greet(&mut self, reaction: &mut Reaction, required: bool)
        requires
            old(reaction).wf(),
            old(reaction)@ == nothing(),
        ensures
            final(self)@ == old(self)@.greeted(),
            final(reaction).wf(),
            final(reaction)@ == old(self)@.greeting(required),
    {
        if !self.greeting_sent {
            self.greeting_sent = true;
            let greeting = build_greeting(&self.meta);
            reaction.send(Peer::OpenAi, build_greet(greeting.as_str()), required);
        }
    }

    /// Takes a frame from the phone side.
    pub fn on_frame(&mut self, frame: &Json) -> (reaction: Reaction)
        ensures
            final(self)@ == old(self)@.after_frame(frame@),
            reaction.wf(),
            reaction@ == old(self)@.on_frame(frame@),
    {
        let mut reaction = Reaction::nothing();
        let event = match frame.get_text("event") {
            Some(event) => event.as_str(),
            None => {
                return reaction;
            },
        };
        if same_text(event, "start") {
            match frame.get_text("stream_id") {
                Some(id) => {
                    self.stream_id = Some(id.clone());
                },
                None => {},
            }
            self.greet(&mut reaction, true);
        } else if same_text(event, "media") {
            self.greet(&mut reaction, false);
            match frame.get("media") {
                Some(media) => match media.get_text("payload") {
                    Some(payload) => {
                        reaction.send(Peer::OpenAi, build_append(payload.as_str()), true);
                    },
                    None => {},
                },
                None => {},
            }
        } else if same_text(event, "stop") || same_text(event, "closed") || same_text(
            event,
            "hangup",
        ) {
            return Reaction::end();
        }
        reaction
    }

    /// Adds a turn to the transcript.
    fn say(&mut self, who: &str, what: &str)
        ensures
            final(self)@ == old(self)@.said(who@, what@),
    {
        self.transcript.push((who.to_owned(), what.to_owned()));
        assert(self@.transcript =~= old(self)@.said(who@, what@).transcript);
    }

    /// Takes an event from the model.
    pub fn on_event(&mut self, event: &Json) -> (reaction: Reaction)
        ensures
            final(self)@ == old(self)@.after_event(event@),
            reaction.wf(),
            reaction@ == old(self)@.on_event(event@),
    {
        let mut reaction = Reaction::nothing();
        let kind = match event.get_text("type") {
            Some(kind) => kind.as_str(),
            None => {
                return reaction;
            },
        };
        proof {
            if agent_transcript_event(kind@) || kind@
                == "conversation.item.input_audio_transcription.completed"@ {
                lemma_kinds_differ(kind@);
            }
        }
        if same_text(kind, "response.output_audio.delta") || same_text(kind, "response.audio.delta") {
            match event.get_text("delta") {
                Some(delta) => {
                    reaction.send(Peer::Inkbox, build_media(delta.as_str(), &self.stream_id), true);
                },
                None => {},
            }
        } else if same_text(kind, "response.output_audio.done") || same_text(
            kind,
            "response.audio.done",
        ) {
            reaction.send(Peer::Inkbox, build_audio_done(&self.stream_id), false);
        } else if same_text(kind, "input_audio_buffer.speech_started") {
            reaction.send(Peer::Inkbox, build_clear(), false);
        } else if same_text(kind, "response.audio_transcript.done") || same_text(
            kind,
            "response.output_audio_transcript.done",
        ) {
            match event.get_text("transcript") {
                Some(what) => self.say("agent", what.as_str()),
                None => {},
            }
        } else if same_text(kind, "conversation.item.input_audio_transcription.completed") {
            match event.get_text("transcript") {
                Some(what) => self.say("caller", what.as_str()),
                None => {},
            }
        }
        reaction
    }
}

/// What a socket yields.
pub enum SocketInput {
    /// A text message.
    Text(String),
    /// The other side closes the socket.
    Close,
    /// A message of another kind.
    Other,
    /// The socket has failed.
    Failed,
    /// There is nothing more to come.
    Ended,
}

impl BridgeView {
    /// The call after the phone side's socket has yielded `input`. A text that is not JSON is
    /// passed over.
    pub open spec fn after_inkbox(self, input: SocketInput) -> BridgeView {
        match input {
            SocketInput::Text(raw) => match parsed_json(raw@) {
                Some(frame) => self.after_frame(frame),
                None => self,
            },
            _ => self,
        }
    }

    /// What follows when the phone side's socket has yielded `input`. A close is passed over:
    /// the end of the socket comes after it.
    pub open spec fn on_inkbox(self, input: SocketInput) -> ReactionView {
        match input {
            SocketInput::Text(raw) => match parsed_json(raw@) {
                Some(frame) => self.on_frame(frame),
                None => nothing(),
            },
            SocketInput::Close | SocketInput::Other => nothing(),
            SocketInput::Failed | SocketInput::Ended => end(),
        }
    }

    /// The call after the model's socket has yielded `input`. A text that is not JSON is passed
    /// over.
    pub open spec fn after_openai(self, input: SocketInput) -> BridgeView {
        match input {
            SocketInput::Text(raw) => match parsed_json(raw@) {
                Some(event) => self.after_event(event),
                None => self,
            },
            _ => self,
        }
    }

    /// What follows when the model's socket has yielded `input`.
    pub open spec fn on_openai(self, input: SocketInput) -> ReactionView {
        match input {
            SocketInput::Text(raw) => match parsed_json(raw@) {
                Some(event) => self.on_event(event),
                None => nothing(),
            },
            SocketInput::Other => nothing(),
            SocketInput::Close | SocketInput::Failed | SocketInput::Ended => end(),
        }
    }
}

impl Bridge {
    /// The message that configures the session, first of all.
    pub fn opening(cfg: &RealtimeConfig, meta: &CallMeta) -> (out: Outgoing)
        ensures
            out.wf(),
            out@ == (OutgoingView {
                to: Peer::OpenAi,
                body: session_update_message(*cfg, *meta),
                required: true,
            }),
    {
        Outgoing { to: Peer::OpenAi, body: session_update(cfg, meta), required: true }
    }

    /// Takes what the phone side's socket yields.
    pub fn on_inkbox(&mut self, input: &SocketInput) -> (reaction: Reaction)
        ensures
            final(self)@ == old(self)@.after_inkbox(*input),
            reaction.wf(),
            reaction@ == old(self)@.on_inkbox(*input),
    {
        match input {
            SocketInput::Text(raw) => match parse_json(raw.as_str()) {
                Some(frame) => self.on_frame(&frame),
                None => Reaction::nothing(),
            },
            SocketInput::Close | SocketInput::Other => Reaction::nothing(),
            SocketInput::Failed | SocketInput::Ended => Reaction::end(),
        }
    }

    /// Takes what the model's socket yields.
    pub fn on_openai(&mut self, input: &SocketInput) -> (reaction: Reaction)
        ensures
            final(self)@ == old(self)@.after_openai(*input),
            reaction.wf(),
            reaction@ == old(self)@.on_openai(*input),
    {
        match input {
            SocketInput::Text(raw) => match parse_json(raw.as_str()) {
                Some(event) => self.on_event(&event),
                None => Reaction::nothing(),
            },
            SocketInput::Other => Reaction::nothing(),
            SocketInput::Close | SocketInput::Failed | SocketInput::Ended => Reaction::end(),
        }
    }

    /// How many turns the transcript holds.
    pub fn turns(&self) -> (count: usize)
        ensures
            count == self@.transcript.len(),
    {
        self.transcript.len()
    }
}

/// A message that makes the model speak.
pub open spec fn asks_for_response(out: OutgoingView) -> bool {
    out.to == Peer::OpenAi && member_text(out.body, "type"@) == Some("response.create"@)
}

/// A message that hands the caller's audio to the model.
pub open spec fn carries_audio(out: OutgoingView) -> bool {
    out.to == Peer::OpenAi && member_text(out.body, "type"@) == Some("input_audio_buffer.append"@)
}

/// The caller's audio that the messages hand to the model, piece by piece.
pub open spec fn caller_audio(sends: Seq<OutgoingView>) -> Seq<Seq<char>>
    decreases sends.len(),
{
    if sends.len() == 0 {
        Seq::empty()
    } else {
        let rest = caller_audio(sends.drop_first());
        match member_text(sends[0].body, "audio"@) {
            Some(payload) => if carries_audio(sends[0]) {
                seq![payload] + rest
            } else {
                rest
            },
            None => rest,
        }
    }
}

/// The model's audio that the messages hand to the phone side, piece by piece, each with the id of
/// its stream.
pub open spec fn model_audio(sends: Seq<OutgoingView>) -> Seq<(Seq<char>, Option<Seq<char>>)>
    decreases sends.len(),
{
    if sends.len() == 0 {
        Seq::empty()
    } else {
        let rest = model_audio(sends.drop_first());
        let body = sends[0].body;
        match media_payload(body) {
            Some(payload) => if sends[0].to == Peer::Inkbox && member_text(body, "event"@) == Some(
                "media"@,
            ) {
                seq![(payload, member_text(body, "stream_id"@))] + rest
            } else {
                rest
            },
            None => rest,
        }
    }
}

/// How many of the messages make the model speak.
pub open spec fn greetings(sends: Seq<OutgoingView>) -> nat
    decreases sends.len(),
{
    if sends.len() == 0 {
        0
    } else {
        (if asks_for_response(sends[0]) {
            1nat
        } else {
            0nat
        }) + greetings(sends.drop_first())
    }
}

/// What the messages to the model say of themselves.
pub proof fn lemma_message_types(greeting: Seq<char>, payload: Seq<char>)
    ensures
        member_text(greet_message(greeting), "type"@) == Some("response.create"@),
        member_text(append_message(payload), "type"@) == Some("input_audio_buffer.append"@),
        member_text(append_message(payload), "audio"@) == Some(payload),
        "response.create"@ != "input_audio_buffer.append"@,
{
    reveal_strlit("response.create");
    reveal_strlit("input_audio_buffer.append");
    assert("response.create"@.len() != "input_audio_buffer.append"@.len());
    reveal_strlit("type");
    reveal_strlit("audio");
    assert("type"@.len() != "audio"@.len());
    let members = append_message(payload)->Object_0;
    assert(members.drop_first()[0] == ("audio"@, JsonView::Text(payload)));
    reveal_with_fuel(find_member, 3);
}

/// A frame brings the greeting where it makes the call a greeted one, and then in first place; it
/// brings no greeting otherwise. No frame undoes the greeting, and audio goes out in a greeted
/// call only.
pub proof fn law_frame_greets_when_due(call: BridgeView, frame: JsonView)
    ensures
        greetings(call.on_frame(frame).sends) == if !call.greeting_sent && call.after_frame(
            frame,
        ).greeting_sent {
            1nat
        } else {
            0nat
        },
        call.greeting_sent ==> call.after_frame(frame).greeting_sent,
        !call.greeting_sent && call.after_frame(frame).greeting_sent ==> asks_for_response(
            call.on_frame(frame).sends[0],
        ) && call.on_frame(frame).sends.len() > 0,
        forall|i: int|
            0 <= i < call.on_frame(frame).sends.len() && carries_audio(
                #[trigger] call.on_frame(frame).sends[i],
            ) ==> call.after_frame(frame).greeting_sent,
{
    let sends = call.on_frame(frame).sends;
    reveal_with_fuel(greetings, 4);
    let payload = match media_payload(frame) {
        Some(payload) => payload,
        None => Seq::empty(),
    };
    lemma_message_types(greeting_text(call.meta), payload);
    reveal_strlit("start");
    reveal_strlit("media");
    reveal_strlit("stop");
    reveal_strlit("closed");
    reveal_strlit("hangup");
    if sends.len() == 1 {
        assert(sends.drop_first() =~= Seq::empty());
    } else if sends.len() == 2 {
        assert(sends.drop_first()[0] == sends[1]);
        assert(sends.drop_first().drop_first() =~= Seq::empty());
    }
}

/// A frame from the phone side brings messages to the model only.
pub proof fn law_frames_speak_to_the_model(call: BridgeView, frame: JsonView, i: int)
    requires
        0 <= i < call.on_frame(frame).sends.len(),
    ensures
        call.on_frame(frame).sends[i].to == Peer::OpenAi,
{
}

/// An event from the model brings messages to the phone side only.
pub proof fn law_events_speak_to_the_phone_side(call: BridgeView, event: JsonView, i: int)
    requires
        0 <= i < call.on_event(event).sends.len(),
    ensures
        call.on_event(event).sends[i].to == Peer::Inkbox,
{
}

/// The caller's audio reaches the model unchanged: it is in the last message that a media frame
/// brings.
pub proof fn law_caller_audio_reaches_the_model(
    call: BridgeView,
    frame: JsonView,
    payload: Seq<char>,
)
    requires
        member_text(frame, "event"@) == Some("media"@),
        media_payload(frame) == Some(payload),
    ensures
        !call.on_frame(frame).over,
        call.on_frame(frame).sends.len() > 0,
        carries_audio(call.on_frame(frame).sends.last()),
        member_text(call.on_frame(frame).sends.last().body, "audio"@) == Some(payload),
        call.on_frame(frame).sends.last().required,
{
    lemma_message_types(greeting_text(call.meta), payload);
    reveal_strlit("start");
    reveal_strlit("media");
    assert("start"@[0] != "media"@[0]);
}

/// The model's audio reaches the caller unchanged, as outbound media of the stream that the call
/// has announced.
pub proof fn law_model_audio_reaches_the_caller(
    call: BridgeView,
    event: JsonView,
    kind: Seq<char>,
    delta: Seq<char>,
)
    requires
        member_text(event, "type"@) == Some(kind),
        audio_event(kind),
        member_text(event, "delta"@) == Some(delta),
    ensures
        ({
            let reaction = call.on_event(event);
            let body = reaction.sends[0].body;
            &&& !reaction.over
            &&& reaction.sends.len() == 1
            &&& reaction.sends[0].to == Peer::Inkbox
            &&& member_text(body, "event"@) == Some("media"@)
            &&& media_payload(body) == Some(delta)
            &&& member(body, "media"@) matches Some(media) && member_text(media, "track"@) == Some(
                "outbound"@,
            )
            &&& member_text(body, "stream_id"@) == call.stream_id
        }),
{
    lemma_media_message(delta, call.stream_id);
}

proof fn lemma_media_message(payload: Seq<char>, stream_id: Option<Seq<char>>)
    ensures
        ({
            let body = media_message(payload, stream_id);
            &&& member_text(body, "event"@) == Some("media"@)
            &&& media_payload(body) == Some(payload)
            &&& member(body, "media"@) matches Some(media) && member_text(media, "track"@) == Some(
                "outbound"@,
            )
            &&& member_text(body, "stream_id"@) == stream_id
        }),
{
    reveal_strlit("event");
    reveal_strlit("media");
    reveal_strlit("stream_id");
    reveal_strlit("payload");
    reveal_strlit("track");
    assert("event"@[0] != "media"@[0]);
    assert("event"@.len() == 5 && "media"@.len() == 5 && "stream_id"@.len() == 9);
    assert("payload"@.len() == 7 && "track"@.len() == 5);
    reveal_with_fuel(find_member, 4);
    let members = media_message(payload, stream_id)->Object_0;
    assert(members.drop_first()[0] == members[1]);
    if stream_id is Some {
        assert(members.drop_first().drop_first()[0] == members[2]);
    } else {
        assert(members.drop_first().drop_first() =~= Seq::empty());
    }
    let media = members[1].1->Object_0;
    assert(media.drop_first()[0] == media[1]);
}

/// When the caller starts to speak, the phone side is told to drop the audio that waits.
pub proof fn law_barge_in_clears(call: BridgeView, event: JsonView)
    requires
        member_text(event, "type"@) == Some("input_audio_buffer.speech_started"@),
    ensures
        call.on_event(event) == and_send(nothing(), Peer::Inkbox, clear_message(), false),
        call.after_event(event) == call,
{
    reveal_strlit("input_audio_buffer.speech_started");
    reveal_strlit("response.output_audio.delta");
    reveal_strlit("response.audio.delta");
    reveal_strlit("response.output_audio.done");
    reveal_strlit("response.audio.done");
    assert("input_audio_buffer.speech_started"@.len() == 33);
    assert("response.output_audio.delta"@.len() == 27);
    assert("response.audio.delta"@.len() == 20);
    assert("response.output_audio.done"@.len() == 26);
    assert("response.audio.done"@.len() == 19);
    if member_text(event, "transcript"@) is Some {
        if agent_transcript_event("input_audio_buffer.speech_started"@)
            || "input_audio_buffer.speech_started"@
            == "conversation.item.input_audio_transcription.completed"@ {
            lemma_kinds_differ("input_audio_buffer.speech_started"@);
        }
    }
}

/// A frame by which the phone side ends the call.
pub open spec fn hangs_up(frame: JsonView) -> bool {
    match member_text(frame, "event"@) {
        Some(event) => hang_up(event),
        None => false,
    }
}

/// Only the phone side's own stop, closed or hangup frame ends a call by its contents, and such a
/// frame sends nothing and changes nothing.
pub proof fn law_only_a_hang_up_frame_ends_the_call(call: BridgeView, frame: JsonView)
    ensures
        call.on_frame(frame).over <==> hangs_up(frame),
        call.on_frame(frame).over ==> call.on_frame(frame).sends.len() == 0 && call.after_frame(
            frame,
        ) == call,
{
    reveal_strlit("start");
    reveal_strlit("media");
    reveal_strlit("stop");
    reveal_strlit("closed");
    reveal_strlit("hangup");
    assert("start"@.len() == 5 && "media"@.len() == 5 && "stop"@.len() == 4);
    assert("closed"@.len() == 6 && "hangup"@.len() == 6);
}

/// A frame hands its audio to the model, once and as it is, and none to the phone side.
pub proof fn law_frame_audio_is_handed_on(call: BridgeView, frame: JsonView)
    ensures
        caller_audio(call.on_frame(frame).sends) == frame_audio(frame),
        model_audio(call.on_frame(frame).sends).len() == 0,
{
    let sends = call.on_frame(frame).sends;
    reveal_with_fuel(caller_audio, 3);
    reveal_with_fuel(model_audio, 3);
    let payload = match media_payload(frame) {
        Some(payload) => payload,
        None => Seq::empty(),
    };
    lemma_message_types(greeting_text(call.meta), payload);
    reveal_strlit("start");
    reveal_strlit("media");
    assert("start"@[0] != "media"@[0]);
    if sends.len() == 1 {
        assert(sends.drop_first() =~= Seq::empty());
    } else if sends.len() == 2 {
        assert(sends.drop_first()[0] == sends[1]);
        assert(sends.drop_first().drop_first() =~= Seq::empty());
    }
    if hangs_up(frame) {
        law_only_a_hang_up_frame_ends_the_call(call, frame);
    }
}

/// An event hands its audio to the phone side, once and as it is, with the id of the stream, and
/// none to the model.
pub proof fn law_event_audio_is_handed_on(call: BridgeView, event: JsonView)
    ensures
        model_audio(call.on_event(event).sends) == event_audio(event, call.stream_id),
        caller_audio(call.on_event(event).sends).len() == 0,
{
    let sends = call.on_event(event).sends;
    reveal_with_fuel(caller_audio, 2);
    reveal_with_fuel(model_audio, 2);
    if sends.len() == 1 {
        assert(sends.drop_first() =~= Seq::empty());
        lemma_notices_carry_no_audio(call.stream_id);
    }
    if event_audio(event, call.stream_id).len() > 0 {
        law_model_audio_reaches_the_caller(
            call,
            event,
            member_text(event, "type"@)->0,
            member_text(event, "delta"@)->0,
        );
    }
}

/// What tells the phone side of the end of audio, or to drop it, carries none.
proof fn lemma_notices_carry_no_audio(stream_id: Option<Seq<char>>)
    ensures
        member_text(audio_done_message(stream_id), "event"@) != Some("media"@),
        member_text(clear_message(), "event"@) != Some("media"@),
{
    reveal_strlit("media");
    reveal_strlit("audio_done");
    reveal_strlit("clear");
    assert("media"@[0] != "clear"@[0]);
    assert("media"@.len() == 5 && "audio_done"@.len() == 10);
    reveal_with_fuel(find_member, 2);
}

/// The views of what a bridge holds and says keep all of it, in its order.
pub proof fn law_bridge_views_keep_everything(bridge: Bridge, reaction: Reaction)
    ensures
        bridge@.meta == bridge.meta,
        bridge@.greeting_sent == bridge.greeting_sent,
        bridge.stream_id is None <==> bridge@.stream_id is None,
        bridge.stream_id matches Some(id) ==> bridge@.stream_id == Some(id@),
        bridge@.transcript.len() == bridge.transcript@.len(),
        forall|i: int|
            0 <= i < bridge.transcript@.len() ==> (#[trigger] bridge@.transcript[i]).0
                == bridge.transcript@[i].0@ && bridge@.transcript[i].1 == bridge.transcript@[i].1@,
        reaction@.over == reaction.over,
        reaction@.sends.len() == reaction.sends@.len(),
        forall|i: int|
            0 <= i < reaction.sends@.len() ==> (#[trigger] reaction@.sends[i]).to
                == reaction.sends@[i].to && reaction@.sends[i].body == reaction.sends@[i].body@
                && reaction@.sends[i].required == reaction.sends@[i].required,
{
}

/// The message that makes the model speak hands it the greeting as it is, and nothing else.
pub proof fn law_greet_message_carries_the_greeting(greeting: Seq<char>)
    ensures
        ({
            let body = Some(greet_message(greeting));
            &&& size(body) == 2
            &&& within(body, "type"@) == Some(JsonView::Text("response.create"@))
            &&& size(within(body, "response"@)) == 1
            &&& within(within(body, "response"@), "instructions"@) == Some(JsonView::Text(greeting))
        }),
{
    reveal_strlit("type");
    reveal_strlit("response");
    assert("type"@.len() == 4 && "response"@.len() == 8);
    let members = greet_message(greeting)->Object_0;
    law_first_member_is_found(members, 0);
    law_first_member_is_found(members, 1);
    law_first_member_is_found(members[1].1->Object_0, 0);
}

/// The message with the caller's audio hands it to the model as it is, and nothing else.
pub proof fn law_append_message_carries_the_audio(payload: Seq<char>)
    ensures
        ({
            let body = Some(append_message(payload));
            &&& size(body) == 2
            &&& within(body, "type"@) == Some(JsonView::Text("input_audio_buffer.append"@))
            &&& within(body, "audio"@) == Some(JsonView::Text(payload))
        }),
{
    reveal_strlit("type");
    reveal_strlit("audio");
    assert("type"@.len() == 4 && "audio"@.len() == 5);
    let members = append_message(payload)->Object_0;
    law_first_member_is_found(members, 0);
    law_first_member_is_found(members, 1);
}

/// The id of a stream as a member: the text, where it is known.
pub open spec fn id_member(stream_id: Option<Seq<char>>) -> Option<JsonView> {
    match stream_id {
        Some(id) => Some(JsonView::Text(id)),
        None => None,
    }
}

/// The message with the model's audio hands it to the phone side as it is, as outbound media of the
/// stream where that is known, and nothing else.
pub proof fn law_media_message_carries_the_audio(payload: Seq<char>, stream_id: Option<Seq<char>>)
    ensures
        ({
            let body = Some(media_message(payload, stream_id));
            &&& size(body) == if stream_id is Some {
                3nat
            } else {
                2nat
            }
            &&& within(body, "event"@) == Some(JsonView::Text("media"@))
            &&& size(within(body, "media"@)) == 2
            &&& within(within(body, "media"@), "payload"@) == Some(JsonView::Text(payload))
            &&& within(within(body, "media"@), "track"@) == Some(JsonView::Text("outbound"@))
            &&& within(body, "stream_id"@) == id_member(stream_id)
        }),
{
    reveal_strlit("event");
    reveal_strlit("media");
    reveal_strlit("stream_id");
    reveal_strlit("payload");
    reveal_strlit("track");
    assert("event"@.len() == 5 && "media"@.len() == 5 && "event"@[0] != "media"@[0]);
    assert("stream_id"@.len() == 9 && "payload"@.len() == 7 && "track"@.len() == 5);
    let body = media_message(payload, stream_id);
    let members = body->Object_0;
    law_first_member_is_found(members, 0);
    law_first_member_is_found(members, 1);
    if stream_id is Some {
        law_first_member_is_found(members, 2);
    } else {
        law_missing_member_is_not_found(body, "stream_id"@);
    }
    let media = members[1].1->Object_0;
    law_first_member_is_found(media, 0);
    law_first_member_is_found(media, 1);
}

/// The notices to the phone side say what they are for: that audio is done, of the stream where it
/// is known, and that audio is to be dropped. They hold nothing else.
pub proof fn law_notices_say_what_they_are_for(stream_id: Option<Seq<char>>)
    ensures
        ({
            let done = Some(audio_done_message(stream_id));
            &&& size(done) == if stream_id is Some {
                2nat
            } else {
                1nat
            }
            &&& within(done, "event"@) == Some(JsonView::Text("audio_done"@))
            &&& within(done, "stream_id"@) == id_member(stream_id)
            &&& size(Some(clear_message())) == 1
            &&& member(clear_message(), "event"@) == Some(JsonView::Text("clear"@))
        }),
{
    reveal_strlit("event");
    reveal_strlit("stream_id");
    assert("event"@.len() == 5 && "stream_id"@.len() == 9);
    let body = audio_done_message(stream_id);
    law_first_member_is_found(body->Object_0, 0);
    if stream_id is Some {
        law_first_member_is_found(body->Object_0, 1);
    } else {
        law_missing_member_is_not_found(body, "stream_id"@);
    }
    law_first_member_is_found(clear_message()->Object_0, 0);
}

/// The audio of a media frame is the text `payload` in its `media`, and nothing else is.
pub proof fn law_payload_stands_within_media(frame: JsonView, payload: Seq<char>)
    ensures
        media_payload(frame) == Some(payload) <==> within(member(frame, "media"@), "payload"@)
            == Some(JsonView::Text(payload)),
{
}

/// Whether a message asks the model to speak the greeting of a call.
pub open spec fn greets(out: OutgoingView, meta: CallMeta) -> bool {
    &&& out.to == Peer::OpenAi
    &&& within(Some(out.body), "type"@) == Some(JsonView::Text("response.create"@))
    &&& within(within(Some(out.body), "response"@), "instructions"@) == Some(
        JsonView::Text(greeting_text(meta)),
    )
}

/// A start frame brings the greeting of the call, and the call depends on it, unless it was sent
/// before; it may announce the stream, and changes nothing else.
pub proof fn law_start_frame_greets(call: BridgeView, frame: JsonView)
    requires
        member(frame, "event"@) == Some(JsonView::Text("start"@)),
    ensures
        ({
            let reaction = call.on_frame(frame);
            let next = call.after_frame(frame);
            &&& !reaction.over
            &&& call.greeting_sent ==> reaction.sends.len() == 0
            &&& !call.greeting_sent ==> reaction.sends.len() == 1 && greets(
                reaction.sends[0],
                call.meta,
            ) && reaction.sends[0].required
            &&& next.greeting_sent
            &&& next.meta == call.meta
            &&& next.transcript == call.transcript
            &&& match member(frame, "stream_id"@) {
                Some(JsonView::Text(id)) => next.stream_id == Some(id),
                _ => next.stream_id == call.stream_id,
            }
        }),
{
    law_greet_message_carries_the_greeting(greeting_text(call.meta));
}

/// A media frame brings the greeting of the call where it is still due, though the call does not
/// depend on it, and behind that its audio, on which the call does depend. It changes nothing but
/// that the call is greeted.
pub proof fn law_media_frame_greets_and_hands_on(call: BridgeView, frame: JsonView)
    requires
        member(frame, "event"@) == Some(JsonView::Text("media"@)),
    ensures
        ({
            let reaction = call.on_frame(frame);
            let next = call.after_frame(frame);
            let first: int = if call.greeting_sent {
                0
            } else {
                1
            };
            &&& !reaction.over
            &&& !call.greeting_sent ==> reaction.sends.len() > 0 && greets(
                reaction.sends[0],
                call.meta,
            ) && !reaction.sends[0].required
            &&& match within(member(frame, "media"@), "payload"@) {
                Some(JsonView::Text(payload)) => {
                    &&& reaction.sends.len() == first + 1
                    &&& reaction.sends[first].to == Peer::OpenAi
                    &&& reaction.sends[first].required
                    &&& within(Some(reaction.sends[first].body), "type"@) == Some(
                        JsonView::Text("input_audio_buffer.append"@),
                    )
                    &&& within(Some(reaction.sends[first].body), "audio"@) == Some(
                        JsonView::Text(payload),
                    )
                },
                _ => reaction.sends.len() == first,
            }
            &&& next.greeting_sent
            &&& next.meta == call.meta
            &&& next.transcript == call.transcript
            &&& next.stream_id == call.stream_id
        }),
{
    reveal_strlit("start");
    reveal_strlit("media");
    assert("start"@[0] != "media"@[0]);
    law_greet_message_carries_the_greeting(greeting_text(call.meta));
    match media_payload(frame) {
        Some(payload) => {
            law_append_message_carries_the_audio(payload);
        },
        None => {},
    }
}

/// A frame whose event is `stop`, `closed` or `hangup` ends the call, in every state; a frame of
/// any other event, or of none, that is neither a start nor media brings nothing. Neither changes
/// what the call knows.
pub proof fn law_other_frames_end_the_call_or_pass(call: BridgeView, frame: JsonView)
    requires
        member(frame, "event"@) != Some(JsonView::Text("start"@)),
        member(frame, "event"@) != Some(JsonView::Text("media"@)),
    ensures
        ({
            let event = member(frame, "event"@);
            call.on_frame(frame).over <==> event == Some(JsonView::Text("stop"@)) || event == Some(
                JsonView::Text("closed"@),
            ) || event == Some(JsonView::Text("hangup"@))
        }),
        call.on_frame(frame).sends.len() == 0,
        call.after_frame(frame) == call,
{
}

/// Whether the type of an event is `kind`.
pub open spec fn has_type(event: JsonView, kind: Seq<char>) -> bool {
    member(event, "type"@) == Some(JsonView::Text(kind))
}

/// No event of the model ends a call by its contents, greets, or changes whom the call is with and
/// on which stream.
pub proof fn law_events_leave_the_call_open(call: BridgeView, event: JsonView)
    ensures
        !call.on_event(event).over,
        call.on_event(event).sends.len() <= 1,
        call.after_event(event).meta == call.meta,
        call.after_event(event).stream_id == call.stream_id,
        call.after_event(event).greeting_sent == call.greeting_sent,
{
}

/// The model's audio goes to the phone side as it is, under either name of its event, with the
/// stream where that is known, and the call depends on it. An event without audio brings nothing.
pub proof fn law_audio_event_is_handed_on(call: BridgeView, event: JsonView)
    requires
        has_type(event, "response.output_audio.delta"@) || has_type(event, "response.audio.delta"@),
    ensures
        ({
            let sends = call.on_event(event).sends;
            match member(event, "delta"@) {
                Some(JsonView::Text(delta)) => {
                    let media = within(Some(sends[0].body), "media"@);
                    &&& sends.len() == 1
                    &&& sends[0].to == Peer::Inkbox
                    &&& sends[0].required
                    &&& within(Some(sends[0].body), "event"@) == Some(JsonView::Text("media"@))
                    &&& within(media, "payload"@) == Some(JsonView::Text(delta))
                    &&& within(media, "track"@) == Some(JsonView::Text("outbound"@))
                    &&& within(Some(sends[0].body), "stream_id"@) == id_member(call.stream_id)
                },
                _ => sends.len() == 0,
            }
        }),
        call.after_event(event) == call,
{
    lemma_audio_kinds_differ();
    match member(event, "delta"@) {
        Some(JsonView::Text(delta)) => {
            law_media_message_carries_the_audio(delta, call.stream_id);
        },
        _ => {},
    }
}

/// The end of the model's audio is told to the phone side, under either name of its event, with the
/// stream where that is known; the call does not depend on it.
pub proof fn law_end_of_audio_is_told(call: BridgeView, event: JsonView)
    requires
        has_type(event, "response.output_audio.done"@) || has_type(event, "response.audio.done"@),
    ensures
        ({
            let sends = call.on_event(event).sends;
            &&& sends.len() == 1
            &&& sends[0].to == Peer::Inkbox
            &&& !sends[0].required
            &&& within(Some(sends[0].body), "event"@) == Some(JsonView::Text("audio_done"@))
            &&& within(Some(sends[0].body), "stream_id"@) == id_member(call.stream_id)
        }),
        call.after_event(event) == call,
{
    lemma_audio_kinds_differ();
    law_notices_say_what_they_are_for(call.stream_id);
}

/// When the caller starts to speak the phone side is told to drop audio, in every state; the call
/// does not depend on it.
pub proof fn law_barge_in_is_told(call: BridgeView, event: JsonView)
    requires
        has_type(event, "input_audio_buffer.speech_started"@),
    ensures
        ({
            let sends = call.on_event(event).sends;
            &&& sends.len() == 1
            &&& sends[0].to == Peer::Inkbox
            &&& !sends[0].required
            &&& within(Some(sends[0].body), "event"@) == Some(JsonView::Text("clear"@))
        }),
        call.after_event(event) == call,
{
    law_barge_in_clears(call, event);
    law_notices_say_what_they_are_for(call.stream_id);
}

/// The kinds of events about audio are told apart from each other and from those with a transcript.
proof fn lemma_audio_kinds_differ()
    ensures
        !audio_event("response.output_audio.done"@),
        !audio_event("response.audio.done"@),
        !agent_transcript_event("response.output_audio.delta"@),
        !agent_transcript_event("response.audio.delta"@),
        !agent_transcript_event("response.output_audio.done"@),
        !agent_transcript_event("response.audio.done"@),
        "response.output_audio.delta"@ != "conversation.item.input_audio_transcription.completed"@,
        "response.audio.delta"@ != "conversation.item.input_audio_transcription.completed"@,
        "response.output_audio.done"@ != "conversation.item.input_audio_transcription.completed"@,
        "response.audio.done"@ != "conversation.item.input_audio_transcription.completed"@,
{
    reveal_strlit("response.output_audio.delta");
    assert("response.output_audio.delta"@.len() == 27);
    reveal_strlit("response.audio.delta");
    assert("response.audio.delta"@.len() == 20);
    reveal_strlit("response.output_audio.done");
    assert("response.output_audio.done"@.len() == 26);
    reveal_strlit("response.audio.done");
    assert("response.audio.done"@.len() == 19);
    reveal_strlit("response.audio_transcript.done");
    assert("response.audio_transcript.done"@.len() == 30);
    reveal_strlit("response.output_audio_transcript.done");
    assert("response.output_audio_transcript.done"@.len() == 37);
    reveal_strlit("conversation.item.input_audio_transcription.completed");
    assert("conversation.item.input_audio_transcription.completed"@.len() == 53);
}

/// The turn that an event adds to the transcript: what the model said, under either name of that
/// event, or what the caller said. Every other event adds none.
pub open spec fn event_turn(event: JsonView) -> Seq<(Seq<char>, Seq<char>)> {
    match member(event, "transcript"@) {
        Some(JsonView::Text(what)) => if has_type(event, "response.audio_transcript.done"@)
            || has_type(event, "response.output_audio_transcript.done"@) {
            seq![("agent"@, what)]
        } else if has_type(event, "conversation.item.input_audio_transcription.completed"@) {
            seq![("caller"@, what)]
        } else {
            Seq::empty()
        },
        _ => Seq::empty(),
    }
}

/// Every event with a transcript adds exactly one turn at the end, whatever was said before and by
/// whom, and no other event adds any.
pub proof fn law_every_transcript_adds_a_turn(call: BridgeView, event: JsonView)
    ensures
        call.after_event(event).transcript == call.transcript + event_turn(event),
{
    if event_turn(event).len() > 0 {
        let kind = member_text(event, "type"@)->0;
        lemma_kinds_differ(kind);
        let turn = event_turn(event)[0];
        assert(call.transcript.push(turn) =~= call.transcript + event_turn(event));
    } else {
        assert(call.transcript + event_turn(event) =~= call.transcript);
    }
}

/// An event with a transcript, and an event of an unknown type or of none, sends nothing.
pub proof fn law_other_events_send_nothing(call: BridgeView, event: JsonView)
    requires
        !has_type(event, "response.output_audio.delta"@),
        !has_type(event, "response.audio.delta"@),
        !has_type(event, "response.output_audio.done"@),
        !has_type(event, "response.audio.done"@),
        !has_type(event, "input_audio_buffer.speech_started"@),
    ensures
        call.on_event(event).sends.len() == 0,
{
}

/// What a socket yields counts by its JSON where that can be read; a text that cannot, and messages
/// of other kinds, bring nothing and change nothing.
pub proof fn law_texts_count_by_their_json(call: BridgeView, raw: String)
    ensures
        match parsed_json(raw@) {
            Some(json) => {
                &&& call.on_inkbox(SocketInput::Text(raw)) == call.on_frame(json)
                &&& call.after_inkbox(SocketInput::Text(raw)) == call.after_frame(json)
                &&& call.on_openai(SocketInput::Text(raw)) == call.on_event(json)
                &&& call.after_openai(SocketInput::Text(raw)) == call.after_event(json)
            },
            None => {
                &&& !call.on_inkbox(SocketInput::Text(raw)).over
                &&& call.on_inkbox(SocketInput::Text(raw)).sends.len() == 0
                &&& call.after_inkbox(SocketInput::Text(raw)) == call
                &&& !call.on_openai(SocketInput::Text(raw)).over
                &&& call.on_openai(SocketInput::Text(raw)).sends.len() == 0
                &&& call.after_openai(SocketInput::Text(raw)) == call
            },
        },
{
}

/// A socket that fails or ends is the end of the call, in every state, and so is a close from the
/// model; a close from the phone side and messages of other kinds are not. None of them sends or
/// changes anything.
pub proof fn law_sockets_end_the_call(call: BridgeView, input: SocketInput)
    requires
        !(input is Text),
    ensures
        call.on_inkbox(input).over <==> input is Failed || input is Ended,
        call.on_openai(input).over <==> input is Failed || input is Ended || input is Close,
        call.on_inkbox(input).sends.len() == 0,
        call.on_openai(input).sends.len() == 0,
        call.after_inkbox(input) == call,
        call.after_openai(input) == call,
{
}

/// What the model said is kept as its turn, under either name of the event and whatever the
/// transcript held before.
pub proof fn law_agent_turn_is_kept(call: BridgeView, event: JsonView, what: Seq<char>)
    requires
        member(event, "type"@) == Some(JsonView::Text("response.audio_transcript.done"@)) || member(
            event,
            "type"@,
        ) == Some(JsonView::Text("response.output_audio_transcript.done"@)),
        member(event, "transcript"@) == Some(JsonView::Text(what)),
    ensures
        call.after_event(event).transcript == call.transcript.push(("agent"@, what)),
{
    law_every_transcript_adds_a_turn(call, event);
    assert(call.transcript + seq![("agent"@, what)] =~= call.transcript.push(("agent"@, what)));
}

/// What the caller said is kept as their turn, whatever the transcript held before.
pub proof fn law_caller_turn_is_kept(call: BridgeView, event: JsonView, what: Seq<char>)
    requires
        member(event, "type"@) == Some(
            JsonView::Text("conversation.item.input_audio_transcription.completed"@),
        ),
        member(event, "transcript"@) == Some(JsonView::Text(what)),
    ensures
        call.after_event(event).transcript == call.transcript.push(("caller"@, what)),
{
    lemma_kinds_differ("conversation.item.input_audio_transcription.completed"@);
    law_every_transcript_adds_a_turn(call, event);
    assert(call.transcript + seq![("caller"@, what)] =~= call.transcript.push(("caller"@, what)));
}

} // verus!
