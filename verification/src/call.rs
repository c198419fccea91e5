//! A call from its opening to its end: what is to be sent, what is awaited, and when it is over.
use vstd::prelude::*;

use crate::bridge::{
    announced_id, asks_for_response, caller_audio, calls_for_greeting, carries_audio, event_audio,
    event_turn, frame_audio, greetings, hangs_up, known_event, known_frame,
    law_event_audio_is_handed_on, law_every_transcript_adds_a_turn, law_frame_audio_is_handed_on,
    law_frame_greets_when_due, law_only_a_hang_up_frame_ends_the_call, model_audio, sends_view,
    Bridge, BridgeView, Outgoing, OutgoingView, Peer, Reaction, ReactionView, SocketInput,
};
use crate::json::{find_member, member_text, parsed_json, JsonView};
use crate::realtime::{session_update_message, CallMeta, RealtimeConfig};

verus! {

/// A call under way.
pub struct Call {
    /// What the call knows.
    pub bridge: Bridge,
    /// The messages that are still to be sent, in order.
    pub queue: Vec<Outgoing>,
    /// Whether the session has been configured.
    pub configured: bool,
    /// Whether the call has ended.
    pub over: bool,
}

/// What a call under way is.
pub struct CallView {
    pub bridge: BridgeView,
    pub queue: Seq<OutgoingView>,
    pub configured: bool,
    pub over: bool,
}

impl View for Call {
    type V = CallView;

    open spec fn view(&self) -> CallView {
        CallView {
            bridge: self.bridge@,
            queue: sends_view(self.queue@),
            configured: self.configured,
            over: self.over,
        }
    }
}

/// What a call is told.
pub enum CallEvent {
    /// The message that was next has been sent, or could not be.
    Sent(bool),
    /// What the phone side's socket has yielded.
    Inkbox(SocketInput),
    /// What the model's socket has yielded.
    OpenAi(SocketInput),
}

/// The message that configures the session.
pub open spec fn opening_message(cfg: RealtimeConfig, meta: CallMeta) -> OutgoingView {
    OutgoingView { to: Peer::OpenAi, body: session_update_message(cfg, meta), required: true }
}

/// A call that has just been connected: the session is to be configured before all else.
pub open spec fn opened(cfg: RealtimeConfig, meta: CallMeta) -> CallView {
    CallView {
        bridge: BridgeView {
            meta,
            stream_id: None,
            greeting_sent: false,
            transcript: Seq::empty(),
        },
        queue: seq![opening_message(cfg, meta)],
        configured: false,
        over: false,
    }
}

impl CallView {
    /// A call that is over has nothing to send.
    pub open spec fn wf(self) -> bool {
        self.over ==> self.queue.len() == 0
    }

    /// The call waits for one of the sockets.
    pub open spec fn awaits(self) -> bool {
        self.queue.len() == 0 && !self.over
    }

    /// The call once the message that is next has been sent, or could not be. It ends where a
    /// message that is required could not be sent, and the messages behind that one are dropped.
    /// The first message that is sent configures the session.
    pub open spec fn after_send(self, sent: bool) -> CallView {
        if self.queue.len() == 0 {
            self
        } else if sent || !self.queue[0].required {
            CallView {
                queue: self.queue.drop_first(),
                configured: self.configured || sent,
                ..self
            }
        } else {
            CallView { queue: Seq::empty(), over: true, ..self }
        }
    }

    /// The call once it has taken an input that it waited for.
    pub open spec fn after_reaction(self, bridge: BridgeView, reaction: ReactionView) -> CallView {
        if self.awaits() {
            CallView { bridge, queue: reaction.sends, over: reaction.over, ..self }
        } else {
            self
        }
    }

    /// What becomes of the call when it is told `event`. What it does not wait for changes
    /// nothing.
    pub open spec fn step(self, event: CallEvent) -> CallView {
        match event {
            CallEvent::Sent(sent) => self.after_send(sent),
            CallEvent::Inkbox(input) => self.after_reaction(
                self.bridge.after_inkbox(input),
                self.bridge.on_inkbox(input),
            ),
            CallEvent::OpenAi(input) => self.after_reaction(
                self.bridge.after_openai(input),
                self.bridge.on_openai(input),
            ),
        }
    }
}

impl Call {
    /// Every message can be written, and a call that is over has none left.
    pub open spec fn wf(self) -> bool {
        &&& self@.wf()
        &&& forall|i: int| 0 <= i < self.queue@.len() ==> (#[trigger] self.queue@[i]).wf()
    }

    /// Begins a call.
    pub fn open(cfg: &RealtimeConfig, meta: CallMeta) -> (call: Call)
        ensures
            call.wf(),
            call@ == opened(*cfg, meta),
    {
        let mut queue: Vec<Outgoing> = Vec::new();
        queue.push(Bridge::opening(cfg, &meta));
        let call = Call { bridge: Bridge::new(meta), queue, configured: false, over: false };
        assert(call@.queue =~= opened(*cfg, meta).queue);
        call
    }

    /// The message that is to be sent next.
    pub fn next(&self) -> (out: Option<&Outgoing>)
        requires
            self.wf(),
        ensures
            match out {
                Some(out) => out.wf() && self@.queue.len() > 0 && out@ == self@.queue[0],
                None => self@.queue.len() == 0,
            },
    {
        if self.queue.len() == 0 {
            None
        } else {
            Some(&self.queue[0])
        }
    }

    /// Whether the call has ended.
    pub fn is_over(&self) -> (over: bool)
        ensures
            over == self@.over,
    {
        self.over
    }

    /// Whether the session has been configured.
    pub fn is_configured(&self) -> (configured: bool)
        ensures
            configured == self@.configured,
    {
        self.configured
    }

    /// Tells the call whether the message that was next has been sent.
    pub fn sent(&mut self, sent: bool)
        requires
            old(self).wf(),
        ensures
            final(self).wf(),
            final(self)@ == old(self)@.step(CallEvent::Sent(sent)),
    {
        if self.queue.len() == 0 {
            return;
        }
        if self.queue[0].goes_on(sent) {
            self.queue.remove(0);
            self.configured = self.configured || sent;
            assert(self@.queue =~= old(self)@.queue.drop_first());
        } else {
            self.queue.clear();
            self.over = true;
            assert(self@.queue =~= Seq::empty());
        }
    }

    /// Takes over what follows from an input.
    fn react(&mut self, reaction: Reaction)
        requires
            reaction.wf(),
            reaction@.over ==> reaction@.sends.len() == 0,
        ensures
            final(self).wf(),
            final(self)@ == (CallView {
                queue: reaction@.sends,
                over: reaction@.over,
                ..old(self)@
            }),
    {
        self.queue = reaction.sends;
        self.over = reaction.over;
    }

    /// Tells the call what the phone side's socket has yielded.
    pub fn on_inkbox(&mut self, input: &SocketInput)
        requires
            old(self).wf(),
        ensures
            final(self).wf(),
            final(self)@ == old(self)@.step(CallEvent::Inkbox(*input)),
    {
        if self.queue.len() == 0 && !self.over {
            let reaction = self.bridge.on_inkbox(input);
            self.react(reaction);
        }
    }

    /// Tells the call what the model's socket has yielded.
    pub fn on_openai(&mut self, input: &SocketInput)
        requires
            old(self).wf(),
        ensures
            final(self).wf(),
            final(self)@ == old(self)@.step(CallEvent::OpenAi(*input)),
    {
        if self.queue.len() == 0 && !self.over {
            let reaction = self.bridge.on_openai(input);
            self.react(reaction);
        }
    }

    /// How many turns the transcript holds.
    pub fn turns(&self) -> (count: usize)
        ensures
            count == self@.bridge.transcript.len(),
    {
        self.bridge.turns()
    }
}

impl CallView {
    /// What becomes of the call when it is told one thing after the other.
    pub open spec fn after(self, events: Seq<CallEvent>) -> CallView
        decreases events.len(),
    {
        if events.len() == 0 {
            self
        } else {
            self.step(events[0]).after(events.drop_first())
        }
    }

    /// The message that goes to a socket, if `event` tells of one.
    pub open spec fn tries(self, event: CallEvent) -> Seq<OutgoingView> {
        if event is Sent && self.queue.len() > 0 {
            seq![self.queue[0]]
        } else {
            Seq::empty()
        }
    }

    /// The messages that go to a socket while the call is told one thing after the other, whether
    /// or not they could be sent.
    pub open spec fn tried(self, events: Seq<CallEvent>) -> Seq<OutgoingView>
        decreases events.len(),
    {
        if events.len() == 0 {
            Seq::empty()
        } else {
            self.tries(events[0]) + self.step(events[0]).tried(events.drop_first())
        }
    }

    /// The frame that the call takes when it is told `event`, if it waits and there is one.
    pub open spec fn takes_frame(self, event: CallEvent) -> Option<JsonView> {
        match event {
            CallEvent::Inkbox(SocketInput::Text(raw)) => if self.awaits() {
                parsed_json(raw@)
            } else {
                None
            },
            _ => None,
        }
    }

    /// The model's event that the call takes when it is told `event`, if it waits and there is one.
    pub open spec fn takes_event(self, event: CallEvent) -> Option<JsonView> {
        match event {
            CallEvent::OpenAi(SocketInput::Text(raw)) => if self.awaits() {
                parsed_json(raw@)
            } else {
                None
            },
            _ => None,
        }
    }

    /// Whether the call takes a frame that calls for the greeting while it is told one thing after
    /// the other.
    pub open spec fn called_for_greeting(self, events: Seq<CallEvent>) -> bool
        decreases events.len(),
    {
        events.len() > 0 && {
            ||| match self.takes_frame(events[0]) {
                Some(frame) => calls_for_greeting(frame),
                None => false,
            }
            ||| self.step(events[0]).called_for_greeting(events.drop_first())
        }
    }

    /// The caller's audio in the frames that the call takes, piece by piece.
    pub open spec fn caller_audio_taken(self, events: Seq<CallEvent>) -> Seq<Seq<char>>
        decreases events.len(),
    {
        if events.len() == 0 {
            Seq::empty()
        } else {
            let now = match self.takes_frame(events[0]) {
                Some(frame) => frame_audio(frame),
                None => Seq::empty(),
            };
            now + self.step(events[0]).caller_audio_taken(events.drop_first())
        }
    }

    /// The model's audio in the events that the call takes, piece by piece, each with the id that
    /// a start of the stream has announced last. The id is `id` at first.
    pub open spec fn model_audio_taken(
        self,
        events: Seq<CallEvent>,
        id: Option<Seq<char>>,
    ) -> Seq<(Seq<char>, Option<Seq<char>>)>
        decreases events.len(),
    {
        if events.len() == 0 {
            Seq::empty()
        } else {
            let now = match self.takes_event(events[0]) {
                Some(event) => event_audio(event, id),
                None => Seq::empty(),
            };
            let later = match self.takes_frame(events[0]) {
                Some(frame) => announced_id(frame, id),
                None => id,
            };
            now + self.step(events[0]).model_audio_taken(events.drop_first(), later)
        }
    }

    /// Whether a message that is required cannot be sent while the call is told one thing after
    /// the other.
    pub open spec fn required_send_fails(self, events: Seq<CallEvent>) -> bool
        decreases events.len(),
    {
        events.len() > 0 && {
            ||| events[0] == CallEvent::Sent(false) && self.queue.len() > 0
                && self.queue[0].required
            ||| self.step(events[0]).required_send_fails(events.drop_first())
        }
    }

    /// No greeting waits but in first place.
    spec fn greeting_is_next(self) -> bool {
        self.queue.len() > 0 ==> greetings(self.queue.drop_first()) == 0
    }

    /// A greeting has not gone out yet: it is next, or nothing that waits is a greeting or the
    /// caller's audio.
    spec fn not_yet_greeted(self) -> bool {
        ||| self.queue.len() > 0 && asks_for_response(self.queue[0])
        ||| !self.bridge.greeting_sent && forall|i: int|
            0 <= i < self.queue.len() ==> !carries_audio(#[trigger] self.queue[i])
    }
}

/// A call that is over stays so with nothing left to send, whatever it is told.
pub proof fn law_step_keeps_wf(call: CallView, event: CallEvent)
    requires
        call.wf(),
    ensures
        call.step(event).wf(),
{
}

/// Once a call is over nothing more is sent, whatever still comes in.
pub proof fn law_over_is_final(call: CallView, events: Seq<CallEvent>)
    requires
        call.wf(),
        call.over,
    ensures
        call.after(events) == call,
        call.tried(events).len() == 0,
    decreases events.len(),
{
    if events.len() > 0 {
        law_over_is_final(call.step(events[0]), events.drop_first());
    }
}

/// An input whose contents end the call, from the phone side.
pub open spec fn inkbox_ends(input: SocketInput) -> bool {
    match input {
        SocketInput::Text(raw) => match parsed_json(raw@) {
            Some(frame) => hangs_up(frame),
            None => false,
        },
        SocketInput::Failed | SocketInput::Ended => true,
        SocketInput::Close | SocketInput::Other => false,
    }
}

/// An input that ends the call, from the model.
pub open spec fn openai_ends(input: SocketInput) -> bool {
    input is Close || input is Failed || input is Ended
}

/// A call ends when either side closes its socket or fails, when the phone side hangs up, or when
/// a message that is required cannot be sent, and for no other reason. A close from the phone
/// side is the one that does not count: the end of its socket comes after it.
pub proof fn law_how_a_call_ends(call: CallView, event: CallEvent)
    requires
        !call.over,
    ensures
        call.step(event).over <==> match event {
            CallEvent::Sent(sent) => !sent && call.queue.len() > 0 && call.queue[0].required,
            CallEvent::Inkbox(input) => call.awaits() && inkbox_ends(input),
            CallEvent::OpenAi(input) => call.awaits() && openai_ends(input),
        },
{
    match event {
        CallEvent::Inkbox(SocketInput::Text(raw)) => match parsed_json(raw@) {
            Some(frame) => {
                law_only_a_hang_up_frame_ends_the_call(call.bridge, frame);
            },
            None => {},
        },
        _ => {},
    }
}

/// A text that is not JSON, and a message of another kind, are passed over.
pub proof fn law_unreadable_input_is_passed_over(call: CallView, input: SocketInput)
    requires
        match input {
            SocketInput::Text(raw) => parsed_json(raw@) is None,
            other => other is Other,
        },
        call.awaits(),
    ensures
        call.step(CallEvent::Inkbox(input)) == call,
        call.step(CallEvent::OpenAi(input)) == call,
{
    assert(call.queue =~= Seq::empty());
}

/// JSON of an event or a type that the call does not know leaves it as it is.
pub proof fn law_unknown_input_is_passed_over(call: CallView, raw: String, json: JsonView)
    requires
        parsed_json(raw@) == Some(json),
        call.awaits(),
    ensures
        !known_frame(json) ==> call.step(CallEvent::Inkbox(SocketInput::Text(raw))) == call,
        !known_event(json) ==> call.step(CallEvent::OpenAi(SocketInput::Text(raw))) == call,
{
    assert(call.queue =~= Seq::empty());
}

/// The messages that wait go out in their order, each of them once, and then the call waits for
/// its sockets.
pub proof fn law_queue_goes_out_in_order(call: CallView, events: Seq<CallEvent>)
    requires
        events.len() == call.queue.len(),
        forall|i: int| 0 <= i < events.len() ==> #[trigger] events[i] == CallEvent::Sent(true),
    ensures
        call.tried(events) == call.queue,
        call.after(events) == (CallView {
            queue: Seq::empty(),
            configured: call.configured || events.len() > 0,
            ..call
        }),
    decreases events.len(),
{
    if events.len() == 0 {
        assert(call.queue =~= Seq::empty());
    } else {
        let rest = events.drop_first();
        assert forall|i: int| 0 <= i < rest.len() implies #[trigger] rest[i] == CallEvent::Sent(
            true,
        ) by {
            assert(rest[i] == events[i + 1]);
        }
        assert(events[0] == CallEvent::Sent(true));
        law_queue_goes_out_in_order(call.step(events[0]), rest);
        assert(seq![call.queue[0]] + call.queue.drop_first() =~= call.queue);
    }
}

/// A session that is configured stays so.
proof fn lemma_configured_stays(call: CallView, events: Seq<CallEvent>)
    requires
        call.configured,
    ensures
        call.after(events).configured,
    decreases events.len(),
{
    if events.len() > 0 {
        lemma_configured_stays(call.step(events[0]), events.drop_first());
    }
}

/// The session is configured before anything else goes out: the first message configures it, and
/// where that one fails the call is over without another. So a call that has tried to send
/// anything is configured or over, and one that has tried more than that is configured.
pub proof fn law_session_is_configured_first(
    cfg: RealtimeConfig,
    meta: CallMeta,
    events: Seq<CallEvent>,
)
    ensures
        ({
            let tried = opened(cfg, meta).tried(events);
            let end = opened(cfg, meta).after(events);
            &&& tried.len() > 0 ==> tried[0] == opening_message(cfg, meta)
            &&& tried.len() == 0 ==> !end.configured && !end.over
            &&& tried.len() > 0 && !end.configured ==> end.over && tried.len() == 1
            &&& events.len() > 0 && events[0] == CallEvent::Sent(true) ==> end.configured
            &&& events.len() > 0 && events[0] == CallEvent::Sent(false) ==> !end.configured
                && end.over && tried.len() == 1
        }),
    decreases events.len(),
{
    let call = opened(cfg, meta);
    if events.len() > 0 {
        if events[0] == CallEvent::Sent(false) {
            law_over_is_final(call.step(events[0]), events.drop_first());
        } else if events[0] is Sent {
            lemma_configured_stays(call.step(events[0]), events.drop_first());
        } else {
            assert(call.step(events[0]) == call);
            law_session_is_configured_first(cfg, meta, events.drop_first());
            assert(call.tried(events) =~= call.tried(events.drop_first()));
        }
    }
}

/// What the message that configures the session says of itself.
proof fn lemma_opening_type(cfg: RealtimeConfig, meta: CallMeta)
    ensures
        !asks_for_response(opening_message(cfg, meta)),
        !carries_audio(opening_message(cfg, meta)),
{
    reveal_strlit("session.update");
    reveal_strlit("response.create");
    reveal_strlit("input_audio_buffer.append");
    assert("session.update"@.len() == 14);
    assert("response.create"@.len() == 15);
    assert("input_audio_buffer.append"@.len() == 25);
    reveal_with_fuel(find_member, 2);
    assert(member_text(session_update_message(cfg, meta), "type"@) == Some("session.update"@));
}

/// What the model's socket yields brings neither a greeting nor the caller's audio.
proof fn lemma_model_brings_no_greeting(bridge: BridgeView, input: SocketInput)
    ensures
        greetings(bridge.on_openai(input).sends) == 0,
        bridge.after_openai(input).greeting_sent == bridge.greeting_sent,
        forall|i: int|
            0 <= i < bridge.on_openai(input).sends.len() ==> !carries_audio(
                #[trigger] bridge.on_openai(input).sends[i],
            ),
{
    let sends = bridge.on_openai(input).sends;
    reveal_with_fuel(greetings, 2);
    if sends.len() == 1 {
        assert(sends.drop_first() =~= Seq::empty());
    }
}

/// What the phone side's socket yields brings the greeting in first place where it makes the call
/// a greeted one.
proof fn lemma_phone_side_greetings(bridge: BridgeView, input: SocketInput)
    ensures
        greetings(bridge.on_inkbox(input).sends) == if !bridge.greeting_sent && bridge.after_inkbox(
            input,
        ).greeting_sent {
            1nat
        } else {
            0nat
        },
        bridge.greeting_sent ==> bridge.after_inkbox(input).greeting_sent,
        !bridge.greeting_sent && bridge.after_inkbox(input).greeting_sent ==> bridge.on_inkbox(
            input,
        ).sends.len() > 0 && asks_for_response(bridge.on_inkbox(input).sends[0]),
        forall|i: int|
            0 <= i < bridge.on_inkbox(input).sends.len() && carries_audio(
                #[trigger] bridge.on_inkbox(input).sends[i],
            ) ==> bridge.after_inkbox(input).greeting_sent,
{
    match input {
        SocketInput::Text(raw) => match parsed_json(raw@) {
            Some(frame) => {
                law_frame_greets_when_due(bridge, frame);
            },
            None => {},
        },
        _ => {},
    }
}

proof fn lemma_greetings_counted(call: CallView, events: Seq<CallEvent>)
    requires
        call.greeting_is_next(),
    ensures
        greetings(call.tried(events)) + greetings(call.after(events).queue) == greetings(call.queue)
            + if !call.bridge.greeting_sent && call.called_for_greeting(events) {
            1nat
        } else {
            0nat
        },
        call.after(events).greeting_is_next(),
    decreases events.len(),
{
    if events.len() > 0 {
        let next = call.step(events[0]);
        match events[0] {
            CallEvent::Sent(_) => {
                if call.queue.len() > 0 {
                    let rest = call.queue.drop_first();
                    if rest.len() > 0 {
                        assert(greetings(rest) == 0);
                    }
                    lemma_greetings_counted(next, events.drop_first());
                    let all = call.tried(events);
                    assert(all.drop_first() =~= next.tried(events.drop_first()));
                } else {
                    lemma_greetings_counted(next, events.drop_first());
                    assert(call.tried(events) =~= next.tried(events.drop_first()));
                }
            },
            CallEvent::Inkbox(input) => {
                lemma_phone_side_greetings(call.bridge, input);
                lemma_greetings_counted(next, events.drop_first());
                assert(call.tried(events) =~= next.tried(events.drop_first()));
            },
            CallEvent::OpenAi(input) => {
                lemma_model_brings_no_greeting(call.bridge, input);
                lemma_greetings_counted(next, events.drop_first());
                assert(call.tried(events) =~= next.tried(events.drop_first()));
            },
        }
    }
}

/// A call is greeted exactly where it takes a start or a media frame, and then once, whatever its
/// sockets yield and whichever messages fail: the greeting has gone out, or it is the next message
/// to do so.
pub proof fn law_greeted_once_when_called_for(
    cfg: RealtimeConfig,
    meta: CallMeta,
    events: Seq<CallEvent>,
)
    ensures
        ({
            let call = opened(cfg, meta);
            let waiting = call.after(events).queue;
            &&& greetings(call.tried(events)) + greetings(waiting) == if call.called_for_greeting(
                events,
            ) {
                1nat
            } else {
                0nat
            }
            &&& greetings(waiting) > 0 ==> waiting.len() > 0 && asks_for_response(waiting[0])
        }),
{
    let call = opened(cfg, meta);
    lemma_opening_type(cfg, meta);
    reveal_with_fuel(greetings, 2);
    assert(call.queue.drop_first() =~= Seq::empty());
    lemma_greetings_counted(call, events);
}

/// A call is greeted once at most, whatever its sockets yield and whichever messages fail.
pub proof fn law_greeted_at_most_once(
    cfg: RealtimeConfig,
    meta: CallMeta,
    events: Seq<CallEvent>,
)
    ensures
        greetings(opened(cfg, meta).tried(events)) <= 1,
{
    law_greeted_once_when_called_for(cfg, meta, events);
}

proof fn lemma_greeting_precedes_audio(call: CallView, events: Seq<CallEvent>, i: int)
    requires
        call.not_yet_greeted(),
        0 <= i < call.tried(events).len(),
        carries_audio(call.tried(events)[i]),
    ensures
        exists|j: int| 0 <= j < i && asks_for_response(#[trigger] call.tried(events)[j]),
    decreases events.len(),
{
    let all = call.tried(events);
    let next = call.step(events[0]);
    let rest = next.tried(events.drop_first());
    reveal_strlit("response.create");
    reveal_strlit("input_audio_buffer.append");
    assert("response.create"@.len() != "input_audio_buffer.append"@.len());
    match events[0] {
        CallEvent::Sent(_) => {
            if call.queue.len() > 0 {
                assert(all[0] == call.queue[0]);
                if !asks_for_response(call.queue[0]) {
                    assert(forall|k: int|
                        0 <= k < next.queue.len() ==> #[trigger] next.queue[k] == call.queue[k + 1]);
                    assert(all[i] == rest[i - 1]);
                    lemma_greeting_precedes_audio(next, events.drop_first(), i - 1);
                    let j = choose|j: int| 0 <= j < i - 1 && asks_for_response(#[trigger] rest[j]);
                    assert(all[j + 1] == rest[j]);
                }
            } else {
                assert(all =~= rest);
                lemma_greeting_precedes_audio(next, events.drop_first(), i);
            }
        },
        CallEvent::Inkbox(input) => {
            lemma_phone_side_greetings(call.bridge, input);
            assert(all =~= rest);
            lemma_greeting_precedes_audio(next, events.drop_first(), i);
        },
        CallEvent::OpenAi(input) => {
            lemma_model_brings_no_greeting(call.bridge, input);
            assert(all =~= rest);
            lemma_greeting_precedes_audio(next, events.drop_first(), i);
        },
    }
}

/// No audio of the caller goes to the model before the greeting has, also where the call never
/// announces its start.
pub proof fn law_greeting_precedes_audio(
    cfg: RealtimeConfig,
    meta: CallMeta,
    events: Seq<CallEvent>,
    i: int,
)
    requires
        0 <= i < opened(cfg, meta).tried(events).len(),
        carries_audio(opened(cfg, meta).tried(events)[i]),
    ensures
        exists|j: int|
            0 <= j < i && asks_for_response(#[trigger] opened(cfg, meta).tried(events)[j]),
{
    lemma_opening_type(cfg, meta);
    lemma_greeting_precedes_audio(opened(cfg, meta), events, i);
}

/// What has been said stays said, in its order: the transcript only ever grows at its end, and
/// only by what the model's socket yields.
pub proof fn law_transcript_only_grows(call: CallView, events: Seq<CallEvent>)
    ensures
        call.bridge.transcript.is_prefix_of(call.after(events).bridge.transcript),
        (forall|i: int| 0 <= i < events.len() ==> !((#[trigger] events[i]) is OpenAi))
            ==> call.after(events).bridge.transcript == call.bridge.transcript,
    decreases events.len(),
{
    if events.len() > 0 {
        let rest = events.drop_first();
        law_transcript_only_grows(call.step(events[0]), rest);
        assert(forall|i: int| 0 <= i < rest.len() ==> #[trigger] rest[i] == events[i + 1]);
    }
}

proof fn lemma_over_takes_nothing(call: CallView, events: Seq<CallEvent>, id: Option<Seq<char>>)
    requires
        call.wf(),
        call.over,
    ensures
        call.caller_audio_taken(events).len() == 0,
        call.model_audio_taken(events, id).len() == 0,
    decreases events.len(),
{
    if events.len() > 0 {
        lemma_over_takes_nothing(call.step(events[0]), events.drop_first(), id);
    }
}

proof fn lemma_caller_audio(call: CallView, events: Seq<CallEvent>)
    ensures
        ({
            let out = caller_audio(call.tried(events)) + caller_audio(call.after(events).queue);
            let due = caller_audio(call.queue) + call.caller_audio_taken(events);
            &&& out.is_prefix_of(due)
            &&& !call.required_send_fails(events) ==> out == due
        }),
    decreases events.len(),
{
    if events.len() == 0 {
        assert(caller_audio(call.tried(events)) =~= Seq::empty());
        assert(caller_audio(call.queue) + Seq::<Seq<char>>::empty() =~= caller_audio(call.queue));
        assert(Seq::<Seq<char>>::empty() + caller_audio(call.queue) =~= caller_audio(call.queue));
    } else {
        let next = call.step(events[0]);
        let rest = events.drop_first();
        lemma_caller_audio(next, rest);
        let later = next.tried(rest);
        let end = caller_audio(next.after(rest).queue);
        match events[0] {
            CallEvent::Sent(sent) => {
                if call.queue.len() > 0 {
                    let all = call.tried(events);
                    assert(all.drop_first() =~= later);
                    if !sent && call.queue[0].required {
                        law_over_is_final(next, rest);
                        lemma_over_takes_nothing(next, rest, None);
                        assert(later =~= Seq::empty());
                    }
                    lemma_caller_audio_of_first(call.queue[0], call.queue.drop_first(), call.queue);
                    lemma_caller_audio_of_first(call.queue[0], later, all);
                    let head = caller_audio(seq![call.queue[0]]);
                    assert(head + caller_audio(later) + end =~= head + (caller_audio(later) + end));
                    let due = caller_audio(call.queue.drop_first()) + next.caller_audio_taken(rest);
                    assert(caller_audio(call.queue) + call.caller_audio_taken(events) =~= head + due);
                } else {
                    assert(call.tried(events) =~= later);
                    assert(call.caller_audio_taken(events) =~= next.caller_audio_taken(rest));
                }
            },
            CallEvent::Inkbox(input) => {
                assert(call.tried(events) =~= later);
                if call.awaits() {
                    match call.takes_frame(events[0]) {
                        Some(frame) => {
                            law_frame_audio_is_handed_on(call.bridge, frame);
                        },
                        None => {},
                    }
                    assert(caller_audio(call.queue) + call.caller_audio_taken(events)
                        =~= caller_audio(next.queue) + next.caller_audio_taken(rest));
                } else {
                    assert(call.caller_audio_taken(events) =~= next.caller_audio_taken(rest));
                }
            },
            CallEvent::OpenAi(input) => {
                assert(call.tried(events) =~= later);
                if call.awaits() {
                    match call.takes_event(events[0]) {
                        Some(event) => {
                            law_event_audio_is_handed_on(call.bridge, event);
                        },
                        None => {},
                    }
                    assert(caller_audio(call.queue) + call.caller_audio_taken(events)
                        =~= caller_audio(next.queue) + next.caller_audio_taken(rest));
                } else {
                    assert(call.caller_audio_taken(events) =~= next.caller_audio_taken(rest));
                }
            },
        }
    }
}

proof fn lemma_caller_audio_of_first(
    first: OutgoingView,
    rest: Seq<OutgoingView>,
    all: Seq<OutgoingView>,
)
    requires
        all.len() > 0,
        all[0] == first,
        all.drop_first() == rest,
    ensures
        caller_audio(all) == caller_audio(seq![first]) + caller_audio(rest),
{
    reveal_with_fuel(caller_audio, 2);
    assert(seq![first].drop_first() =~= Seq::empty());
    assert(caller_audio(all) =~= caller_audio(seq![first]) + caller_audio(rest));
}

/// The caller's audio goes to the model complete, in its order and unrepeated: what has gone out,
/// and after it what still waits, is what the frames carried that the call has taken. Where a
/// message that is required cannot be sent it is so up to that message, with nothing after it.
pub proof fn law_caller_audio_goes_out_complete(
    cfg: RealtimeConfig,
    meta: CallMeta,
    events: Seq<CallEvent>,
)
    ensures
        ({
            let call = opened(cfg, meta);
            let out = caller_audio(call.tried(events)) + caller_audio(call.after(events).queue);
            &&& out.is_prefix_of(call.caller_audio_taken(events))
            &&& !call.required_send_fails(events) ==> out == call.caller_audio_taken(events)
        }),
{
    let call = opened(cfg, meta);
    lemma_opening_type(cfg, meta);
    lemma_caller_audio(call, events);
    reveal_with_fuel(caller_audio, 2);
    assert(call.queue.drop_first() =~= Seq::empty());
    assert(caller_audio(call.queue) + call.caller_audio_taken(events)
        =~= call.caller_audio_taken(events));
}

proof fn lemma_model_audio_of_first(
    first: OutgoingView,
    rest: Seq<OutgoingView>,
    all: Seq<OutgoingView>,
)
    requires
        all.len() > 0,
        all[0] == first,
        all.drop_first() == rest,
    ensures
        model_audio(all) == model_audio(seq![first]) + model_audio(rest),
{
    reveal_with_fuel(model_audio, 2);
    assert(seq![first].drop_first() =~= Seq::empty());
    assert(model_audio(all) =~= model_audio(seq![first]) + model_audio(rest));
}

proof fn lemma_model_audio(call: CallView, events: Seq<CallEvent>)
    ensures
        ({
            let out = model_audio(call.tried(events)) + model_audio(call.after(events).queue);
            let due = model_audio(call.queue) + call.model_audio_taken(
                events,
                call.bridge.stream_id,
            );
            &&& out.is_prefix_of(due)
            &&& !call.required_send_fails(events) ==> out == due
        }),
    decreases events.len(),
{
    let id = call.bridge.stream_id;
    if events.len() == 0 {
        let waiting = model_audio(call.queue);
        assert(model_audio(call.tried(events)) =~= Seq::empty());
        assert(model_audio(call.tried(events)) + waiting =~= waiting);
        assert(waiting + call.model_audio_taken(events, id) =~= waiting);
    } else {
        let next = call.step(events[0]);
        let next_id = next.bridge.stream_id;
        let rest = events.drop_first();
        lemma_model_audio(next, rest);
        let later = next.tried(rest);
        let end = model_audio(next.after(rest).queue);
        match events[0] {
            CallEvent::Sent(sent) => {
                if call.queue.len() > 0 {
                    let all = call.tried(events);
                    assert(all.drop_first() =~= later);
                    if !sent && call.queue[0].required {
                        law_over_is_final(next, rest);
                        lemma_over_takes_nothing(next, rest, id);
                        assert(later =~= Seq::empty());
                    }
                    lemma_model_audio_of_first(call.queue[0], call.queue.drop_first(), call.queue);
                    lemma_model_audio_of_first(call.queue[0], later, all);
                    let head = model_audio(seq![call.queue[0]]);
                    assert(head + model_audio(later) + end =~= head + (model_audio(later) + end));
                    let due = model_audio(call.queue.drop_first()) + next.model_audio_taken(rest, id);
                    assert(model_audio(call.queue) + call.model_audio_taken(events, id) =~= head
                        + due);
                } else {
                    assert(call.tried(events) =~= later);
                    assert(call.model_audio_taken(events, id) =~= next.model_audio_taken(rest, id));
                }
            },
            CallEvent::Inkbox(input) => {
                assert(call.tried(events) =~= later);
                if call.awaits() {
                    match call.takes_frame(events[0]) {
                        Some(frame) => {
                            law_frame_audio_is_handed_on(call.bridge, frame);
                            assert(next_id == announced_id(frame, id));
                        },
                        None => {},
                    }
                    assert(model_audio(call.queue) + call.model_audio_taken(events, id)
                        =~= model_audio(next.queue) + next.model_audio_taken(rest, next_id));
                } else {
                    assert(call.model_audio_taken(events, id) =~= next.model_audio_taken(rest, id));
                }
            },
            CallEvent::OpenAi(input) => {
                assert(call.tried(events) =~= later);
                if call.awaits() {
                    match call.takes_event(events[0]) {
                        Some(event) => {
                            law_event_audio_is_handed_on(call.bridge, event);
                        },
                        None => {},
                    }
                    assert(model_audio(call.queue) + call.model_audio_taken(events, id)
                        =~= model_audio(next.queue) + next.model_audio_taken(rest, next_id));
                } else {
                    assert(call.model_audio_taken(events, id) =~= next.model_audio_taken(rest, id));
                }
            },
        }
    }
}

/// The model's audio goes to the phone side complete, in its order and unrepeated, each piece with
/// the id of the stream that was announced last before it. Where a message that is required cannot
/// be sent it is so up to that message, with nothing after it.
pub proof fn law_model_audio_goes_out_complete(
    cfg: RealtimeConfig,
    meta: CallMeta,
    events: Seq<CallEvent>,
)
    ensures
        ({
            let call = opened(cfg, meta);
            let out = model_audio(call.tried(events)) + model_audio(call.after(events).queue);
            &&& out.is_prefix_of(call.model_audio_taken(events, None))
            &&& !call.required_send_fails(events) ==> out == call.model_audio_taken(events, None)
        }),
{
    let call = opened(cfg, meta);
    lemma_model_audio(call, events);
    reveal_with_fuel(model_audio, 2);
    assert(call.queue.drop_first() =~= Seq::empty());
    assert(model_audio(call.queue) + call.model_audio_taken(events, None)
        =~= call.model_audio_taken(events, None));
}

/// The view of a call keeps all that the call holds, the messages that wait in their order.
pub proof fn law_call_view_keeps_everything(call: Call)
    ensures
        call@.bridge == call.bridge@,
        call@.configured == call.configured,
        call@.over == call.over,
        call@.queue.len() == call.queue@.len(),
        forall|i: int| 0 <= i < call.queue@.len() ==> #[trigger] call@.queue[i] == call.queue@[i]@,
{
}

/// A message that has been sent, or that the call does not depend on, gives way to the next one and
/// to nothing else; one that the call depends on ends it when it fails.
pub proof fn law_sending_moves_on(call: CallView, sent: bool)
    requires
        call.queue.len() > 0,
    ensures
        ({
            let next = call.step(CallEvent::Sent(sent));
            let fails = call.queue[0].required && !sent;
            &&& next.bridge == call.bridge
            &&& fails ==> next.over && next.queue.len() == 0
            &&& !fails ==> next.over == call.over && next.queue == call.queue.skip(1)
            &&& next.configured <==> call.configured || sent
        }),
{
    assert(call.queue.drop_first() =~= call.queue.skip(1));
}

/// A call that waits takes what either socket yields, and what follows from it is to be sent next;
/// one that does not wait takes nothing.
pub proof fn law_waiting_call_takes_inputs(call: CallView, input: SocketInput)
    ensures
        ({
            let phone = call.step(CallEvent::Inkbox(input));
            let model = call.step(CallEvent::OpenAi(input));
            if call.queue.len() == 0 && !call.over {
                &&& phone.bridge == call.bridge.after_inkbox(input)
                &&& phone.queue == call.bridge.on_inkbox(input).sends
                &&& phone.over == call.bridge.on_inkbox(input).over
                &&& phone.configured == call.configured
                &&& model.bridge == call.bridge.after_openai(input)
                &&& model.queue == call.bridge.on_openai(input).sends
                &&& model.over == call.bridge.on_openai(input).over
                &&& model.configured == call.configured
            } else {
                phone == call && model == call
            }
        }),
{
}

/// A call begins with the session to be configured, on which all else depends, and with nothing
/// known, said or greeted.
pub proof fn law_call_begins_afresh(cfg: RealtimeConfig, meta: CallMeta)
    ensures
        ({
            let call = opened(cfg, meta);
            &&& call.queue.len() == 1
            &&& call.queue[0].to == Peer::OpenAi
            &&& call.queue[0].required
            &&& call.queue[0].body == session_update_message(cfg, meta)
            &&& !call.over
            &&& !call.configured
            &&& call.bridge.meta == meta
            &&& call.bridge.stream_id is None
            &&& !call.bridge.greeting_sent
            &&& call.bridge.transcript.len() == 0
        }),
{
}

impl CallView {
    /// The turns in the events that the call takes, in their order.
    pub open spec fn turns_taken(self, events: Seq<CallEvent>) -> Seq<(Seq<char>, Seq<char>)>
        decreases events.len(),
    {
        if events.len() == 0 {
            Seq::empty()
        } else {
            let now = match self.takes_event(events[0]) {
                Some(event) => event_turn(event),
                None => Seq::empty(),
            };
            now + self.step(events[0]).turns_taken(events.drop_first())
        }
    }
}

/// Over a whole call the transcript is what was said in the events that the call has taken: every
/// turn, in its order, and no other.
pub proof fn law_transcript_is_what_was_said(call: CallView, events: Seq<CallEvent>)
    ensures
        call.after(events).bridge.transcript == call.bridge.transcript + call.turns_taken(events),
    decreases events.len(),
{
    if events.len() == 0 {
        assert(call.bridge.transcript + call.turns_taken(events) =~= call.bridge.transcript);
    } else {
        let next = call.step(events[0]);
        let rest = events.drop_first();
        law_transcript_is_what_was_said(next, rest);
        match call.takes_event(events[0]) {
            Some(event) => {
                law_every_transcript_adds_a_turn(call.bridge, event);
            },
            None => {
                assert(next.bridge.transcript == call.bridge.transcript);
            },
        }
        assert(next.bridge.transcript + next.turns_taken(rest) =~= call.bridge.transcript
            + call.turns_taken(events));
    }
}

/// Whom a call is with never changes, so the greeting does not either.
pub proof fn law_call_stays_with_its_contact(call: CallView, events: Seq<CallEvent>)
    ensures
        call.after(events).bridge.meta == call.bridge.meta,
    decreases events.len(),
{
    if events.len() > 0 {
        law_call_stays_with_its_contact(call.step(events[0]), events.drop_first());
    }
}

} // verus!
