//! The turn orchestrator: owner of the lifecycle state and the conversation
//! history. It decides which worker to launch on user input, interprets the
//! events workers send back, and never lets more than one worker be in
//! flight. The blocking work itself (document scanning, the completion call)
//! is performed outside, by whoever receives the returned `WorkerSpawn`.

use vstd::prelude::*;

use crate::event::{ChannelEvent, SpecEvent, spec_parse, parse_event};
use crate::history::{Role, Turn, TurnView, turns_view, spec_apply_content, apply_content};

verus! {

/// Lifecycle of the single in-flight background task.
#[derive(Clone, Copy, PartialEq, Eq, Structural, Debug)]
pub enum LifecycleState {
    /// Ready for input; no worker in flight.
    Idle,
    /// A retrieval worker is scanning the document corpus.
    Scanning,
    /// An inference worker is waiting on the completion backend.
    Generating,
}

/// Everything an inference worker needs, captured at spawn time and
/// immutable thereafter.
#[derive(Debug, PartialEq)]
pub struct InferenceRequest {
    pub model: String,
    pub system_profile: String,
    pub user_content: String,
    pub image_base64: Option<String>,
}

/// Mathematical image of an `InferenceRequest`.
pub struct RequestView {
    pub model: Seq<char>,
    pub system_profile: Seq<char>,
    pub user_content: Seq<char>,
    pub image_base64: Option<Seq<char>>,
}

impl View for InferenceRequest {
    type V = RequestView;

    open spec fn view(&self) -> RequestView {
        RequestView {
            model: self.model@,
            system_profile: self.system_profile@,
            user_content: self.user_content@,
            image_base64: match self.image_base64 {
                Some(s) => Some(s@),
                None => None,
            },
        }
    }
}

/// The one action a transition can ask the embedding loop to perform.
#[derive(Debug, PartialEq)]
pub enum WorkerSpawn {
    /// Scan the corpus under `dir` for `keyword` and report back.
    Retrieval { dir: String, keyword: String },
    /// Send the captured request to the completion backend and report back.
    Inference(InferenceRequest),
}

/// Mathematical image of a `WorkerSpawn`.
pub enum SpawnView {
    Retrieval { dir: Seq<char>, keyword: Seq<char> },
    Inference(RequestView),
}

impl View for WorkerSpawn {
    type V = SpawnView;

    open spec fn view(&self) -> SpawnView {
        match self {
            WorkerSpawn::Retrieval { dir, keyword } => SpawnView::Retrieval {
                dir: dir@,
                keyword: keyword@,
            },
            WorkerSpawn::Inference(req) => SpawnView::Inference(req@),
        }
    }
}

/// View of an optional spawn.
pub open spec fn opt_spawn_view(s: Option<WorkerSpawn>) -> Option<SpawnView> {
    match s {
        Some(w) => Some(w@),
        None => None,
    }
}

/// The fixed system/persona message sent with every request.
pub open spec fn spec_profile() -> Seq<char> {
    "You are an electrical engineering study assistant with a strong background in circuits, signal processing, and embedded systems. Always provide detailed explanations and practical examples."@
}

/// Exec mirror of `spec_profile`.
pub fn profile_text() -> (r: String)
    ensures
        r@ == spec_profile(),
{
    String::from_str(
        "You are an electrical engineering study assistant with a strong background in circuits, signal processing, and embedded systems. Always provide detailed explanations and practical examples.",
    )
}

/// The user message an inference request carries: the raw prompt when there
/// is no evidence, otherwise a labeled research-data section followed by a
/// labeled user-query section.
pub open spec fn spec_composed(evidence: Seq<char>, prompt: Seq<char>) -> Seq<char> {
    if evidence.len() == 0 {
        prompt
    } else {
        "### RESEARCH DATA:\n"@ + evidence + "\n\n### USER QUERY:\n"@ + prompt
    }
}

/// Exec mirror of `spec_composed`.
pub fn compose_content(evidence: &str, prompt: &str) -> (r: String)
    ensures
        r@ == spec_composed(evidence@, prompt@),
{
    if evidence.unicode_len() == 0 {
        String::from_str(prompt)
    } else {
        let mut s = String::from_str("### RESEARCH DATA:\n");
        s.append(evidence);
        s.append("\n\n### USER QUERY:\n");
        s.append(prompt);
        s
    }
}

/// The orchestrator: the single conversation's state, history and buffers.
pub struct ShipApp {
    state: LifecycleState,
    messages: Vec<Turn>,
    research_results: String,
    current_image_base64: Option<String>,
    selected_model: String,
    research_dir: String,
    is_reasoning_mode: bool,
}

/// Mathematical image of the orchestrator.
pub struct ShipAppView {
    pub state: LifecycleState,
    pub messages: Seq<TurnView>,
    pub research_results: Seq<char>,
    pub image: Option<Seq<char>>,
    pub model: Seq<char>,
    pub research_dir: Seq<char>,
    pub reasoning: bool,
}

impl View for ShipApp {
    type V = ShipAppView;

    closed spec fn view(&self) -> ShipAppView {
        ShipAppView {
            state: self.state,
            messages: turns_view(self.messages@),
            research_results: self.research_results@,
            image: match self.current_image_base64 {
                Some(s) => Some(s@),
                None => None,
            },
            model: self.selected_model@,
            research_dir: self.research_dir@,
            reasoning: self.is_reasoning_mode,
        }
    }
}

/// Spawning an inference worker: the request captures the model, the
/// evidence folded into the user message, and the pending image; the live
/// state moves to Generating with evidence and image cleared at spawn time.
pub open spec fn spec_spawn_inference(v: ShipAppView, prompt: Seq<char>) -> (ShipAppView,
    RequestView) {
    (
        ShipAppView {
            state: LifecycleState::Generating,
            research_results: Seq::<char>::empty(),
            image: None,
            ..v
        },
        RequestView {
            model: v.model,
            system_profile: spec_profile(),
            user_content: spec_composed(v.research_results, prompt),
            image_base64: v.image,
        },
    )
}

/// One user submission. Outside Idle it has no effect at all. From Idle it
/// appends a user turn and launches exactly one worker: retrieval when
/// reasoning mode is on, inference directly otherwise.
pub open spec fn spec_submit(v: ShipAppView, input: Seq<char>) -> (ShipAppView, Option<
    SpawnView,
>) {
    if v.state != LifecycleState::Idle {
        (v, None)
    } else {
        let pushed = ShipAppView {
            messages: v.messages.push(
                TurnView { role: Role::User, content: input, has_image: v.image is Some },
            ),
            ..v
        };
        if v.reasoning {
            (
                ShipAppView { state: LifecycleState::Scanning, ..pushed },
                Some(SpawnView::Retrieval { dir: v.research_dir, keyword: input }),
            )
        } else {
            let (v2, req) = spec_spawn_inference(pushed, input);
            (v2, Some(SpawnView::Inference(req)))
        }
    }
}

/// One channel event applied to the orchestrator. A terminal `Done` always
/// returns to Idle; a retrieval outcome stores the evidence (if any) and
/// launches the follow-up inference using the last user turn as the prompt;
/// a content chunk flows into the trailing assistant turn.
pub open spec fn spec_step(v: ShipAppView, e: SpecEvent) -> (ShipAppView, Option<SpawnView>) {
    match e {
        SpecEvent::Done => (ShipAppView { state: LifecycleState::Idle, ..v }, None),
        SpecEvent::Status(_) => (v, None),
        SpecEvent::ResearchData(d) => {
            let v1 = ShipAppView { research_results: d, ..v };
            if v1.messages.len() > 0 && v1.messages.last().role == Role::User {
                let (v2, req) = spec_spawn_inference(v1, v1.messages.last().content);
                (v2, Some(SpawnView::Inference(req)))
            } else {
                (v1, None)
            }
        },
        SpecEvent::ResearchEmpty => {
            if v.messages.len() > 0 && v.messages.last().role == Role::User {
                let (v2, req) = spec_spawn_inference(v, v.messages.last().content);
                (v2, Some(SpawnView::Inference(req)))
            } else {
                (v, None)
            }
        },
        SpecEvent::Content(c) => (
            ShipAppView { messages: spec_apply_content(v.messages, c), ..v },
            None,
        ),
    }
}

/// A whole drained batch of events, applied in order: the state it ends in.
pub open spec fn spec_run(v: ShipAppView, es: Seq<SpecEvent>) -> ShipAppView
    decreases es.len(),
{
    if es.len() == 0 {
        v
    } else {
        spec_run(spec_step(v, es[0]).0, es.drop_first())
    }
}

/// A whole drained batch of events, applied in order: the spawns it asks
/// for, in order.
pub open spec fn spec_run_spawns(v: ShipAppView, es: Seq<SpecEvent>) -> Seq<SpawnView>
    decreases es.len(),
{
    if es.len() == 0 {
        Seq::<SpawnView>::empty()
    } else {
        let (v1, s) = spec_step(v, es[0]);
        (match s {
            Some(x) => seq![x],
            None => Seq::<SpawnView>::empty(),
        }) + spec_run_spawns(v1, es.drop_first())
    }
}

/// A batch of one event is one step.
pub proof fn lemma_run_one(v: ShipAppView, e: SpecEvent)
    ensures
        spec_run(v, seq![e]) == spec_step(v, e).0,
        spec_run_spawns(v, seq![e]) == (match spec_step(v, e).1 {
            Some(x) => seq![x],
            None => Seq::<SpawnView>::empty(),
        }),
{
    assert(seq![e].len() == 1);
    assert(seq![e][0] == e);
    assert(seq![e].drop_first() =~= Seq::<SpecEvent>::empty());
    assert(spec_run(v, seq![e]) == spec_run(spec_step(v, e).0, seq![e].drop_first()));
    assert(spec_run_spawns(spec_step(v, e).0, seq![e].drop_first()) =~= Seq::<
        SpawnView,
    >::empty());
    assert(spec_run_spawns(v, seq![e]) =~= (match spec_step(v, e).1 {
        Some(x) => seq![x],
        None => Seq::<SpawnView>::empty(),
    }));
}

/// Batches compose: draining one batch after another is draining their
/// concatenation.
pub proof fn lemma_run_append(v: ShipAppView, es1: Seq<SpecEvent>, es2: Seq<SpecEvent>)
    ensures
        spec_run(v, es1 + es2) == spec_run(spec_run(v, es1), es2),
        spec_run_spawns(v, es1 + es2) == spec_run_spawns(v, es1) + spec_run_spawns(
            spec_run(v, es1),
            es2,
        ),
    decreases es1.len(),
{
    if es1.len() == 0 {
        assert(es1 + es2 =~= es2);
        assert(spec_run_spawns(v, es1) + spec_run_spawns(spec_run(v, es1), es2) =~= spec_run_spawns(
            v,
            es2,
        ));
    } else {
        let v1 = spec_step(v, es1[0]).0;
        assert((es1 + es2)[0] == es1[0]);
        assert((es1 + es2).drop_first() =~= es1.drop_first() + es2);
        lemma_run_append(v1, es1.drop_first(), es2);
        assert(spec_run_spawns(v, es1 + es2) =~= spec_run_spawns(v, es1) + spec_run_spawns(
            spec_run(v, es1),
            es2,
        ));
    }
}

/// One more event extends a drained prefix by one step.
pub proof fn lemma_run_snoc(v: ShipAppView, es: Seq<SpecEvent>, i: int)
    requires
        0 <= i < es.len(),
    ensures
        spec_run(v, es.take(i + 1)) == spec_step(spec_run(v, es.take(i)), es[i]).0,
        spec_run_spawns(v, es.take(i + 1)) == spec_run_spawns(v, es.take(i)) + (match spec_step(
            spec_run(v, es.take(i)),
            es[i],
        ).1 {
            Some(x) => seq![x],
            None => Seq::<SpawnView>::empty(),
        }),
{
    assert(es.take(i + 1) =~= es.take(i) + seq![es[i]]);
    lemma_run_append(v, es.take(i), seq![es[i]]);
    lemma_run_one(spec_run(v, es.take(i)), es[i]);
}

/// Views of a sequence of spawns.
pub open spec fn spawns_view(s: Seq<WorkerSpawn>) -> Seq<SpawnView> {
    s.map_values(|w: WorkerSpawn| w@)
}

/// Views of a drained message batch, parsed.
pub open spec fn parsed_views(msgs: Seq<String>) -> Seq<SpecEvent> {
    msgs.map_values(|m: String| spec_parse(m@))
}

impl ShipApp {
    /// A fresh session: Idle, empty history, empty buffers.
    pub fn new(selected_model: String, research_dir: String, is_reasoning_mode: bool) -> (r:
        ShipApp)
        ensures
            r@.state == LifecycleState::Idle,
            r@.messages == Seq::<TurnView>::empty(),
            r@.research_results == Seq::<char>::empty(),
            r@.image is None,
            r@.model == selected_model@,
            r@.research_dir == research_dir@,
            r@.reasoning == is_reasoning_mode,
    {
        let r = ShipApp {
            state: LifecycleState::Idle,
            messages: Vec::new(),
            research_results: String::new(),
            current_image_base64: None,
            selected_model,
            research_dir,
            is_reasoning_mode,
        };
        proof {
            assert(turns_view(r.messages@) =~= Seq::<TurnView>::empty());
        }
        r
    }

    /// Current lifecycle state.
    pub fn state(&self) -> (r: LifecycleState)
        ensures
            r == self@.state,
    {
        self.state
    }

    /// The conversation history.
    pub fn messages(&self) -> (r: &Vec<Turn>)
        ensures
            turns_view(r@) == self@.messages,
    {
        &self.messages
    }

    /// The evidence buffer as it stands.
    pub fn research_results(&self) -> (r: &String)
        ensures
            r@ == self@.research_results,
    {
        &self.research_results
    }

    /// Whether an image is pending for the next request.
    pub fn has_pending_image(&self) -> (r: bool)
        ensures
            r == (self@.image is Some),
    {
        self.current_image_base64.is_some()
    }

    /// Toggle retrieval (reasoning) mode for the next submission.
    pub fn set_reasoning_mode(&mut self, on: bool)
        ensures
            final(self)@ == (ShipAppView { reasoning: on, ..old(self)@ }),
    {
        self.is_reasoning_mode = on;
    }

    /// Point the retrieval worker at a different corpus directory.
    pub fn set_research_dir(&mut self, dir: String)
        ensures
            final(self)@ == (ShipAppView { research_dir: dir@, ..old(self)@ }),
    {
        self.research_dir = dir;
    }

    /// Select the model future requests are sent to.
    pub fn set_selected_model(&mut self, model: String)
        ensures
            final(self)@ == (ShipAppView { model: model@, ..old(self)@ }),
    {
        self.selected_model = model;
    }

    /// Attach an already-encoded image to the next outgoing request.
    pub fn attach_image(&mut self, base64: String)
        ensures
            final(self)@ == (ShipAppView { image: Some(base64@), ..old(self)@ }),
    {
        self.current_image_base64 = Some(base64);
    }

    /// Move to Generating and capture everything the inference worker needs:
    /// the composed user message (evidence first, if any), the model, and
    /// the pending image. The evidence and image buffers are cleared now, at
    /// spawn time, never at completion.
    pub fn trigger_ollama_generation(&mut self, prompt: String) -> (req: InferenceRequest)
        ensures
            ({
                let (v2, r) = spec_spawn_inference(old(self)@, prompt@);
                final(self)@ == v2 && req@ == r
            }),
    {
        self.state = LifecycleState::Generating;
        let model = self.selected_model.clone();
        let img = match &self.current_image_base64 {
            Some(s) => Some(s.clone()),
            None => None,
        };
        let content = compose_content(self.research_results.as_str(), prompt.as_str());
        self.research_results = String::new();
        self.current_image_base64 = None;
        InferenceRequest {
            model,
            system_profile: profile_text(),
            user_content: content,
            image_base64: img,
        }
    }

    /// One user submission; returns the worker to launch, if any. Outside
    /// Idle nothing happens: no new turn, no new worker.
    pub fn submit(&mut self, input: String) -> (spawn: Option<WorkerSpawn>)
        ensures
            ({
                let (v2, s) = spec_submit(old(self)@, input@);
                final(self)@ == v2 && opt_spawn_view(spawn) == s
            }),
            old(self)@.state != LifecycleState::Idle ==> final(self)@ == old(self)@ && spawn
                is None,
            old(self)@.state == LifecycleState::Idle ==> spawn is Some && final(self)@.state
                != LifecycleState::Idle,
    {
        if !(self.state == LifecycleState::Idle) {
            return None;
        }
        let has_img = self.current_image_base64.is_some();
        self.messages.push(
            Turn { role: Role::User, content: input.clone(), has_image: has_img },
        );
        proof {
            assert(turns_view(self.messages@) =~= old(self)@.messages.push(
                TurnView { role: Role::User, content: input@, has_image: old(self)@.image is Some },
            ));
        }
        if self.is_reasoning_mode {
            self.state = LifecycleState::Scanning;
            Some(WorkerSpawn::Retrieval { dir: self.research_dir.clone(), keyword: input })
        } else {
            let req = self.trigger_ollama_generation(input);
            Some(WorkerSpawn::Inference(req))
        }
    }

    /// One channel event applied to the live state; returns the follow-up
    /// worker to launch, if any. `Done` always lands in Idle, whatever came
    /// before. Whenever a follow-up inference is launched the evidence it
    /// was built from is cleared in the same step.
    pub fn apply_event(&mut self, e: &ChannelEvent) -> (spawn: Option<WorkerSpawn>)
        ensures
            ({
                let (v2, s) = spec_step(old(self)@, e@);
                final(self)@ == v2 && opt_spawn_view(spawn) == s
            }),
            e@ is Done ==> final(self)@.state == LifecycleState::Idle,
            spawn is Some ==> final(self)@.research_results == Seq::<char>::empty()
                && final(self)@.image is None,
    {
        match e {
            ChannelEvent::Done => {
                self.state = LifecycleState::Idle;
                None
            },
            ChannelEvent::Status(_) => None,
            ChannelEvent::ResearchData(d) => {
                self.research_results = d.clone();
                let n = self.messages.len();
                if n > 0 && self.messages[n - 1].role == Role::User {
                    let prompt = self.messages[n - 1].content.clone();
                    let req = self.trigger_ollama_generation(prompt);
                    Some(WorkerSpawn::Inference(req))
                } else {
                    None
                }
            },
            ChannelEvent::ResearchEmpty => {
                let n = self.messages.len();
                if n > 0 && self.messages[n - 1].role == Role::User {
                    let prompt = self.messages[n - 1].content.clone();
                    let req = self.trigger_ollama_generation(prompt);
                    Some(WorkerSpawn::Inference(req))
                } else {
                    None
                }
            },
            ChannelEvent::Content(c) => {
                apply_content(&mut self.messages, c.as_str());
                None
            },
        }
    }

    /// Apply a whole drained batch of channel messages, in arrival order.
    /// Returns how many events were applied, and the follow-up workers the
    /// batch asked for, in order.
    pub fn poll(&mut self, msgs: &Vec<String>) -> (r: (usize, Vec<WorkerSpawn>))
        ensures
            r.0 == msgs@.len(),
            final(self)@ == spec_run(old(self)@, parsed_views(msgs@)),
            spawns_view(r.1@) == spec_run_spawns(old(self)@, parsed_views(msgs@)),
    {
        let ghost es = parsed_views(msgs@);
        let mut spawns: Vec<WorkerSpawn> = Vec::new();
        let mut i: usize = 0;
        proof {
            assert(es.take(0) =~= Seq::<SpecEvent>::empty());
            assert(spawns_view(spawns@) =~= Seq::<SpawnView>::empty());
        }
        while i < msgs.len()
            invariant
                i <= msgs@.len(),
                es == parsed_views(msgs@),
                self@ == spec_run(old(self)@, es.take(i as int)),
                spawns_view(spawns@) == spec_run_spawns(old(self)@, es.take(i as int)),
            decreases msgs@.len() - i,
        {
            let s = self.handle_message(msgs[i].as_str());
            proof {
                lemma_run_snoc(old(self)@, es, i as int);
            }
            match s {
                Some(w) => {
                    spawns.push(w);
                    proof {
                        assert(spawns_view(spawns@) =~= spec_run_spawns(
                            old(self)@,
                            es.take(i as int + 1),
                        ));
                    }
                },
                None => {
                    proof {
                        assert(spawns_view(spawns@) =~= spec_run_spawns(
                            old(self)@,
                            es.take(i as int + 1),
                        ));
                    }
                },
            }
            i += 1;
        }
        proof {
            assert(es.take(msgs@.len() as int) =~= es);
        }
        (i, spawns)
    }

    /// One raw message drained from the channel: classified, then applied.
    pub fn handle_message(&mut self, msg: &str) -> (spawn: Option<WorkerSpawn>)
        ensures
            ({
                let (v2, s) = spec_step(old(self)@, spec_parse(msg@));
                final(self)@ == v2 && opt_spawn_view(spawn) == s
            }),
            spec_parse(msg@) is Done ==> final(self)@.state == LifecycleState::Idle,
    {
        let e = parse_event(msg);
        self.apply_event(&e)
    }
}

} // verus!
