//! Global guarantees of the orchestration core, stated and proved over
//! whole sequences of drained events.

use vstd::prelude::*;

use crate::event::SpecEvent;
use crate::history::Role;
use crate::orchestrator::{
    LifecycleState, ShipAppView, spec_step, spec_run, spec_submit, lemma_run_append,
    lemma_run_one,
};

verus! {

/// Applying `e` in state `v` launches a worker.
pub open spec fn spawns_worker(v: ShipAppView, e: SpecEvent) -> bool {
    spec_step(v, e).1 is Some
}

/// Worker bookkeeping over an event sequence: starting from `pending` (a
/// worker has been spawned and its terminal event not yet applied), is a
/// worker still outstanding after the whole sequence?
pub open spec fn pending_after(pending: bool, v: ShipAppView, es: Seq<SpecEvent>) -> bool
    decreases es.len(),
{
    if es.len() == 0 {
        pending
    } else {
        let p1 = if es[0] is Done {
            false
        } else if spawns_worker(v, es[0]) {
            true
        } else {
            pending
        };
        pending_after(p1, spec_step(v, es[0]).0, es.drop_first())
    }
}

/// The lifecycle state is Idle exactly when no worker has been spawned
/// since the last terminal event was applied: over any sequence of drained
/// events, the state tracks the worker bookkeeping.
pub proof fn lemma_idle_iff_no_outstanding_worker(
    pending: bool,
    v: ShipAppView,
    es: Seq<SpecEvent>,
)
    requires
        pending == (v.state != LifecycleState::Idle),
    ensures
        pending_after(pending, v, es) == (spec_run(v, es).state != LifecycleState::Idle),
    decreases es.len(),
{
    if es.len() > 0 {
        let v1 = spec_step(v, es[0]).0;
        let p1 = if es[0] is Done {
            false
        } else if spawns_worker(v, es[0]) {
            true
        } else {
            pending
        };
        assert(p1 == (v1.state != LifecycleState::Idle));
        lemma_idle_iff_no_outstanding_worker(p1, v1, es.drop_first());
    }
}

/// Number of Scanning-to-Generating transitions a sequence of events
/// causes.
pub open spec fn count_scan_to_gen(v: ShipAppView, es: Seq<SpecEvent>) -> nat
    decreases es.len(),
{
    if es.len() == 0 {
        0nat
    } else {
        let v1 = spec_step(v, es[0]).0;
        (if v.state == LifecycleState::Scanning && v1.state == LifecycleState::Generating {
            1nat
        } else {
            0nat
        }) + count_scan_to_gen(v1, es.drop_first())
    }
}

/// The transition count splits over concatenation of batches.
pub proof fn lemma_count_append(v: ShipAppView, es1: Seq<SpecEvent>, es2: Seq<SpecEvent>)
    ensures
        count_scan_to_gen(v, es1 + es2) == count_scan_to_gen(v, es1) + count_scan_to_gen(
            spec_run(v, es1),
            es2,
        ),
    decreases es1.len(),
{
    if es1.len() == 0 {
        assert(es1 + es2 =~= es2);
    } else {
        let v1 = spec_step(v, es1[0]).0;
        assert((es1 + es2)[0] == es1[0]);
        assert((es1 + es2).drop_first() =~= es1.drop_first() + es2);
        lemma_count_append(v1, es1.drop_first(), es2);
    }
}

/// Status notes change nothing: no state change, no transition.
pub proof fn lemma_statuses_inert(v: ShipAppView, ts: Seq<Seq<char>>)
    ensures
        spec_run(v, ts.map_values(|t: Seq<char>| SpecEvent::Status(t))) == v,
        count_scan_to_gen(v, ts.map_values(|t: Seq<char>| SpecEvent::Status(t))) == 0,
    decreases ts.len(),
{
    let es = ts.map_values(|t: Seq<char>| SpecEvent::Status(t));
    if ts.len() > 0 {
        assert(es[0] == SpecEvent::Status(ts[0]));
        assert(spec_step(v, es[0]).0 == v);
        assert(es.drop_first() =~= ts.drop_first().map_values(
            |t: Seq<char>| SpecEvent::Status(t),
        ));
        lemma_statuses_inert(v, ts.drop_first());
    }
}

/// While Generating, content chunks only stream into the history: the
/// state stays Generating and no Scanning-to-Generating transition occurs.
pub proof fn lemma_contents_stay_generating(v: ShipAppView, cs: Seq<Seq<char>>)
    requires
        v.state == LifecycleState::Generating,
    ensures
        spec_run(v, cs.map_values(|c: Seq<char>| SpecEvent::Content(c))).state
            == LifecycleState::Generating,
        count_scan_to_gen(v, cs.map_values(|c: Seq<char>| SpecEvent::Content(c))) == 0,
    decreases cs.len(),
{
    let es = cs.map_values(|c: Seq<char>| SpecEvent::Content(c));
    if cs.len() > 0 {
        assert(es[0] == SpecEvent::Content(cs[0]));
        let v1 = spec_step(v, es[0]).0;
        assert(v1.state == LifecycleState::Generating);
        assert(es.drop_first() =~= cs.drop_first().map_values(
            |c: Seq<char>| SpecEvent::Content(c),
        ));
        lemma_contents_stay_generating(v1, cs.drop_first());
    }
}

/// A retrieval-mode submission makes exactly one Scanning-to-Generating
/// transition before returning to Idle, whether or not evidence was found:
/// the retrieval worker may announce itself with status notes and must send
/// exactly one outcome, and the follow-up inference worker streams any
/// number of content chunks before its terminal event.
pub proof fn lemma_retrieval_round_trip(
    v: ShipAppView,
    input: Seq<char>,
    statuses: Seq<Seq<char>>,
    outcome: SpecEvent,
    contents: Seq<Seq<char>>,
)
    requires
        v.state == LifecycleState::Idle,
        v.reasoning,
        outcome is ResearchData || outcome is ResearchEmpty,
    ensures
        ({
            let v1 = spec_submit(v, input).0;
            let es = statuses.map_values(|t: Seq<char>| SpecEvent::Status(t)) + seq![outcome]
                + contents.map_values(|c: Seq<char>| SpecEvent::Content(c)) + seq![
                SpecEvent::Done,
            ];
            count_scan_to_gen(v1, es) == 1 && spec_run(v1, es).state == LifecycleState::Idle
        }),
{
    let v1 = spec_submit(v, input).0;
    assert(v1.state == LifecycleState::Scanning);
    assert(v1.messages.len() > 0 && v1.messages.last().role == Role::User);
    let st = statuses.map_values(|t: Seq<char>| SpecEvent::Status(t));
    let ct = contents.map_values(|c: Seq<char>| SpecEvent::Content(c));
    let done = seq![SpecEvent::Done];
    let es = st + seq![outcome] + ct + done;
    let tail = seq![outcome] + ct + done;
    assert(es =~= st + tail);

    lemma_statuses_inert(v1, statuses);
    lemma_run_append(v1, st, tail);
    lemma_count_append(v1, st, tail);

    let v2 = spec_step(v1, outcome).0;
    assert(v2.state == LifecycleState::Generating);
    lemma_run_one(v1, outcome);
    lemma_run_append(v1, seq![outcome], ct + done);
    lemma_count_append(v1, seq![outcome], ct + done);
    assert(tail =~= seq![outcome] + (ct + done));
    assert(count_scan_to_gen(v1, seq![outcome]) == 1) by {
        assert(seq![outcome].len() == 1);
        assert(seq![outcome][0] == outcome);
        assert(seq![outcome].drop_first() =~= Seq::<SpecEvent>::empty());
        assert(count_scan_to_gen(v2, seq![outcome].drop_first()) == 0);
    }

    lemma_contents_stay_generating(v2, contents);
    lemma_run_append(v2, ct, done);
    lemma_count_append(v2, ct, done);
    let v3 = spec_run(v2, ct);
    assert(v3.state == LifecycleState::Generating);
    lemma_run_one(v3, SpecEvent::Done);
    assert(count_scan_to_gen(v3, done) == 0) by {
        assert(done.len() == 1);
        assert(done[0] == SpecEvent::Done);
        assert(done.drop_first() =~= Seq::<SpecEvent>::empty());
        assert(spec_step(v3, SpecEvent::Done).0.state == LifecycleState::Idle);
        assert(count_scan_to_gen(spec_step(v3, SpecEvent::Done).0, done.drop_first()) == 0);
    }
    assert(spec_run(v3, done).state == LifecycleState::Idle);
}

} // verus!
