use ship_core::event::{encode_event, parse_event, ChannelEvent};
use ship_core::history::{Role, Turn};
use ship_core::orchestrator::{LifecycleState, ShipApp, WorkerSpawn};
use ship_core::retrieval::{scan_status, ResearchScan};
use ship_core::vram::{parse_trimmed, parse_u64_or_zero, parse_vram_output};

fn s(t: &str) -> String {
    t.to_string()
}

// --- event protocol ---

#[test]
fn parse_done_tag() {
    assert_eq!(parse_event("__DONE__"), ChannelEvent::Done);
}

#[test]
fn parse_empty_tag() {
    assert_eq!(parse_event("__RESEARCH_EMPTY__"), ChannelEvent::ResearchEmpty);
}

#[test]
fn parse_data_tag_keeps_payload() {
    assert_eq!(
        parse_event("__RESEARCH_DATA__:some evidence"),
        ChannelEvent::ResearchData(s("some evidence"))
    );
}

#[test]
fn parse_status_tag_keeps_payload() {
    assert_eq!(
        parse_event("__STATUS__: Scanning for signal 'x'..."),
        ChannelEvent::Status(s(" Scanning for signal 'x'..."))
    );
}

#[test]
fn parse_untagged_is_content() {
    assert_eq!(parse_event("hello there"), ChannelEvent::Content(s("hello there")));
}

#[test]
fn parse_data_without_colon_is_content() {
    // the data tag includes the colon; without it the string is literal content
    assert_eq!(
        parse_event("__RESEARCH_DATA__"),
        ChannelEvent::Content(s("__RESEARCH_DATA__"))
    );
}

#[test]
fn encode_matches_wire_format() {
    assert_eq!(encode_event(&ChannelEvent::Done), "__DONE__");
    assert_eq!(encode_event(&ChannelEvent::ResearchEmpty), "__RESEARCH_EMPTY__");
    assert_eq!(
        encode_event(&ChannelEvent::ResearchData(s("abc"))),
        "__RESEARCH_DATA__:abc"
    );
    assert_eq!(encode_event(&ChannelEvent::Status(s("hi"))), "__STATUS__:hi");
    assert_eq!(encode_event(&ChannelEvent::Content(s("chunk"))), "chunk");
}

#[test]
fn encode_then_parse_round_trips() {
    let events = vec![
        ChannelEvent::Done,
        ChannelEvent::ResearchEmpty,
        ChannelEvent::ResearchData(s("evidence body")),
        ChannelEvent::Status(s("note")),
        ChannelEvent::Content(s("plain reply")),
    ];
    for e in events {
        let wire = encode_event(&e);
        assert_eq!(parse_event(wire.as_str()), e);
    }
}

// --- snippet extraction ---

#[test]
fn snippet_of_short_document_is_whole_document() {
    // 50 characters, keyword at offset 0: the window clamps to the whole text
    let doc = "signal processing basics in fifty characters here.";
    assert_eq!(doc.len(), 50);
    let snip = ShipApp::get_relevant_snippet(doc, "signal");
    assert_eq!(snip, doc);
}

#[test]
fn snippet_window_spans_200_before_and_500_after() {
    let mut doc = String::new();
    for _ in 0..300 {
        doc.push('a');
    }
    doc.push_str("signal");
    for _ in 0..900 {
        doc.push('b');
    }
    let snip = ShipApp::get_relevant_snippet(doc.as_str(), "signal");
    // match at offset 300: window is [100, 800)
    assert_eq!(snip.len(), 700);
    assert!(snip.starts_with("aaaa"));
    assert_eq!(&snip[200..206], "signal");
    assert!(snip.ends_with("bbbb"));
}

#[test]
fn snippet_matches_case_insensitively_both_ways() {
    let upper = ShipApp::get_relevant_snippet("a Signal appears", "signal");
    assert_eq!(upper, "a Signal appears");
    let lower = ShipApp::get_relevant_snippet("a signal appears", "Signal");
    assert_eq!(lower, "a signal appears");
    assert_eq!(
        ShipApp::get_relevant_snippet("SIGNAL chain", "signal"),
        "SIGNAL chain"
    );
}

#[test]
fn snippet_is_empty_when_keyword_absent() {
    assert_eq!(ShipApp::get_relevant_snippet("nothing to see", "signal"), "");
}

#[test]
fn snippet_uses_first_occurrence() {
    let doc = "first signal then more text and another signal later";
    let snip = ShipApp::get_relevant_snippet(doc, "signal");
    // first match at offset 6, shorter than the window: whole document
    assert_eq!(snip, doc);
}

// --- corpus scan aggregation ---

#[test]
fn scan_with_match_reports_tagged_evidence() {
    let mut scan = ResearchScan::new();
    scan.add_document("notes.pdf", "all about signal integrity", "signal");
    match scan.finish() {
        ChannelEvent::ResearchData(data) => {
            assert_eq!(data, "\n[SOURCE: notes.pdf]\nall about signal integrity\n");
        }
        other => panic!("expected evidence, got {:?}", other),
    }
}

#[test]
fn scan_skips_documents_without_match() {
    let mut scan = ResearchScan::new();
    scan.add_document("a.pdf", "unrelated text", "signal");
    scan.add_document("b.pdf", "the signal is here", "signal");
    scan.add_document("c.pdf", "also unrelated", "signal");
    match scan.finish() {
        ChannelEvent::ResearchData(data) => {
            assert_eq!(data, "\n[SOURCE: b.pdf]\nthe signal is here\n");
        }
        other => panic!("expected evidence, got {:?}", other),
    }
}

#[test]
fn scan_with_no_matches_reports_empty() {
    let mut scan = ResearchScan::new();
    scan.add_document("a.pdf", "unrelated text", "signal");
    assert_eq!(scan.finish(), ChannelEvent::ResearchEmpty);
}

#[test]
fn scan_status_event_names_the_keyword() {
    let e = scan_status("op-amp");
    assert_eq!(e, ChannelEvent::Status(s(" Scanning for signal 'op-amp'...")));
    assert_eq!(encode_event(&e), "__STATUS__: Scanning for signal 'op-amp'...");
}

// --- orchestrator state machine ---

fn direct_app() -> ShipApp {
    ShipApp::new(s("test-model"), s("/corpus"), false)
}

fn retrieval_app() -> ShipApp {
    ShipApp::new(s("test-model"), s("/corpus"), true)
}

#[test]
fn new_session_is_idle_and_empty() {
    let app = direct_app();
    assert_eq!(app.state(), LifecycleState::Idle);
    assert!(app.messages().is_empty());
    assert!(app.research_results().is_empty());
    assert!(!app.has_pending_image());
}

#[test]
fn direct_submission_runs_one_inference_to_done() {
    // retrieval off: one inference spawn with empty evidence, then __DONE__,
    // ending Idle with two new turns
    let mut app = direct_app();
    let spawn = app.submit(s("explain op-amp bandwidth"));
    let req = match spawn {
        Some(WorkerSpawn::Inference(req)) => req,
        other => panic!("expected an inference spawn, got {:?}", other),
    };
    assert_eq!(req.user_content, "explain op-amp bandwidth");
    assert_eq!(req.model, "test-model");
    assert_eq!(req.image_base64, None);
    assert!(!req.system_profile.is_empty());
    assert_eq!(app.state(), LifecycleState::Generating);

    assert!(app.handle_message("A single-pole roll-off...").is_none());
    assert!(app.handle_message("__DONE__").is_none());
    assert_eq!(app.state(), LifecycleState::Idle);

    let turns = app.messages();
    assert_eq!(turns.len(), 2);
    assert_eq!(turns[0].role, Role::User);
    assert_eq!(turns[0].content, "explain op-amp bandwidth");
    assert_eq!(turns[1].role, Role::Assistant);
    assert_eq!(turns[1].content, "A single-pole roll-off...");
}

#[test]
fn submission_outside_idle_has_no_effect() {
    let mut app = direct_app();
    assert!(app.submit(s("first")).is_some());
    assert_eq!(app.state(), LifecycleState::Generating);
    // state is not Idle: no new turn, no new worker
    assert!(app.submit(s("second")).is_none());
    assert_eq!(app.messages().len(), 1);
    assert_eq!(app.state(), LifecycleState::Generating);
}

#[test]
fn retrieval_submission_scans_then_generates() {
    // retrieval on: evidence observed before any inference spawn; evidence
    // buffer non-empty at request-build time and empty immediately after
    let mut app = retrieval_app();
    let spawn = app.submit(s("signal"));
    match spawn {
        Some(WorkerSpawn::Retrieval { dir, keyword }) => {
            assert_eq!(dir, "/corpus");
            assert_eq!(keyword, "signal");
        }
        other => panic!("expected a retrieval spawn, got {:?}", other),
    }
    assert_eq!(app.state(), LifecycleState::Scanning);

    // the worker side, fed one matching document
    let mut scan = ResearchScan::new();
    scan.add_document("paper.pdf", "a signal path study", "signal");
    let outcome = scan.finish();
    let wire = encode_event(&outcome);
    assert!(wire.starts_with("__RESEARCH_DATA__:"));

    let follow_up = app.handle_message(wire.as_str());
    let req = match follow_up {
        Some(WorkerSpawn::Inference(req)) => req,
        other => panic!("expected an inference spawn, got {:?}", other),
    };
    assert_eq!(app.state(), LifecycleState::Generating);
    // evidence was folded into the request and cleared from the live state
    assert_eq!(
        req.user_content,
        "### RESEARCH DATA:\n\n[SOURCE: paper.pdf]\na signal path study\n\n\n### USER QUERY:\nsignal"
    );
    assert!(app.research_results().is_empty());

    assert!(app.handle_message("reply").is_none());
    assert!(app.handle_message("__DONE__").is_none());
    assert_eq!(app.state(), LifecycleState::Idle);
    assert_eq!(app.messages().len(), 2);
}

#[test]
fn empty_retrieval_still_generates_without_evidence() {
    let mut app = retrieval_app();
    app.submit(s("signal"));
    let follow_up = app.handle_message("__RESEARCH_EMPTY__");
    match follow_up {
        Some(WorkerSpawn::Inference(req)) => {
            assert_eq!(req.user_content, "signal");
        }
        other => panic!("expected an inference spawn, got {:?}", other),
    }
    assert_eq!(app.state(), LifecycleState::Generating);
}

#[test]
fn streamed_chunks_grow_one_assistant_turn() {
    // N content events with no terminal in between: one assistant turn
    // holding the ordered concatenation
    let mut app = direct_app();
    app.submit(s("question"));
    for chunk in ["The ", "answer ", "is 42."] {
        assert!(app.handle_message(chunk).is_none());
    }
    let turns = app.messages();
    assert_eq!(turns.len(), 2);
    assert_eq!(turns[1].role, Role::Assistant);
    assert_eq!(turns[1].content, "The answer is 42.");
}

#[test]
fn done_returns_to_idle_from_any_state() {
    let mut idle = direct_app();
    idle.handle_message("__DONE__");
    assert_eq!(idle.state(), LifecycleState::Idle);

    let mut scanning = retrieval_app();
    scanning.submit(s("q"));
    assert_eq!(scanning.state(), LifecycleState::Scanning);
    scanning.handle_message("__DONE__");
    assert_eq!(scanning.state(), LifecycleState::Idle);

    let mut generating = direct_app();
    generating.submit(s("q"));
    assert_eq!(generating.state(), LifecycleState::Generating);
    generating.handle_message("__DONE__");
    assert_eq!(generating.state(), LifecycleState::Idle);
}

#[test]
fn status_events_change_nothing() {
    let mut app = retrieval_app();
    app.submit(s("q"));
    let before_len = app.messages().len();
    assert!(app.handle_message("__STATUS__: Scanning for signal 'q'...").is_none());
    assert_eq!(app.state(), LifecycleState::Scanning);
    assert_eq!(app.messages().len(), before_len);
}

#[test]
fn pending_image_rides_the_next_request_only() {
    let mut app = direct_app();
    app.attach_image(s("AAAA"));
    assert!(app.has_pending_image());
    let spawn = app.submit(s("what is in this picture?"));
    match spawn {
        Some(WorkerSpawn::Inference(req)) => {
            assert_eq!(req.image_base64, Some(s("AAAA")));
        }
        other => panic!("expected an inference spawn, got {:?}", other),
    }
    // cleared at spawn time, not at completion
    assert!(!app.has_pending_image());
    assert!(app.messages()[0].has_image);
}

#[test]
fn poll_drains_a_whole_batch_in_order() {
    let mut app = direct_app();
    app.submit(s("q"));
    let msgs = vec![s("part one, "), s("part two."), s("__DONE__")];
    let (applied, spawns) = app.poll(&msgs);
    assert_eq!(applied, 3);
    assert!(spawns.is_empty());
    assert_eq!(app.state(), LifecycleState::Idle);
    assert_eq!(app.messages()[1].content, "part one, part two.");
}

#[test]
fn poll_reports_follow_up_spawns() {
    let mut app = retrieval_app();
    app.submit(s("signal"));
    let msgs = vec![
        s("__STATUS__: starting"),
        s("__RESEARCH_DATA__:evidence here"),
        s("the reply"),
        s("__DONE__"),
    ];
    let (applied, spawns) = app.poll(&msgs);
    assert_eq!(applied, 4);
    assert_eq!(spawns.len(), 1);
    match &spawns[0] {
        WorkerSpawn::Inference(req) => {
            assert!(req.user_content.contains("evidence here"));
            assert!(req.user_content.contains("### USER QUERY:\nsignal"));
        }
        other => panic!("expected an inference spawn, got {:?}", other),
    }
    assert_eq!(app.state(), LifecycleState::Idle);
}

#[test]
fn settings_take_effect_on_next_submission() {
    let mut app = direct_app();
    app.set_selected_model(s("other-model"));
    app.set_reasoning_mode(true);
    app.set_research_dir(s("/papers"));
    match app.submit(s("q")) {
        Some(WorkerSpawn::Retrieval { dir, keyword }) => {
            assert_eq!(dir, "/papers");
            assert_eq!(keyword, "q");
        }
        other => panic!("expected a retrieval spawn, got {:?}", other),
    }
}

#[test]
fn stray_content_while_idle_opens_assistant_turn() {
    let mut app = direct_app();
    assert!(app.handle_message("late chunk").is_none());
    let turns = app.messages();
    assert_eq!(turns.len(), 1);
    assert_eq!(turns[0].role, Role::Assistant);
    assert_eq!(turns[0].content, "late chunk");
    assert_eq!(app.state(), LifecycleState::Idle);
}

#[test]
fn turns_compare_by_fields() {
    let a = Turn { role: Role::User, content: s("x"), has_image: false };
    let b = Turn { role: Role::User, content: s("x"), has_image: false };
    assert_eq!(a, b);
}

// --- resource probe parsing ---

#[test]
fn vram_line_parses_used_and_total() {
    assert_eq!(parse_vram_output("1234, 24576\n"), (1234, 24576));
    assert_eq!(parse_vram_output("1234,24576"), (1234, 24576));
    assert_eq!(parse_vram_output(" 8 , 16 \r\nsecond line, ignored\n"), (8, 16));
}

#[test]
fn vram_degrades_to_zero_on_malformed_output() {
    assert_eq!(parse_vram_output(""), (0, 0));
    assert_eq!(parse_vram_output("no commas here\n"), (0, 0));
    assert_eq!(parse_vram_output("1,2,3\n"), (0, 0));
    assert_eq!(parse_vram_output("abc, def\n"), (0, 0));
}

#[test]
fn numeric_fields_fall_back_to_zero() {
    assert_eq!(parse_u64_or_zero("12345"), 12345);
    assert_eq!(parse_u64_or_zero(""), 0);
    assert_eq!(parse_u64_or_zero("12x"), 0);
    assert_eq!(parse_u64_or_zero("18446744073709551615"), u64::MAX);
    assert_eq!(parse_u64_or_zero("18446744073709551616"), 0);
    assert_eq!(parse_u64_or_zero("99999999999999999999999"), 0);
}

#[test]
fn fields_are_trimmed_before_parsing() {
    assert_eq!(parse_trimmed("  42\t"), 42);
    assert_eq!(parse_trimmed("42"), 42);
    assert_eq!(parse_trimmed("   "), 0);
    assert_eq!(parse_vram_output("\t7 ,\t9 \n"), (7, 9));
}
