use rust_llm_api::llm::{
    begin_chat, build_outbound, describe_failure, finish_chat, first_reply, resolve_session_id,
    UpstreamOutcome, SYSTEM_PROMPT,
};
use rust_llm_api::models::{Candidate, ChatRequest, Content, GeminiResponse, Part};
use rust_llm_api::state::AppState;

fn request(message: &str, session_id: Option<&str>) -> ChatRequest {
    ChatRequest { message: message.to_string(), session_id: session_id.map(|s| s.to_string()) }
}

fn reply(text: &str) -> UpstreamOutcome {
    UpstreamOutcome::Parsed(GeminiResponse {
        candidates: Some(vec![Candidate {
            content: Content {
                parts: vec![Part { text: text.to_string() }],
                role: Some("model".to_string()),
            },
            finishReason: Some("STOP".to_string()),
        }]),
    })
}

fn texts(h: &[Content]) -> Vec<(String, String)> {
    h.iter()
        .map(|c| (c.role.clone().unwrap_or_default(), c.parts[0].text.clone()))
        .collect()
}

fn chat(state: &mut AppState, message: &str, session_id: Option<&str>, outcome: UpstreamOutcome) -> (String, String) {
    let pending = begin_chat(state, request(message, session_id));
    let r = finish_chat(state, pending, outcome);
    (r.response, r.session_id)
}

#[test]
fn end_to_end_two_turns() {
    let mut state = AppState::new();
    let pending = begin_chat(&state, request("Hello", None));
    assert_eq!(pending.request.contents.len(), 1);
    assert_eq!(
        pending.request.contents[0].parts[0].text,
        format!("{}\n\nHello", SYSTEM_PROMPT)
    );
    let first = finish_chat(&mut state, pending, reply("Hi there"));
    assert_eq!(first.response, "Hi there");
    assert_eq!(first.session_id.len(), 36);

    let pending = begin_chat(&state, request("How are you?", Some(&first.session_id)));
    assert_eq!(pending.session_id, first.session_id);
    let sent = texts(&pending.request.contents);
    assert_eq!(sent.len(), 3);
    assert_eq!(sent[0], ("user".to_string(), format!("{}\n\nHello", SYSTEM_PROMPT)));
    assert_eq!(sent[1], ("model".to_string(), "Hi there".to_string()));
    assert_eq!(sent[2], ("user".to_string(), "How are you?".to_string()));
    let second = finish_chat(&mut state, pending, reply("Fine"));
    assert_eq!(second.response, "Fine");
    assert_eq!(second.session_id, first.session_id);

    let stored = texts(&state.conversations.get_history(&first.session_id));
    assert_eq!(
        stored,
        vec![
            ("user".to_string(), "Hello".to_string()),
            ("model".to_string(), "Hi there".to_string()),
            ("user".to_string(), "How are you?".to_string()),
            ("model".to_string(), "Fine".to_string()),
        ]
    );
}

#[test]
fn zero_candidates_gives_no_content() {
    let mut state = AppState::new();
    let empty = UpstreamOutcome::Parsed(GeminiResponse { candidates: Some(vec![]) });
    let (response, id) = chat(&mut state, "Hello", Some("abc"), empty);
    assert_eq!(response, "No content generated");
    assert_eq!(id, "abc");
    assert!(state.conversations.get_history(&id).is_empty());

    let missing = UpstreamOutcome::Parsed(GeminiResponse { candidates: None });
    let (response, _) = chat(&mut state, "Hello", Some("abc"), missing);
    assert_eq!(response, "No content generated");

    let no_parts = UpstreamOutcome::Parsed(GeminiResponse {
        candidates: Some(vec![Candidate {
            content: Content { parts: vec![], role: None },
            finishReason: None,
        }]),
    });
    let (response, _) = chat(&mut state, "Hello", Some("abc"), no_parts);
    assert_eq!(response, "No content generated");
    assert!(state.conversations.get_history(&"abc".to_string()).is_empty());
}

#[test]
fn server_error_leaves_history_unchanged() {
    let mut state = AppState::new();
    chat(&mut state, "one", Some("s"), reply("two"));
    let before = texts(&state.conversations.get_history(&"s".to_string()));
    let err = UpstreamOutcome::ApiError("500 Internal Server Error".to_string(), "boom".to_string());
    let (response, id) = chat(&mut state, "three", Some("s"), err);
    assert_eq!(response, "API Error: 500 Internal Server Error - Body: boom");
    assert_eq!(id, "s");
    assert_eq!(texts(&state.conversations.get_history(&"s".to_string())), before);
}

#[test]
fn server_error_on_new_session_stores_nothing() {
    let mut state = AppState::new();
    let err = UpstreamOutcome::ApiError("500 Internal Server Error".to_string(), String::new());
    let (_, id) = chat(&mut state, "hi", None, err);
    assert!(state.conversations.get_history(&id).is_empty());
}

#[test]
fn transport_and_parse_failures_are_described() {
    let mut state = AppState::new();
    let (r, _) = chat(&mut state, "a", Some("x"), UpstreamOutcome::RequestFailed("timed out".to_string()));
    assert_eq!(r, "Request failed: timed out");
    let (r, _) = chat(&mut state, "a", Some("x"), UpstreamOutcome::ParseFailed("bad json".to_string()));
    assert_eq!(r, "Failed to parse response: bad json");
    assert!(state.conversations.get_history(&"x".to_string()).is_empty());
    assert_eq!(
        describe_failure(&UpstreamOutcome::RequestFailed(String::new())),
        "Request failed: "
    );
}

#[test]
fn instruction_is_never_stored() {
    let mut state = AppState::new();
    let (_, id) = chat(&mut state, "first", None, reply("r1"));
    chat(&mut state, "second", Some(&id), reply("r2"));
    let stored = state.conversations.get_history(&id);
    assert_eq!(stored.len(), 4);
    for turn in &stored {
        assert!(!turn.parts[0].text.contains(SYSTEM_PROMPT));
    }
}

#[test]
fn splice_is_skipped_when_instruction_present() {
    let history = vec![
        Content { parts: vec![Part { text: format!("{} and more", SYSTEM_PROMPT) }], role: Some("user".to_string()) },
        Content { parts: vec![Part { text: "ok".to_string() }], role: Some("model".to_string()) },
    ];
    let out = build_outbound(&history, &"next".to_string());
    assert_eq!(out.len(), 3);
    assert_eq!(out[0].parts[0].text, format!("{} and more", SYSTEM_PROMPT));
    assert_eq!(out[2].parts[0].text, "next");
    assert_eq!(history[0].parts[0].text, format!("{} and more", SYSTEM_PROMPT));
}

#[test]
fn splice_only_touches_first_turn() {
    let history = vec![
        Content { parts: vec![Part { text: "a".to_string() }], role: Some("user".to_string()) },
        Content { parts: vec![Part { text: "b".to_string() }], role: Some("model".to_string()) },
    ];
    let out = build_outbound(&history, &"c".to_string());
    assert_eq!(out[0].parts[0].text, format!("{}\n\na", SYSTEM_PROMPT));
    assert_eq!(out[1].parts[0].text, "b");
    assert_eq!(out[2].parts[0].text, "c");
    assert_eq!(out[2].role.as_deref(), Some("user"));
    assert_eq!(history[0].parts[0].text, "a");
}

#[test]
fn empty_message_is_spliced() {
    let out = build_outbound(&vec![], &String::new());
    assert_eq!(out.len(), 1);
    assert_eq!(out[0].parts[0].text, format!("{}\n\n", SYSTEM_PROMPT));
}

#[test]
fn session_id_resolution() {
    assert_eq!(resolve_session_id(Some("given".to_string())), "given");
    let a = resolve_session_id(None);
    let b = resolve_session_id(Some(String::new()));
    assert_eq!(a.len(), 36);
    assert_eq!(b.len(), 36);
    assert_ne!(a, b);
}

#[test]
fn fresh_session_continues_with_its_id() {
    let mut state = AppState::new();
    let (_, id) = chat(&mut state, "m1", None, reply("r1"));
    assert!(!id.is_empty());
    let pending = begin_chat(&state, request("m2", Some(&id)));
    assert_eq!(pending.request.contents.len(), 3);
    assert_eq!(pending.request.contents[1].parts[0].text, "r1");
}

#[test]
fn many_exchanges_on_one_session_are_all_kept() {
    let mut state = AppState::new();
    let n = 8;
    let pendings: Vec<_> = (0..n)
        .map(|i| begin_chat(&state, request(&format!("msg {}", i), Some("shared"))))
        .collect();
    for (i, p) in pendings.into_iter().enumerate().rev() {
        finish_chat(&mut state, p, reply(&format!("reply {}", i)));
    }
    let stored = texts(&state.conversations.get_history(&"shared".to_string()));
    assert_eq!(stored.len(), 2 * n);
    for k in 0..n {
        let i = n - 1 - k;
        assert_eq!(stored[2 * k], ("user".to_string(), format!("msg {}", i)));
        assert_eq!(stored[2 * k + 1], ("model".to_string(), format!("reply {}", i)));
    }
}

#[test]
fn sessions_are_independent() {
    let mut state = AppState::new();
    chat(&mut state, "a", Some("one"), reply("ra"));
    chat(&mut state, "b", Some("two"), reply("rb"));
    assert_eq!(state.conversations.get_history(&"one".to_string()).len(), 2);
    assert_eq!(state.conversations.get_history(&"two".to_string()).len(), 2);
    assert!(state.conversations.get_history(&"three".to_string()).is_empty());
}

#[test]
fn first_reply_takes_first_part_of_first_candidate() {
    let resp = GeminiResponse {
        candidates: Some(vec![
            Candidate {
                content: Content {
                    parts: vec![Part { text: "x".to_string() }, Part { text: "y".to_string() }],
                    role: None,
                },
                finishReason: None,
            },
            Candidate {
                content: Content { parts: vec![Part { text: "z".to_string() }], role: None },
                finishReason: None,
            },
        ]),
    };
    assert_eq!(first_reply(&resp), Some("x".to_string()));
}
