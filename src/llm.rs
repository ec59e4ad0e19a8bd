use vstd::prelude::*;
use crate::models::{
    ChatRequest, ChatResponse, Content, GeminiRequest, GeminiResponse, Part, TurnView,
    turns_view, user_turn, copy_turns,
};
use crate::state::{AppState, history_of, with_exchange};

verus! {

/// The fixed guidance placed before the first turn of every outbound prompt.
pub const SYSTEM_PROMPT: &'static str = "You are a helpful and concise assistant. Please format your response using Markdown. Use paragraphs and lists where appropriate to ensure readability.";

/// `p` occurs in `s` as a contiguous run of characters.
pub open spec fn is_substring(s: Seq<char>, p: Seq<char>) -> bool {
    exists|i: int| 0 <= i && i + p.len() <= s.len() && #[trigger] s.subrange(i, i + p.len()) == p
}

/// The first turn's first text with the system instruction and a blank line before
/// it, unless it holds the instruction already.
pub open spec fn splice_instruction(s: Seq<TurnView>) -> Seq<TurnView> {
    if s.len() > 0 && s[0].texts.len() > 0 && !is_substring(s[0].texts[0], SYSTEM_PROMPT@) {
        s.update(0, TurnView {
            role: s[0].role,
            texts: s[0].texts.update(0, SYSTEM_PROMPT@ + seq!['\n', '\n'] + s[0].texts[0]),
        })
    } else {
        s
    }
}

/// The prompt sent for `message` in a session whose stored history is `h`.
pub open spec fn outbound_of(h: Seq<TurnView>, message: Seq<char>) -> Seq<TurnView> {
    splice_instruction(h.push(user_turn(message)))
}

/// Relies on `str::contains`: true exactly when `pattern` occurs in `text`.
#[verifier::external_body]
fn text_contains(text: &str, pattern: &str) -> (r: bool)
    ensures
        r == is_substring(text@, pattern@),
{
    text.contains(pattern)
}

/// Relies on `uuid::Uuid::new_v4` and its `Display`, which writes the 36-character
/// hyphenated form.
#[verifier::external_body]
fn new_session_id() -> (r: String)
    ensures
        r@.len() == 36,
{
    uuid::Uuid::new_v4().to_string()
}

/// The session a request belongs to: the one it names when that is non-empty,
/// else a freshly minted identifier.
pub fn resolve_session_id(requested: Option<String>) -> (r: String)
    ensures
        r@.len() > 0,
        match requested {
            Some(s) => s@.len() > 0 ==> r@ == s@,
            None => true,
        },
        (requested is None || requested->0@.len() == 0) ==> r@.len() == 36,
{
    match requested {
        Some(s) => {
            if s.as_str().unicode_len() > 0 {
                s
            } else {
                new_session_id()
            }
        },
        None => new_session_id(),
    }
}

/// The outbound prompt: the stored history, then a user turn holding `message`, with
/// the system instruction spliced into the first turn. `history` is not changed.
pub fn build_outbound(history: &Vec<Content>, message: &String) -> (r: Vec<Content>)
    ensures
        turns_view(r@) == outbound_of(turns_view(history@), message@),
{
    let mut contents = copy_turns(history);
    let ghost before = turns_view(contents@);
    let user = Content::single("user", message.clone());
    proof {
        reveal_strlit("user");
        assert("user"@ =~= crate::models::user_role());
    }
    contents.push(user);
    let ghost pushed = turns_view(contents@);
    assert(pushed =~= before.push(user_turn(message@)));
    if contents[0].parts.len() > 0 {
        let spliced = !text_contains(contents[0].parts[0].text.as_str(), SYSTEM_PROMPT);
        if spliced {
            let mut first = contents.remove(0);
            let old_part = first.parts.remove(0);
            let ghost old_text = old_part.text@;
            let mut text = String::from_str(SYSTEM_PROMPT);
            text.append("\n\n");
            text.append(old_part.text.as_str());
            proof {
                reveal_strlit("\n\n");
                assert("\n\n"@ =~= seq!['\n', '\n']);
            }
            let ghost rest = first.parts@;
            first.parts.insert(0, Part { text });
            assert(first.parts@.map_values(|p: Part| p@) =~= pushed[0].texts.update(
                0, SYSTEM_PROMPT@ + seq!['\n', '\n'] + old_text));
            contents.insert(0, first);
            assert(turns_view(contents@) =~= splice_instruction(pushed));
        }
    }
    contents
}

/// A chat whose prompt is ready and whose upstream reply is awaited.
pub struct PendingChat {
    pub session_id: String,
    pub message: String,
    pub request: GeminiRequest,
}

/// The first step of a chat: resolves the session and builds the prompt from the
/// session's stored history. The store is only read.
pub fn begin_chat(state: &AppState, req: ChatRequest) -> (r: PendingChat)
    requires
        state.conversations.wf(),
    ensures
        r.message@ == req.message@,
        r.session_id@.len() > 0,
        match req.session_id {
            Some(s) => s@.len() > 0 ==> r.session_id@ == s@,
            None => true,
        },
        (req.session_id is None || req.session_id->0@.len() == 0) ==> r.session_id@.len() == 36,
        turns_view(r.request.contents@) == outbound_of(
            history_of(state.conversations.view(), r.session_id@),
            req.message@,
        ),
{
    let session_id = resolve_session_id(req.session_id);
    let history = state.conversations.get_history(&session_id);
    let contents = build_outbound(&history, &req.message);
    PendingChat { session_id, message: req.message, request: GeminiRequest { contents } }
}

/// How the call to the generative-language service ended.
pub enum UpstreamOutcome {
    /// The request could not be sent or no answer came; the text describes why.
    RequestFailed(String),
    /// The service answered with a status other than success: its status line and body.
    ApiError(String, String),
    /// The service answered with success, but its body could not be read; the text
    /// describes why.
    ParseFailed(String),
    /// The service answered with success and this body.
    Parsed(GeminiResponse),
}

/// The reply that a response carries: the first part of the first candidate.
pub open spec fn reply_of_response(resp: GeminiResponse) -> Option<Seq<char>> {
    match resp.candidates {
        Some(c) => if c@.len() > 0 && c@[0].content.parts@.len() > 0 {
            Some(c@[0].content.parts@[0].text@)
        } else {
            None
        },
        None => None,
    }
}

/// The reply text an outcome delivers, if it delivers one.
pub open spec fn reply_of_outcome(outcome: UpstreamOutcome) -> Option<Seq<char>> {
    match outcome {
        UpstreamOutcome::Parsed(resp) => reply_of_response(resp),
        _ => None,
    }
}

/// The text a caller receives for an outcome.
pub open spec fn response_text(outcome: UpstreamOutcome) -> Seq<char> {
    match outcome {
        UpstreamOutcome::RequestFailed(e) => "Request failed: "@ + e@,
        UpstreamOutcome::ApiError(status, body) => "API Error: "@ + status@ + " - Body: "@ + body@,
        UpstreamOutcome::ParseFailed(e) => "Failed to parse response: "@ + e@,
        UpstreamOutcome::Parsed(resp) => match reply_of_response(resp) {
            Some(t) => t,
            None => "No content generated"@,
        },
    }
}

/// The store's view after a chat on `session_id` for `message` ended with `outcome`:
/// the exchange is appended only when a reply was delivered.
pub open spec fn store_after_chat(
    m: Map<Seq<char>, Seq<TurnView>>,
    session_id: Seq<char>,
    message: Seq<char>,
    outcome: UpstreamOutcome,
) -> Map<Seq<char>, Seq<TurnView>> {
    match reply_of_outcome(outcome) {
        Some(t) => m.insert(session_id, with_exchange(history_of(m, session_id), message, t)),
        None => m,
    }
}

/// The reply text of a response, if it has one.
pub fn first_reply(resp: &GeminiResponse) -> (r: Option<String>)
    ensures
        match r {
            Some(t) => reply_of_response(*resp) == Some(t@),
            None => reply_of_response(*resp) is None,
        },
{
    match &resp.candidates {
        Some(c) => {
            if c.len() > 0 && c[0].content.parts.len() > 0 {
                Some(c[0].content.parts[0].text.clone())
            } else {
                None
            }
        },
        None => None,
    }
}

/// The text a caller receives for an outcome that delivered no reply.
pub fn describe_failure(outcome: &UpstreamOutcome) -> (r: String)
    requires
        reply_of_outcome(*outcome) is None,
    ensures
        r@ == response_text(*outcome),
{
    match outcome {
        UpstreamOutcome::RequestFailed(e) => {
            let mut r = String::from_str("Request failed: ");
            r.append(e.as_str());
            r
        },
        UpstreamOutcome::ApiError(status, body) => {
            let mut r = String::from_str("API Error: ");
            r.append(status.as_str());
            r.append(" - Body: ");
            r.append(body.as_str());
            r
        },
        UpstreamOutcome::ParseFailed(e) => {
            let mut r = String::from_str("Failed to parse response: ");
            r.append(e.as_str());
            r
        },
        UpstreamOutcome::Parsed(_) => String::from_str("No content generated"),
    }
}

/// The last step of a chat: turns the outcome into the caller's reply and, only when
/// a reply was delivered, appends the raw message and that reply to the session's
/// history as one exchange. The session identifier is handed back in every case.
pub fn finish_chat(state: &mut AppState, pending: PendingChat, outcome: UpstreamOutcome) -> (r: ChatResponse)
    requires
        old(state).conversations.wf(),
    ensures
        final(state).conversations.wf(),
        r.session_id@ == pending.session_id@,
        r.response@ == response_text(outcome),
        final(state).conversations.view() == store_after_chat(
            old(state).conversations.view(),
            pending.session_id@,
            pending.message@,
            outcome,
        ),
{
    let reply = match &outcome {
        UpstreamOutcome::Parsed(resp) => first_reply(resp),
        _ => None,
    };
    match reply {
        Some(text) => {
            state.conversations.append_exchange(&pending.session_id, pending.message, text.clone());
            ChatResponse { response: text, session_id: pending.session_id }
        },
        None => {
            let response = describe_failure(&outcome);
            ChatResponse { response, session_id: pending.session_id }
        },
    }
}

/// A turn added by a chat holds one text, and that text is one of the raw messages or
/// replies of the chats.
pub open spec fn holds_raw_text(t: TurnView, texts: Set<Seq<char>>) -> bool {
    t.texts.len() == 1 && texts.contains(t.texts[0])
}

/// The raw texts of two chats: their messages and the replies they delivered.
pub open spec fn raw_texts(
    message1: Seq<char>,
    outcome1: UpstreamOutcome,
    message2: Seq<char>,
    outcome2: UpstreamOutcome,
) -> Set<Seq<char>> {
    let s = set![message1, message2];
    let s = match reply_of_outcome(outcome1) { Some(t) => s.insert(t), None => s };
    match reply_of_outcome(outcome2) { Some(t) => s.insert(t), None => s }
}

/// Two chats in sequence on one session never store the system instruction: the
/// earlier history is kept, and each turn they add holds a raw message or reply as it
/// was, so the instruction text is stored only where a message or reply was exactly it.
pub proof fn lemma_instruction_never_stored(
    m: Map<Seq<char>, Seq<TurnView>>,
    id: Seq<char>,
    message1: Seq<char>,
    outcome1: UpstreamOutcome,
    message2: Seq<char>,
    outcome2: UpstreamOutcome,
)
    ensures
        ({
            let h0 = history_of(m, id);
            let h2 = history_of(
                store_after_chat(store_after_chat(m, id, message1, outcome1), id, message2, outcome2),
                id,
            );
            let texts = raw_texts(message1, outcome1, message2, outcome2);
            &&& h2.len() >= h0.len()
            &&& h2.subrange(0, h0.len() as int) == h0
            &&& forall|k: int| h0.len() <= k < h2.len() ==> holds_raw_text(#[trigger] h2[k], texts)
            &&& !texts.contains(SYSTEM_PROMPT@) ==> forall|k: int| h0.len() <= k < h2.len()
                ==> (#[trigger] h2[k]).texts[0] != SYSTEM_PROMPT@
        }),
{
    let h0 = history_of(m, id);
    let texts = raw_texts(message1, outcome1, message2, outcome2);
    let m1 = store_after_chat(m, id, message1, outcome1);
    let h1 = history_of(m1, id);
    let h2 = history_of(store_after_chat(m1, id, message2, outcome2), id);
    assert(texts.contains(message1));
    assert(texts.contains(message2));
    assert(h1.len() >= h0.len() && h1.subrange(0, h0.len() as int) =~= h0
        && forall|k: int| h0.len() <= k < h1.len() ==> holds_raw_text(#[trigger] h1[k], texts)) by {
        if let Some(t) = reply_of_outcome(outcome1) {
            assert(texts.contains(t));
        }
    }
    assert(h2.len() >= h1.len() && h2.subrange(0, h1.len() as int) =~= h1
        && forall|k: int| h1.len() <= k < h2.len() ==> holds_raw_text(#[trigger] h2[k], texts)) by {
        if let Some(t) = reply_of_outcome(outcome2) {
            assert(texts.contains(t));
        }
    }
    assert(h2.subrange(0, h0.len() as int) =~= h0) by {
        assert forall|k: int| 0 <= k < h0.len() implies h2[k] == h0[k] by {
            assert(h2.subrange(0, h1.len() as int)[k] == h1[k]);
            assert(h1.subrange(0, h0.len() as int)[k] == h0[k]);
        }
    }
    assert forall|k: int| h0.len() <= k < h2.len() implies holds_raw_text(#[trigger] h2[k], texts) by {
        if k < h1.len() {
            assert(h2.subrange(0, h1.len() as int)[k] == h1[k]);
        }
    }
}

/// A chat that delivers a reply continues its session: the session's history becomes
/// the earlier one with the raw message and the reply appended, so a later chat that
/// names the same session builds its prompt from it.
pub proof fn lemma_session_continues(
    m: Map<Seq<char>, Seq<TurnView>>,
    id: Seq<char>,
    message: Seq<char>,
    outcome: UpstreamOutcome,
    next_message: Seq<char>,
)
    requires
        reply_of_outcome(outcome) is Some,
    ensures
        history_of(store_after_chat(m, id, message, outcome), id) == with_exchange(
            history_of(m, id),
            message,
            reply_of_outcome(outcome)->0,
        ),
        outbound_of(history_of(store_after_chat(m, id, message, outcome), id), next_message).len()
            == history_of(m, id).len() + 3,
{
}

/// A chat that delivers no reply (the request failed, an error status, an unreadable
/// body, or no candidate) leaves every session's history as it was.
pub proof fn lemma_failure_leaves_store(
    m: Map<Seq<char>, Seq<TurnView>>,
    id: Seq<char>,
    message: Seq<char>,
    outcome: UpstreamOutcome,
)
    requires
        reply_of_outcome(outcome) is None,
    ensures
        forall|k: Seq<char>| #[trigger] history_of(store_after_chat(m, id, message, outcome), k)
            == history_of(m, k),
{
}

} // verus!
