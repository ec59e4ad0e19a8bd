use vstd::prelude::*;

verus! {

/// A message from a caller, with the session it continues, if any.
#[derive(Debug)]
pub struct ChatRequest {
    pub message: String,
    pub session_id: Option<String>,
}

/// The reply handed back to a caller, with the session it belongs to.
#[derive(Debug)]
pub struct ChatResponse {
    pub response: String,
    pub session_id: String,
}

/// The prompt sent to the generative-language service.
#[derive(Debug)]
pub struct GeminiRequest {
    pub contents: Vec<Content>,
}

/// One turn of a conversation: a role and its text parts.
#[derive(Debug, Clone)]
pub struct Content {
    pub parts: Vec<Part>,
    pub role: Option<String>,
}

/// One piece of text of a turn.
#[derive(Debug, Clone)]
pub struct Part {
    pub text: String,
}

/// What the generative-language service returns on success.
#[derive(Debug, Clone)]
pub struct GeminiResponse {
    pub candidates: Option<Vec<Candidate>>,
}

/// One proposed reply of the service.
#[allow(non_snake_case)]
#[derive(Debug, Clone)]
pub struct Candidate {
    pub content: Content,
    pub finishReason: Option<String>,
}

/// The mathematical value of a turn: its role and the text of each part.
pub struct TurnView {
    pub role: Option<Seq<char>>,
    pub texts: Seq<Seq<char>>,
}

impl View for Part {
    type V = Seq<char>;

    open spec fn view(&self) -> Seq<char> {
        self.text@
    }
}

pub open spec fn role_view(role: Option<String>) -> Option<Seq<char>> {
    match role {
        Some(r) => Some(r@),
        None => None,
    }
}

impl View for Content {
    type V = TurnView;

    open spec fn view(&self) -> TurnView {
        TurnView { role: role_view(self.role), texts: self.parts@.map_values(|p: Part| p@) }
    }
}

/// The view of a sequence of turns.
pub open spec fn turns_view(s: Seq<Content>) -> Seq<TurnView> {
    s.map_values(|c: Content| c@)
}

pub open spec fn user_role() -> Seq<char> {
    seq!['u', 's', 'e', 'r']
}

pub open spec fn model_role() -> Seq<char> {
    seq!['m', 'o', 'd', 'e', 'l']
}

/// A turn with the given role and a single part holding `text`.
pub open spec fn single_turn(role: Seq<char>, text: Seq<char>) -> TurnView {
    TurnView { role: Some(role), texts: seq![text] }
}

pub open spec fn user_turn(text: Seq<char>) -> TurnView {
    single_turn(user_role(), text)
}

pub open spec fn model_turn(text: Seq<char>) -> TurnView {
    single_turn(model_role(), text)
}

impl Part {
    /// A copy of this part.
    pub fn duplicate(&self) -> (r: Part)
        ensures
            r@ == self@,
    {
        Part { text: self.text.clone() }
    }
}

/// A copy of an optional role.
pub fn copy_role(role: &Option<String>) -> (r: Option<String>)
    ensures
        role_view(r) == role_view(*role),
{
    match role {
        Some(s) => Some(s.clone()),
        None => None,
    }
}

impl Content {
    /// A turn with the given role and one part holding `text`.
    pub fn single(role: &str, text: String) -> (r: Content)
        ensures
            r@ == single_turn(role@, text@),
    {
        let mut parts: Vec<Part> = Vec::new();
        parts.push(Part { text });
        let r = Content { parts, role: Some(String::from_str(role)) };
        assert(r@.texts =~= seq![text@]);
        r
    }

    /// A copy of this turn.
    pub fn duplicate(&self) -> (r: Content)
        ensures
            r@ == self@,
    {
        let mut parts: Vec<Part> = Vec::new();
        let mut i: usize = 0;
        while i < self.parts.len()
            invariant
                i <= self.parts@.len(),
                parts@.len() == i,
                forall|j: int| 0 <= j < i ==> #[trigger] parts@[j]@ == self.parts@[j]@,
            decreases self.parts@.len() - i,
        {
            parts.push(self.parts[i].duplicate());
            i = i + 1;
        }
        let r = Content { parts, role: copy_role(&self.role) };
        assert(r@.texts =~= self@.texts);
        r
    }
}

/// A copy of a sequence of turns.
pub fn copy_turns(turns: &Vec<Content>) -> (r: Vec<Content>)
    ensures
        turns_view(r@) == turns_view(turns@),
{
    let mut out: Vec<Content> = Vec::new();
    let mut i: usize = 0;
    while i < turns.len()
        invariant
            i <= turns@.len(),
            out@.len() == i,
            forall|j: int| 0 <= j < i ==> #[trigger] out@[j]@ == turns@[j]@,
        decreases turns@.len() - i,
    {
        out.push(turns[i].duplicate());
        i = i + 1;
    }
    assert(turns_view(out@) =~= turns_view(turns@));
    out
}

} // verus!
