use vstd::prelude::*;
use vstd::string::*;

use crate::json::{Json, Member, parse_u32, push_decimal, text_is, u32_of_text, lemma_u32_text_round_trip, lemma_lookup_first, lookup, decimal};

verus! {

/// Who speaks a turn of a conversation.
#[derive(Debug, Clone, Copy, PartialEq, Eq, Structural)]
pub enum Role {
    System,
    User,
    Assistant,
}

impl Role {
    /// The lower-case name of the role on the wire.
    pub open spec fn wire_name(self) -> Seq<char> {
        match self {
            Role::System => "system"@,
            Role::User => "user"@,
            Role::Assistant => "assistant"@,
        }
    }

    /// The lower-case name of the role on the wire.
    pub fn as_str(&self) -> (r: &'static str)
        ensures
            r@ == self.wire_name(),
    {
        match self {
            Role::System => "system",
            Role::User => "user",
            Role::Assistant => "assistant",
        }
    }
}

/// One turn of a conversation.
#[derive(Debug, Clone)]
pub struct Message {
    pub role: Role,
    pub content: String,
}

/// The backend models that the service offers.
#[derive(Debug, Clone, Copy, PartialEq, Eq, Structural)]
pub enum Model {
    DeepseekChat,
    DeepseekReasoner,
}

impl Model {
    /// The canonical hyphenated name of the model on the wire.
    pub open spec fn wire_name(self) -> Seq<char> {
        match self {
            Model::DeepseekChat => "deepseek-chat"@,
            Model::DeepseekReasoner => "deepseek-reasoner"@,
        }
    }

    pub fn as_str(&self) -> (r: &'static str)
        ensures
            r@ == self.wire_name(),
    {
        match self {
            Model::DeepseekChat => "deepseek-chat",
            Model::DeepseekReasoner => "deepseek-reasoner",
        }
    }
}


/// The role named by a JSON string.
pub open spec fn role_of_json(j: Json) -> Option<Role> {
    match j {
        Json::Str(s) => if s@ == "system"@ {
            Some(Role::System)
        } else if s@ == "user"@ {
            Some(Role::User)
        } else if s@ == "assistant"@ {
            Some(Role::Assistant)
        } else {
            None
        },
        _ => None,
    }
}

/// A non-negative integer that fits in a `u32`.
pub open spec fn u32_of_json(j: Json) -> Option<u32> {
    match j {
        Json::Number(t) => u32_of_text(t@),
        _ => None,
    }
}

/// An optional string member: absent and `null` both read as nothing.
pub open spec fn opt_string_of_json(j: Option<Json>) -> Option<Option<String>> {
    match j {
        None => Some(None),
        Some(Json::Null) => Some(None),
        Some(Json::Str(s)) => Some(Some(s)),
        _ => None,
    }
}

fn role_from_json(j: &Json) -> (r: Option<Role>)
    ensures
        r == role_of_json(*j),
{
    proof {
        reveal_strlit("system");
        reveal_strlit("user");
        reveal_strlit("assistant");
    }
    match j {
        Json::Str(s) => if text_is(s, "system") {
            Some(Role::System)
        } else if text_is(s, "user") {
            Some(Role::User)
        } else if text_is(s, "assistant") {
            Some(Role::Assistant)
        } else {
            None
        },
        _ => None,
    }
}

fn role_to_json(role: Role) -> (r: Json)
    ensures
        role_of_json(r) == Some(role),
{
    proof {
        reveal_strlit("system");
        reveal_strlit("user");
        reveal_strlit("assistant");
    }
    assert("system"@.len() == 6 && "user"@.len() == 4 && "assistant"@.len() == 9);
    Json::Str(String::from_str(role.as_str()))
}

fn u32_from_json(j: Option<&Json>) -> (r: Option<u32>)
    ensures
        r == match j {
            Some(v) => u32_of_json(*v),
            None => None::<u32>,
        },
{
    match j {
        Some(Json::Number(t)) => parse_u32(t),
        _ => None,
    }
}

fn u32_to_json(n: u32) -> (r: Json)
    ensures
        u32_of_json(r) == Some(n),
{
    let mut t = String::new();
    push_decimal(&mut t, n);
    proof {
        assert(t@ =~= decimal(n as nat));
        lemma_u32_text_round_trip(n);
    }
    Json::Number(t)
}

pub(crate) fn opt_string_from_json(j: Option<&Json>) -> (r: Option<Option<String>>)
    ensures
        r == opt_string_of_json(match j {
            Some(v) => Some(*v),
            None => None::<Json>,
        }),
{
    match j {
        None => Some(None),
        Some(Json::Null) => Some(None),
        Some(Json::Str(s)) => Some(Some(s.clone())),
        _ => None,
    }
}

fn opt_string_to_json(s: &Option<String>) -> (r: Json)
    ensures
        opt_string_of_json(Some(r)) == Some(*s),
{
    match s {
        Some(t) => Json::Str(t.clone()),
        None => Json::Null,
    }
}

/// Token counts that the service reports for one exchange.
#[derive(Debug, Clone, Copy, PartialEq, Eq, Structural)]
pub struct Usage {
    pub prompt_tokens: u32,
    pub completion_tokens: u32,
    pub total_tokens: u32,
}

impl Usage {
    /// An object with the three counts; other members are ignored.
    pub open spec fn of_json(j: Json) -> Option<Usage> {
        match (
            j.field("prompt_tokens"@),
            j.field("completion_tokens"@),
            j.field("total_tokens"@),
        ) {
            (Some(p), Some(c), Some(t)) => match (u32_of_json(p), u32_of_json(c), u32_of_json(t)) {
                (Some(p), Some(c), Some(t)) => Some(
                    Usage { prompt_tokens: p, completion_tokens: c, total_tokens: t },
                ),
                _ => None,
            },
            _ => None,
        }
    }

    pub fn from_json(j: &Json) -> (r: Option<Usage>)
        ensures
            r == Usage::of_json(*j),
    {
        let p = u32_from_json(j.get("prompt_tokens"));
        let c = u32_from_json(j.get("completion_tokens"));
        let t = u32_from_json(j.get("total_tokens"));
        match (p, c, t) {
            (Some(p), Some(c), Some(t)) => Some(
                Usage { prompt_tokens: p, completion_tokens: c, total_tokens: t },
            ),
            _ => None,
        }
    }

    /// The usage as a JSON object with its three counts.
    pub fn to_json(&self) -> (r: Json)
        ensures
            Usage::of_json(r) == Some(*self),
    {
        let members = vec![
            Member { key: String::from_str("prompt_tokens"), value: u32_to_json(self.prompt_tokens) },
            Member { key: String::from_str("completion_tokens"), value: u32_to_json(self.completion_tokens) },
            Member { key: String::from_str("total_tokens"), value: u32_to_json(self.total_tokens) },
        ];
        proof {
            reveal_strlit("prompt_tokens");
            reveal_strlit("completion_tokens");
            reveal_strlit("total_tokens");
            let m = members@;
            lemma_lookup_first(m, 0, "prompt_tokens"@);
            assert(m[0].key@.len() != "completion_tokens"@.len());
            lemma_lookup_first(m, 1, "completion_tokens"@);
            assert(m[0].key@.len() != "total_tokens"@.len());
            assert(m[1].key@.len() != "total_tokens"@.len());
            lemma_lookup_first(m, 2, "total_tokens"@);
        }
        Json::Object(members)
    }
}

/// The message of one choice; the content may be absent.
#[derive(Debug, Clone, PartialEq)]
pub struct MessageOut {
    pub role: Role,
    pub content: Option<String>,
}

impl MessageOut {
    /// An object with a `role` and an optional `content`.
    pub open spec fn of_json(j: Json) -> Option<MessageOut> {
        match j.field("role"@) {
            Some(rj) => match (role_of_json(rj), opt_string_of_json(j.field("content"@))) {
                (Some(role), Some(content)) => Some(MessageOut { role, content }),
                _ => None,
            },
            None => None,
        }
    }

    pub fn from_json(j: &Json) -> (r: Option<MessageOut>)
        ensures
            r == MessageOut::of_json(*j),
    {
        let role = match j.get("role") {
            Some(rj) => role_from_json(rj),
            None => None,
        };
        let content = opt_string_from_json(j.get("content"));
        match (role, content) {
            (Some(role), Some(content)) => Some(MessageOut { role, content }),
            _ => None,
        }
    }

    /// The message as a JSON object; absent content is written as `null`.
    pub fn to_json(&self) -> (r: Json)
        ensures
            MessageOut::of_json(r) == Some(*self),
    {
        let members = vec![
            Member { key: String::from_str("role"), value: role_to_json(self.role) },
            Member { key: String::from_str("content"), value: opt_string_to_json(&self.content) },
        ];
        proof {
            reveal_strlit("role");
            reveal_strlit("content");
            let m = members@;
            lemma_lookup_first(m, 0, "role"@);
            assert(m[0].key@.len() != "content"@.len());
            lemma_lookup_first(m, 1, "content"@);
        }
        Json::Object(members)
    }
}

/// One alternative answer of a response.
#[derive(Debug, Clone, PartialEq)]
pub struct Choice {
    pub index: u32,
    pub message: MessageOut,
}

impl Choice {
    /// An object with an `index` and a `message`.
    pub open spec fn of_json(j: Json) -> Option<Choice> {
        match (j.field("index"@), j.field("message"@)) {
            (Some(ij), Some(mj)) => match (u32_of_json(ij), MessageOut::of_json(mj)) {
                (Some(index), Some(message)) => Some(Choice { index, message }),
                _ => None,
            },
            _ => None,
        }
    }

    pub fn from_json(j: &Json) -> (r: Option<Choice>)
        ensures
            r == Choice::of_json(*j),
    {
        let index = u32_from_json(j.get("index"));
        let message = match j.get("message") {
            Some(mj) => MessageOut::from_json(mj),
            None => None,
        };
        match (index, message) {
            (Some(index), Some(message)) => Some(Choice { index, message }),
            _ => None,
        }
    }

    pub fn to_json(&self) -> (r: Json)
        ensures
            Choice::of_json(r) == Some(*self),
    {
        let members = vec![
            Member { key: String::from_str("index"), value: u32_to_json(self.index) },
            Member { key: String::from_str("message"), value: self.message.to_json() },
        ];
        proof {
            reveal_strlit("index");
            reveal_strlit("message");
            let m = members@;
            lemma_lookup_first(m, 0, "index"@);
            assert(m[0].key@.len() != "message"@.len());
            lemma_lookup_first(m, 1, "message"@);
        }
        Json::Object(members)
    }
}

/// The optional `usage` member: absent and `null` both read as no usage.
pub open spec fn opt_usage_of_json(j: Option<Json>) -> Option<Option<Usage>> {
    match j {
        None => Some(None),
        Some(Json::Null) => Some(None),
        Some(u) => match Usage::of_json(u) {
            Some(u) => Some(Some(u)),
            None => None,
        },
    }
}

/// Whether every item of a JSON array reads as a choice.
pub open spec fn choices_ok(items: Seq<Json>) -> bool {
    forall|i: int| 0 <= i < items.len() ==> (#[trigger] Choice::of_json(items[i])) is Some
}

/// The choices that the items of a JSON array read as, in their order.
pub open spec fn choices_of(items: Seq<Json>) -> Seq<Choice> {
    Seq::new(items.len(), |i: int| Choice::of_json(items[i])->0)
}

/// A complete answer of the service.
#[derive(Debug, Clone, PartialEq)]
pub struct ChatCompletionResponse {
    pub id: String,
    pub choices: Vec<Choice>,
    pub usage: Option<Usage>,
}

impl View for ChatCompletionResponse {
    type V = (String, Seq<Choice>, Option<Usage>);

    open spec fn view(&self) -> (String, Seq<Choice>, Option<Usage>) {
        (self.id, self.choices@, self.usage)
    }
}

impl ChatCompletionResponse {
    /// An object with a string `id`, an array of `choices` and an optional
    /// `usage`; other members are ignored.
    pub open spec fn of_json(j: Json) -> Option<(String, Seq<Choice>, Option<Usage>)> {
        match (j.field("id"@), j.field("choices"@), opt_usage_of_json(j.field("usage"@))) {
            (Some(Json::Str(id)), Some(Json::Array(items)), Some(usage)) => if choices_ok(items@) {
                Some((id, choices_of(items@), usage))
            } else {
                None
            },
            _ => None,
        }
    }

    pub fn from_json(j: &Json) -> (r: Option<ChatCompletionResponse>)
        ensures
            match r {
                Some(resp) => ChatCompletionResponse::of_json(*j) == Some(resp@),
                None => ChatCompletionResponse::of_json(*j) is None,
            },
    {
        let id = match j.get("id") {
            Some(Json::Str(id)) => id.clone(),
            _ => return None,
        };
        let items = match j.get("choices") {
            Some(Json::Array(items)) => items,
            _ => return None,
        };
        let usage = match j.get("usage") {
            None => None,
            Some(Json::Null) => None,
            Some(u) => match Usage::from_json(u) {
                Some(u) => Some(u),
                None => return None,
            },
        };
        let mut choices: Vec<Choice> = Vec::new();
        let mut i: usize = 0;
        while i < items.len()
            invariant
                i <= items@.len(),
                choices@.len() == i,
                forall|k: int| 0 <= k < i ==> (#[trigger] Choice::of_json(items@[k])) == Some(choices@[k]),
                j.field("choices"@) == Some(Json::Array(*items)),
            decreases items.len() - i,
        {
            match Choice::from_json(&items[i]) {
                Some(c) => choices.push(c),
                None => {
                    assert(!choices_ok(items@));
                    return None;
                },
            }
            i = i + 1;
        }
        assert(choices@ =~= choices_of(items@));
        Some(ChatCompletionResponse { id, choices, usage })
    }

    /// The response as a JSON object; no usage leaves the member out.
    pub fn to_json(&self) -> (r: Json)
        ensures
            ChatCompletionResponse::of_json(r) == Some(self@),
    {
        let mut items: Vec<Json> = Vec::new();
        let mut i: usize = 0;
        while i < self.choices.len()
            invariant
                i <= self.choices@.len(),
                items@.len() == i,
                forall|k: int| 0 <= k < i ==> (#[trigger] Choice::of_json(items@[k])) == Some(self.choices@[k]),
            decreases self.choices.len() - i,
        {
            items.push(self.choices[i].to_json());
            i = i + 1;
        }
        let ghost item_seq = items@;
        let mut members = vec![
            Member { key: String::from_str("id"), value: Json::Str(self.id.clone()) },
            Member { key: String::from_str("choices"), value: Json::Array(items) },
        ];
        match &self.usage {
            Some(u) => members.push(Member { key: String::from_str("usage"), value: u.to_json() }),
            None => {},
        }
        proof {
            reveal_strlit("id");
            reveal_strlit("choices");
            reveal_strlit("usage");
            let m = members@;
            lemma_lookup_first(m, 0, "id"@);
            assert(m[0].key@.len() != "choices"@.len());
            lemma_lookup_first(m, 1, "choices"@);
            assert(m[0].key@.len() != "usage"@.len());
            assert(m[1].key@.len() != "usage"@.len());
            if self.usage is Some {
                lemma_lookup_first(m, 2, "usage"@);
            } else {
                assert(m.drop_first().drop_first() =~= Seq::<Member>::empty());
                assert(lookup(m, "usage"@) == lookup(m.drop_first(), "usage"@));
                assert(lookup(m.drop_first(), "usage"@) == lookup(m.drop_first().drop_first(), "usage"@));
            }
            assert(choices_ok(item_seq));
            assert(choices_of(item_seq) =~= self.choices@);
        }
        Json::Object(members)
    }
}

} // verus!
