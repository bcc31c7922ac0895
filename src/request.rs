use vstd::prelude::*;
use vstd::string::*;

use crate::json::{decimal, digit_char, is_digit, push_decimal};
use crate::models::{Message, Model, Role};

verus! {

/// The lower-case hexadecimal digit of `d` (below 16).
pub open spec fn hex_digit(d: int) -> char {
    if d < 10 {
        digit_char(d)
    } else {
        ((d - 10 + 'a' as int) as u32) as char
    }
}

/// How one character stands inside a JSON string: a quote and a backslash
/// get a backslash, five controls their short forms, the other controls
/// `\u00` and two hex digits; everything else stands as it is.
pub open spec fn escaped_char(c: char) -> Seq<char> {
    if c == '"' {
        seq!['\\', '"']
    } else if c == '\\' {
        seq!['\\', '\\']
    } else if c == '\u{8}' {
        seq!['\\', 'b']
    } else if c == '\u{c}' {
        seq!['\\', 'f']
    } else if c == '\n' {
        seq!['\\', 'n']
    } else if c == '\r' {
        seq!['\\', 'r']
    } else if c == '\t' {
        seq!['\\', 't']
    } else if (c as u32) < 0x20 {
        seq!['\\', 'u', '0', '0', hex_digit((c as u32) as int / 16), hex_digit((c as u32) as int % 16)]
    } else {
        seq![c]
    }
}

/// The characters of a string, each escaped.
pub open spec fn escaped(s: Seq<char>) -> Seq<char>
    decreases s.len(),
{
    if s.len() == 0 {
        Seq::empty()
    } else {
        escaped(s.drop_last()) + escaped_char(s.last())
    }
}

/// The JSON text of a string: quoted, with the characters that JSON
/// requires escaped.
pub open spec fn json_string(s: Seq<char>) -> Seq<char> {
    "\""@ + escaped(s) + "\""@
}

/// Relies on serde_json's compact printing of a `Value::String`
/// (`format_escaped_str` with its escape table): the quoted text of the
/// string with the escapes that `escaped_char` lists.
#[verifier::external_body]
fn quote_json(s: &str) -> (r: String)
    ensures
        r@ == json_string(s@),
{
    serde_json::Value::String(s.to_string()).to_string()
}

/// Whether a text is a number in plain decimal notation: an optional minus
/// sign, digits with no superfluous leading zero, and optionally a point
/// followed by digits (`0.7`, `-1`, `0.1234`, `12.50`).
pub open spec fn plain_number(s: Seq<char>) -> bool {
    plain_unsigned(unsigned_part(s))
}

/// The text without its minus sign, if it has one.
pub open spec fn unsigned_part(s: Seq<char>) -> Seq<char> {
    if s.len() > 0 && s[0] == '-' {
        s.drop_first()
    } else {
        s
    }
}

/// Digits with at most one point, neither first nor last, and no
/// superfluous leading zero.
pub open spec fn plain_unsigned(b: Seq<char>) -> bool {
    &&& b.len() > 0
    &&& forall|i: int| 0 <= i < b.len() ==> is_digit(#[trigger] b[i]) || b[i] == '.'
    &&& forall|i: int, j: int|
        #![trigger b[i], b[j]]
        0 <= i < b.len() && 0 <= j < b.len() && b[i] == '.' && b[j] == '.' ==> i == j
    &&& is_digit(b[0])
    &&& is_digit(b.last())
    &&& (b[0] == '0' ==> b.len() == 1 || b[1] == '.')
}

/// A sampling temperature, held as the decimal text that is sent for it.
/// Any number is taken as given: the service decides which it accepts.
#[derive(Debug, Clone, PartialEq)]
pub struct Temperature {
    text: String,
}

impl Temperature {
    /// The text of the temperature on the wire.
    pub closed spec fn wire_text(self) -> Seq<char> {
        self.text@
    }

    pub open spec fn wf(self) -> bool {
        plain_number(self.wire_text())
    }

    /// The temperature written by `text`, which must be a number in plain
    /// decimal notation.
    pub fn from_text(text: &str) -> (r: Option<Temperature>)
        ensures
            r is Some <==> plain_number(text@),
            r is Some ==> r->0.wire_text() == text@ && r->0.wf(),
    {
        let n = text.unicode_len();
        let start: usize = if n > 0 && text.get_char(0) == '-' {
            1
        } else {
            0
        };
        let ghost s = text@;
        let ghost b = unsigned_part(s);
        assert(b =~= s.skip(start as int));
        if start >= n {
            return None;
        }
        let mut dot: Option<usize> = None;
        let mut i: usize = start;
        while i < n
            invariant
                n == s.len(),
                s == text@,
                b == s.skip(start as int),
                b == unsigned_part(s),
                start < n,
                start <= i <= n,
                forall|k: int| 0 <= k < i - start ==> is_digit(#[trigger] b[k]) || b[k] == '.',
                dot is None ==> forall|k: int| 0 <= k < i - start ==> #[trigger] b[k] != '.',
                dot is Some ==> start <= dot->0 < i && b[dot->0 - start] == '.' && forall|k: int|
                    0 <= k < i - start && #[trigger] b[k] == '.' ==> k == dot->0 - start,
            decreases n - i,
        {
            let c = text.get_char(i);
            assert(b[i - start] == c);
            if c == '.' {
                if dot.is_some() {
                    let ghost d = dot->0 - start;
                    assert(b[d] == '.' && b[i - start] == '.' && d != i - start);
                    assert(!plain_unsigned(b));
                    return None;
                }
                dot = Some(i);
            } else if !('0' <= c && c <= '9') {
                assert(!is_digit(b[i - start]) && b[i - start] != '.');
                assert(!plain_unsigned(b));
                return None;
            }
            i = i + 1;
        }
        let first = text.get_char(start);
        let last = text.get_char(n - 1);
        assert(b[0] == first && b.last() == last);
        if !('0' <= first && first <= '9') || !('0' <= last && last <= '9') {
            return None;
        }
        if first == '0' && n - start > 1 {
            let second = text.get_char(start + 1);
            assert(b[1] == second);
            if second != '.' {
                return None;
            }
        }
        assert(plain_unsigned(b));
        Some(Temperature { text: String::from_str(text) })
    }

    /// The text of the temperature on the wire.
    pub fn as_str(&self) -> (r: &str)
        ensures
            r@ == self.wire_text(),
    {
        self.text.as_str()
    }
}

/// Texts separated by commas.
pub open spec fn joined(items: Seq<Seq<char>>) -> Seq<char>
    decreases items.len(),
{
    if items.len() == 0 {
        Seq::empty()
    } else if items.len() == 1 {
        items[0]
    } else {
        joined(items.drop_last()) + ","@ + items.last()
    }
}

/// A name or value that needs no escaping, in quotes.
pub open spec fn quoted(s: Seq<char>) -> Seq<char> {
    "\""@ + s + "\""@
}

/// The text of a JSON object with the given members, each a name and the
/// text of its value, in that order.
pub open spec fn object_text(fields: Seq<(Seq<char>, Seq<char>)>) -> Seq<char> {
    "{"@ + joined(fields.map_values(|f: (Seq<char>, Seq<char>)| quoted(f.0) + ":"@ + f.1)) + "}"@
}

/// The wire object of one message.
pub open spec fn message_text(m: Message) -> Seq<char> {
    object_text(seq![("role"@, quoted(m.role.wire_name())), ("content"@, json_string(m.content@))])
}

/// The wire array of a conversation, in its order.
pub open spec fn messages_text(ms: Seq<Message>) -> Seq<char> {
    "["@ + joined(ms.map_values(|m: Message| message_text(m))) + "]"@
}

pub open spec fn bool_text(b: bool) -> Seq<char> {
    if b {
        "true"@
    } else {
        "false"@
    }
}

/// The texts of a sequence of strings.
pub open spec fn texts_view(items: Seq<String>) -> Seq<Seq<char>> {
    items.map_values(|s: String| s@)
}

/// Appends texts separated by commas.
fn push_joined(out: &mut String, items: &Vec<String>)
    ensures
        final(out)@ == old(out)@ + joined(texts_view(items@)),
{
    let ghost start = out@;
    let mut i: usize = 0;
    while i < items.len()
        invariant
            i <= items@.len(),
            out@ == start + joined(texts_view(items@.take(i as int))),
        decreases items.len() - i,
    {
        proof {
            reveal_strlit(",");
            let prev = texts_view(items@.take(i as int));
            let next = texts_view(items@.take(i + 1));
            assert(next.drop_last() =~= prev);
            assert(next.last() == items@[i as int]@);
        }
        if i > 0 {
            out.append(",");
        }
        out.append(items[i].as_str());
        i = i + 1;
    }
    assert(items@.take(items@.len() as int) =~= items@);
}

/// The text of an object whose members are the given `"name":value` texts.
fn object_of(members: &Vec<String>) -> (r: String)
    ensures
        r@ == "{"@ + joined(texts_view(members@)) + "}"@,
{
    let mut out = String::from_str("{");
    push_joined(&mut out, members);
    out.append("}");
    out
}

/// The `"name":value` text of one member.
fn member(name: &str, value: &str) -> (r: String)
    ensures
        r@ == quoted(name@) + ":"@ + value@,
{
    let mut out = String::from_str("\"");
    out.append(name);
    out.append("\":");
    out.append(value);
    proof {
        reveal_strlit("\"");
        reveal_strlit("\":");
        reveal_strlit(":");
        assert(out@ =~= quoted(name@) + ":"@ + value@);
    }
    out
}

/// The wire object of a message of the given role whose content is already
/// in its JSON text form.
pub fn message_from_quoted(role: Role, quoted_content: &str) -> (r: String)
    ensures
        r@ == object_text(seq![("role"@, quoted(role.wire_name())), ("content"@, quoted_content@)]),
{
    let role_member = member("role", quote_plain(role.as_str()).as_str());
    let content_member = member("content", quoted_content);
    let members = vec![role_member, content_member];
    let r = object_of(&members);
    proof {
        let fields = seq![("role"@, quoted(role.wire_name())), ("content"@, quoted_content@)];
        assert(texts_view(members@) =~= fields.map_values(
            |f: (Seq<char>, Seq<char>)| quoted(f.0) + ":"@ + f.1,
        ));
    }
    r
}

/// The wire object of one message.
pub fn message_json(m: &Message) -> (r: String)
    ensures
        r@ == message_text(*m),
{
    message_from_quoted(m.role, quote_json(m.content.as_str()).as_str())
}

/// A name or value that needs no escaping, in quotes.
fn quote_plain(s: &str) -> (r: String)
    ensures
        r@ == quoted(s@),
{
    let mut out = String::from_str("\"");
    out.append(s);
    out.append("\"");
    proof {
        reveal_strlit("\"");
        assert(out@ =~= quoted(s@));
    }
    out
}

/// The wire array of a conversation, in its order.
pub fn messages_json(ms: &Vec<Message>) -> (r: String)
    ensures
        r@ == messages_text(ms@),
{
    let mut items: Vec<String> = Vec::new();
    let mut i: usize = 0;
    while i < ms.len()
        invariant
            i <= ms@.len(),
            items@.len() == i,
            forall|k: int| 0 <= k < i ==> (#[trigger] items@[k])@ == message_text(ms@[k]),
        decreases ms.len() - i,
    {
        items.push(message_json(&ms[i]));
        i = i + 1;
    }
    let mut out = String::from_str("[");
    push_joined(&mut out, &items);
    out.append("]");
    proof {
        assert(texts_view(items@) =~= ms@.map_values(|m: Message| message_text(m)));
    }
    out
}


/// A finalized request: the model, the conversation in order, and the
/// generation parameters that were set.
#[derive(Debug, Clone)]
pub struct ChatCompletionRequest {
    pub model: Model,
    pub messages: Vec<Message>,
    pub temperature: Option<Temperature>,
    pub max_tokens: Option<u32>,
    pub stream: Option<bool>,
}

/// The members of the wire object of a request, in order. An optional
/// parameter that was not set has no member at all.
pub open spec fn request_fields(
    model: Model,
    messages: Seq<Message>,
    temperature: Option<Temperature>,
    max_tokens: Option<u32>,
    stream: Option<bool>,
) -> Seq<(Seq<char>, Seq<char>)> {
    seq![("model"@, quoted(model.wire_name())), ("messages"@, messages_text(messages))]
        + match temperature {
        Some(t) => seq![("temperature"@, t.wire_text())],
        None => Seq::empty(),
    } + match max_tokens {
        Some(n) => seq![("max_tokens"@, decimal(n as nat))],
        None => Seq::empty(),
    } + match stream {
        Some(b) => seq![("stream"@, bool_text(b))],
        None => Seq::empty(),
    }
}

/// Whether the object has a member with the given name.
pub open spec fn has_member(fields: Seq<(Seq<char>, Seq<char>)>, name: Seq<char>) -> bool {
    exists|i: int| 0 <= i < fields.len() && (#[trigger] fields[i]).0 == name
}

impl ChatCompletionRequest {
    pub open spec fn fields(&self) -> Seq<(Seq<char>, Seq<char>)> {
        request_fields(self.model, self.messages@, self.temperature, self.max_tokens, self.stream)
    }

    /// The JSON body that is sent for this request.
    pub fn to_json_text(&self) -> (r: String)
        ensures
            r@ == object_text(self.fields()),
    {
        let mut members: Vec<String> = Vec::new();
        members.push(member("model", quote_plain(self.model.as_str()).as_str()));
        members.push(member("messages", messages_json(&self.messages).as_str()));
        let ghost fields = seq![("model"@, quoted(self.model.wire_name())), ("messages"@, messages_text(self.messages@))];
        proof {
            assert(texts_view(members@) =~= fields.map_values(|f: (Seq<char>, Seq<char>)| quoted(f.0) + ":"@ + f.1));
        }
        match &self.temperature {
            Some(t) => {
                members.push(member("temperature", t.as_str()));
                proof {
                    fields = fields + seq![("temperature"@, t.wire_text())];
                }
            },
            None => {},
        }
        proof {
            assert(texts_view(members@) =~= fields.map_values(|f: (Seq<char>, Seq<char>)| quoted(f.0) + ":"@ + f.1));
        }
        match self.max_tokens {
            Some(n) => {
                let mut v = String::new();
                push_decimal(&mut v, n);
                members.push(member("max_tokens", v.as_str()));
                proof {
                    fields = fields + seq![("max_tokens"@, decimal(n as nat))];
                }
            },
            None => {},
        }
        proof {
            assert(texts_view(members@) =~= fields.map_values(|f: (Seq<char>, Seq<char>)| quoted(f.0) + ":"@ + f.1));
        }
        match self.stream {
            Some(b) => {
                let v = if b { "true" } else { "false" };
                proof {
                    reveal_strlit("true");
                    reveal_strlit("false");
                }
                members.push(member("stream", v));
                proof {
                    fields = fields + seq![("stream"@, bool_text(b))];
                }
            },
            None => {},
        }
        proof {
            assert(texts_view(members@) =~= fields.map_values(|f: (Seq<char>, Seq<char>)| quoted(f.0) + ":"@ + f.1));
            assert(fields =~= self.fields());
        }
        object_of(&members)
    }
}

/// The wire object of a request has a `temperature`, `max_tokens` or `stream`
/// member exactly when that parameter was set: one that was never set is
/// left out, not written as `null`.
pub proof fn lemma_member_presence(
    model: Model,
    messages: Seq<Message>,
    temperature: Option<Temperature>,
    max_tokens: Option<u32>,
    stream: Option<bool>,
)
    ensures
        has_member(request_fields(model, messages, temperature, max_tokens, stream), "temperature"@) <==> temperature is Some,
        has_member(request_fields(model, messages, temperature, max_tokens, stream), "max_tokens"@) <==> max_tokens is Some,
        has_member(request_fields(model, messages, temperature, max_tokens, stream), "stream"@) <==> stream is Some,
        has_member(request_fields(model, messages, temperature, max_tokens, stream), "model"@),
        has_member(request_fields(model, messages, temperature, max_tokens, stream), "messages"@),
{
    reveal_strlit("model");
    reveal_strlit("messages");
    reveal_strlit("temperature");
    reveal_strlit("max_tokens");
    reveal_strlit("stream");
    let f = request_fields(model, messages, temperature, max_tokens, stream);
    let t: int = if temperature is Some { 1 } else { 0 };
    let m: int = if max_tokens is Some { 1 } else { 0 };
    let k: int = if stream is Some { 1 } else { 0 };
    assert(f.len() == 2 + t + m + k);
    assert(f[0].0 == "model"@);
    assert(f[1].0 == "messages"@);
    if temperature is Some {
        assert(f[2].0 == "temperature"@);
    }
    if max_tokens is Some {
        assert(f[2 + t].0 == "max_tokens"@);
    }
    if stream is Some {
        assert(f[2 + t + m].0 == "stream"@);
    }
    assert forall|i: int| 0 <= i < f.len() implies {
        &&& (#[trigger] f[i]).0 == "temperature"@ ==> i == 2 && temperature is Some
        &&& f[i].0 == "max_tokens"@ ==> i == 2 + t && max_tokens is Some
        &&& f[i].0 == "stream"@ ==> i == 2 + t + m && stream is Some
    } by {
        if i == 0 {
            assert(f[i].0.len() == 5);
        } else if i == 1 {
            assert(f[i].0.len() == 8);
        } else if i == 2 && t == 1 {
            assert(f[i].0.len() == 11);
        } else if i == 2 + t && m == 1 {
            assert(f[i].0.len() == 10);
        } else {
            assert(f[i].0.len() == 6);
        }
    }
}

/// The same, for the members that a finalized request writes.
pub proof fn lemma_unset_parameters_omitted(req: ChatCompletionRequest)
    ensures
        has_member(req.fields(), "temperature"@) <==> req.temperature is Some,
        has_member(req.fields(), "max_tokens"@) <==> req.max_tokens is Some,
        has_member(req.fields(), "stream"@) <==> req.stream is Some,
        has_member(req.fields(), "model"@),
        has_member(req.fields(), "messages"@),
{
    lemma_member_presence(req.model, req.messages@, req.temperature, req.max_tokens, req.stream);
}

} // verus!
