use vstd::prelude::*;
use vstd::string::*;

use crate::error::DeepSeekError;
use crate::models::{Message, Model, Role};
use crate::request::{ChatCompletionRequest, Temperature, has_member, lemma_member_presence, request_fields};

verus! {

#[verifier::external_type_specification]
#[verifier::external_body]
pub struct ExHttpClient(reqwest::Client);

/// The address that is used where none is configured.
pub open spec fn default_base_url() -> Seq<char> {
    "https://api.deepseek.com"@
}

/// The path of the completions endpoint under the base address.
pub open spec fn completions_path() -> Seq<char> {
    "/chat/completions"@
}

/// A configured client: the HTTP capability, the base address and the
/// credential, fixed for the client's lifetime.
pub struct DeepSeekClient {
    http: reqwest::Client,
    base_url: String,
    api_key: String,
}

impl DeepSeekClient {
    pub closed spec fn spec_base_url(&self) -> Seq<char> {
        self.base_url@
    }

    pub closed spec fn spec_api_key(&self) -> Seq<char> {
        self.api_key@
    }

    pub closed spec fn spec_http(&self) -> &reqwest::Client {
        &self.http
    }

    /// Builds a client from its configuration: the credential is required,
    /// the base address falls back to the public service.
    pub fn from_settings(http: reqwest::Client, api_key: Option<String>, base_url: Option<String>) -> (r:
        Result<DeepSeekClient, DeepSeekError>)
        ensures
            api_key is None <==> (r matches Err(DeepSeekError::MissingApiKey)),
            api_key is Some <==> r is Ok,
            r is Ok ==> r->Ok_0.spec_api_key() == api_key->0@,
            r is Ok ==> r->Ok_0.spec_http() == &http,
            r is Ok && base_url is Some ==> r->Ok_0.spec_base_url() == base_url->0@,
            r is Ok && base_url is None ==> r->Ok_0.spec_base_url() == default_base_url(),
    {
        proof {
            reveal_strlit("https://api.deepseek.com");
        }
        let api_key = match api_key {
            Some(k) => k,
            None => return Err(DeepSeekError::MissingApiKey),
        };
        let base_url = match base_url {
            Some(b) => b,
            None => String::from_str("https://api.deepseek.com"),
        };
        Ok(DeepSeekClient { http, base_url, api_key })
    }

    pub fn base_url(&self) -> (r: &str)
        ensures
            r@ == self.spec_base_url(),
    {
        self.base_url.as_str()
    }

    pub fn api_key(&self) -> (r: &str)
        ensures
            r@ == self.spec_api_key(),
    {
        self.api_key.as_str()
    }

    /// The HTTP capability that carries the exchanges.
    pub fn http(&self) -> (r: &reqwest::Client)
        ensures
            r == self.spec_http(),
    {
        &self.http
    }

    /// The address to which chat requests are posted.
    pub fn completions_url(&self) -> (r: String)
        ensures
            r@ == self.spec_base_url() + completions_path(),
    {
        proof {
            reveal_strlit("/chat/completions");
        }
        let mut url = self.base_url.clone();
        url.append("/chat/completions");
        url
    }

    /// Starts a request: the primary chat model, no messages, no temperature
    /// or token limit, streaming disabled.
    pub fn chat(&self) -> (r: ChatRequestBuilder<'_>)
        ensures
            r.spec_client() == self,
            r.spec_model() == Model::DeepseekChat,
            r.spec_messages() == Seq::<Message>::empty(),
            r.spec_temperature() is None,
            r.spec_max_tokens() is None,
            r.spec_stream() == Some(false),
    {
        ChatRequestBuilder {
            client: self,
            model: Model::DeepseekChat,
            messages: Vec::new(),
            temperature: None,
            max_tokens: None,
            stream: Some(false),
        }
    }
}

/// A request being put together; each step returns the updated builder.
pub struct ChatRequestBuilder<'a> {
    client: &'a DeepSeekClient,
    model: Model,
    messages: Vec<Message>,
    temperature: Option<Temperature>,
    max_tokens: Option<u32>,
    stream: Option<bool>,
}

impl<'a> ChatRequestBuilder<'a> {
    pub closed spec fn spec_client(&self) -> &'a DeepSeekClient {
        self.client
    }

    pub closed spec fn spec_model(&self) -> Model {
        self.model
    }

    pub closed spec fn spec_messages(&self) -> Seq<Message> {
        self.messages@
    }

    pub closed spec fn spec_temperature(&self) -> Option<Temperature> {
        self.temperature
    }

    pub closed spec fn spec_max_tokens(&self) -> Option<u32> {
        self.max_tokens
    }

    pub closed spec fn spec_stream(&self) -> Option<bool> {
        self.stream
    }

    /// The builder with one more message at the end of the conversation.
    fn push_message(self, role: Role, content: &str) -> (r: Self)
        ensures
            appends(self.spec_messages(), r.spec_messages(), role, content@),
            r.keeps_settings_of(&self),
    {
        let mut b = self;
        b.messages.push(Message { role, content: String::from_str(content) });
        assert(b.messages@.drop_last() =~= self.messages@);
        b
    }

    /// Sets the model.
    pub fn model(self, model: Model) -> (r: Self)
        ensures
            r.spec_model() == model,
            r.spec_client() == self.spec_client(),
            r.spec_messages() == self.spec_messages(),
            r.spec_temperature() == self.spec_temperature(),
            r.spec_max_tokens() == self.spec_max_tokens(),
            r.spec_stream() == self.spec_stream(),
    {
        let mut b = self;
        b.model = model;
        b
    }

    /// Appends a system message.
    pub fn system(self, content: &str) -> (r: Self)
        ensures
            appends(self.spec_messages(), r.spec_messages(), Role::System, content@),
            r.keeps_settings_of(&self),
    {
        self.push_message(Role::System, content)
    }

    /// Appends a user message.
    pub fn user(self, content: &str) -> (r: Self)
        ensures
            appends(self.spec_messages(), r.spec_messages(), Role::User, content@),
            r.keeps_settings_of(&self),
    {
        self.push_message(Role::User, content)
    }

    /// Appends an assistant message.
    pub fn assistant(self, content: &str) -> (r: Self)
        ensures
            appends(self.spec_messages(), r.spec_messages(), Role::Assistant, content@),
            r.keeps_settings_of(&self),
    {
        self.push_message(Role::Assistant, content)
    }

    /// Sets the temperature.
    pub fn temperature(self, temp: Temperature) -> (r: Self)
        ensures
            r.spec_temperature() == Some(temp),
            r.spec_client() == self.spec_client(),
            r.spec_model() == self.spec_model(),
            r.spec_messages() == self.spec_messages(),
            r.spec_max_tokens() == self.spec_max_tokens(),
            r.spec_stream() == self.spec_stream(),
    {
        let mut b = self;
        b.temperature = Some(temp);
        b
    }

    /// Sets the largest number of tokens to generate.
    pub fn max_tokens(self, max: u32) -> (r: Self)
        ensures
            r.spec_max_tokens() == Some(max),
            r.spec_client() == self.spec_client(),
            r.spec_model() == self.spec_model(),
            r.spec_messages() == self.spec_messages(),
            r.spec_temperature() == self.spec_temperature(),
            r.spec_stream() == self.spec_stream(),
    {
        let mut b = self;
        b.max_tokens = Some(max);
        b
    }

    /// Sets the streaming flag.
    pub fn stream(self, stream: bool) -> (r: Self)
        ensures
            r.spec_stream() == Some(stream),
            r.spec_client() == self.spec_client(),
            r.spec_model() == self.spec_model(),
            r.spec_messages() == self.spec_messages(),
            r.spec_temperature() == self.spec_temperature(),
            r.spec_max_tokens() == self.spec_max_tokens(),
    {
        let mut b = self;
        b.stream = Some(stream);
        b
    }

    /// The client that the request will be sent through.
    pub fn client(&self) -> (r: &'a DeepSeekClient)
        ensures
            r == self.spec_client(),
    {
        self.client
    }

    /// Finalizes the request: everything that was set, the messages in the
    /// order in which they were added.
    pub fn build(self) -> (r: ChatCompletionRequest)
        ensures
            r.model == self.spec_model(),
            r.messages@ == self.spec_messages(),
            r.temperature == self.spec_temperature(),
            r.max_tokens == self.spec_max_tokens(),
            r.stream == self.spec_stream(),
    {
        ChatCompletionRequest {
            model: self.model,
            messages: self.messages,
            temperature: self.temperature,
            max_tokens: self.max_tokens,
            stream: self.stream,
        }
    }

    /// Whether everything but the messages is as in `other`.
    pub open spec fn keeps_settings_of(&self, other: &Self) -> bool {
        &&& self.spec_client() == other.spec_client()
        &&& self.spec_model() == other.spec_model()
        &&& self.spec_temperature() == other.spec_temperature()
        &&& self.spec_max_tokens() == other.spec_max_tokens()
        &&& self.spec_stream() == other.spec_stream()
    }
}

/// `after` is `before` with one message of the given role and content added
/// at the end.
pub open spec fn appends(before: Seq<Message>, after: Seq<Message>, role: Role, content: Seq<char>) -> bool {
    &&& after.len() == before.len() + 1
    &&& after.drop_last() == before
    &&& after.last().role == role
    &&& after.last().content@ == content
}

/// Messages appended one after another stand in the conversation in the
/// order of the calls, after the messages that were there, which stay as
/// they were: `states[i + 1]` is `states[i]` with `steps[i]` appended.
pub proof fn lemma_messages_in_call_order(states: Seq<Seq<Message>>, steps: Seq<(Role, Seq<char>)>)
    requires
        states.len() == steps.len() + 1,
        forall|i: int|
            0 <= i < steps.len() ==> appends(states[i], #[trigger] states[i + 1], steps[i].0, steps[i].1),
    ensures
        states.last().len() == states[0].len() + steps.len(),
        states.last().take(states[0].len() as int) == states[0],
        forall|k: int|
            0 <= k < steps.len() ==> (#[trigger] states.last()[states[0].len() + k]).role == steps[k].0
                && states.last()[states[0].len() + k].content@ == steps[k].1,
    decreases steps.len(),
{
    if steps.len() > 0 {
        let n = steps.len() - 1;
        let s2 = states.drop_last();
        let t2 = steps.drop_last();
        assert forall|i: int| 0 <= i < t2.len() implies appends(s2[i], #[trigger] s2[i + 1], t2[i].0, t2[i].1) by {
            assert(states[i + 1] == s2[i + 1]);
        }
        lemma_messages_in_call_order(s2, t2);
        let prev = states[n];
        let last = states.last();
        assert(states[n + 1] == last);
        assert(s2.last() == prev);
        assert(last.drop_last() == prev);
        assert(last.take(states[0].len() as int) =~= prev.take(states[0].len() as int));
        assert forall|k: int| 0 <= k < steps.len() implies (#[trigger] last[states[0].len() + k]).role == steps[k].0
            && last[states[0].len() + k].content@ == steps[k].1 by {
            if k < n {
                assert(last[states[0].len() + k] == prev[states[0].len() + k]);
                assert(t2[k] == steps[k]);
            }
        }
    }
}

/// A request started with `chat` and taken through steps none of which sets
/// the temperature or the token limit has no `temperature` and no
/// `max_tokens` member in its body: `states[i + 1]` is the builder after
/// step `i`, and the body is the one that `build` and `to_json_text` write.
pub proof fn lemma_unset_through_chain<'a>(states: Seq<ChatRequestBuilder<'a>>)
    requires
        states.len() > 0,
        states[0].spec_temperature() is None,
        states[0].spec_max_tokens() is None,
        forall|i: int|
            0 <= i < states.len() - 1 ==> (#[trigger] states[i + 1]).spec_temperature()
                == states[i].spec_temperature() && states[i + 1].spec_max_tokens()
                == states[i].spec_max_tokens(),
    ensures
        !has_member(
            request_fields(
                states.last().spec_model(),
                states.last().spec_messages(),
                states.last().spec_temperature(),
                states.last().spec_max_tokens(),
                states.last().spec_stream(),
            ),
            "temperature"@,
        ),
        !has_member(
            request_fields(
                states.last().spec_model(),
                states.last().spec_messages(),
                states.last().spec_temperature(),
                states.last().spec_max_tokens(),
                states.last().spec_stream(),
            ),
            "max_tokens"@,
        ),
{
    assert forall|i: int| 0 <= i < states.len() implies (#[trigger] states[i]).spec_temperature() is None
        && states[i].spec_max_tokens() is None by {
        lemma_chain_keeps_unset(states, i);
    }
    let l = states.last();
    lemma_member_presence(l.spec_model(), l.spec_messages(), l.spec_temperature(), l.spec_max_tokens(), l.spec_stream());
}

proof fn lemma_chain_keeps_unset<'a>(states: Seq<ChatRequestBuilder<'a>>, n: int)
    requires
        0 <= n < states.len(),
        states[0].spec_temperature() is None,
        states[0].spec_max_tokens() is None,
        forall|i: int|
            0 <= i < states.len() - 1 ==> (#[trigger] states[i + 1]).spec_temperature()
                == states[i].spec_temperature() && states[i + 1].spec_max_tokens()
                == states[i].spec_max_tokens(),
    ensures
        states[n].spec_temperature() is None,
        states[n].spec_max_tokens() is None,
    decreases n,
{
    if n > 0 {
        lemma_chain_keeps_unset(states, n - 1);
        assert(states[(n - 1) + 1] == states[n]);
    }
}

} // verus!
