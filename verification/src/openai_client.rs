//! What the shell knows of the text-generation service: the key it sends,
//! the request it makes and how it reads the answer. Sending the request is
//! left to the embedding program.

use crate::errors::{OpenAIError, OpenAIErrorView, SyntaxError, SyntaxErrorView};
use crate::table::{lookup, Table};
use vstd::prelude::*;

verus! {

/// The model that requests are made to.
pub const MODEL: &'static str = "gpt-4o-mini";

/// The address that requests are sent to.
pub const ENDPOINT: &'static str = "https://api.openai.com/v1/chat/completions";

/// The variable that holds the key.
pub const KEY_VARIABLE: &'static str = "OPENAI_API_KEY";

/// A client of the service: the key that its requests carry.
#[derive(Debug, PartialEq)]
pub struct OpenAIClient {
    api_key: String,
}

/// One message of a request.
#[derive(Debug)]
pub struct Message {
    pub role: String,
    pub content: String,
}

/// A request to the service.
#[derive(Debug)]
pub struct OpenAIRequest {
    pub model: String,
    pub messages: Vec<Message>,
    pub max_tokens: u16,
}

/// How a request went: what the embedding program hands back after it has
/// sent one.
#[derive(Debug)]
pub enum Exchange {
    /// The request could not be sent; the text says why.
    NotSent(String),
    /// The service answered with success; the contents of the choices it
    /// gave, in order.
    Answered(Vec<String>),
    /// The service answered with success and the answer could not be read.
    Unreadable(String),
    /// The service answered with a failure status and this body.
    Refused(String),
    /// The service answered with a failure status and the body could not be
    /// read.
    RefusedUnreadable(String),
}

/// The error for a missing key.
pub open spec fn missing_key() -> SyntaxErrorView {
    SyntaxErrorView::InvalidOpenAIKey("OPENAI_API_KEY not set"@)
}

/// The key that a client gets: the one given, else the one in the
/// environment.
pub open spec fn chosen_key(api_key: Option<Seq<char>>, env: crate::table::Entries) -> Option<
    Seq<char>,
> {
    match api_key {
        Some(key) => Some(key),
        None => lookup(env, KEY_VARIABLE@),
    }
}

/// The texts of `parts`, one after the other.
pub open spec fn concat_all(parts: Seq<Seq<char>>) -> Seq<char>
    decreases parts.len(),
{
    if parts.len() == 0 {
        Seq::empty()
    } else {
        concat_all(parts.drop_last()) + parts.last()
    }
}

impl Clone for OpenAIClient {
    fn clone(&self) -> (r: OpenAIClient)
        ensures
            r.key() == self.key(),
    {
        OpenAIClient { api_key: self.api_key.clone() }
    }
}

impl OpenAIClient {
    /// The key that requests carry.
    pub closed spec fn key(&self) -> Seq<char> {
        self.api_key@
    }

    /// A client with the key given, or with the one that `env` holds under
    /// `OPENAI_API_KEY`. Without either there is no client.
    pub fn new(api_key: Option<String>, env: &Table) -> (r: Result<OpenAIClient, SyntaxError>)
        ensures
            match chosen_key(
                match api_key {
                    Some(k) => Some(k@),
                    None => None,
                },
                env@,
            ) {
                Some(key) => r is Ok && r.unwrap().key() == key,
                None => r is Err && r.unwrap_err()@ == missing_key(),
            },
    {
        let key = match api_key {
            Some(key) => key,
            None => match env.get(KEY_VARIABLE) {
                Some(key) => key,
                None => {
                    return Err(
                        SyntaxError::InvalidOpenAIKey(String::from_str("OPENAI_API_KEY not set")),
                    );
                },
            },
        };
        Ok(OpenAIClient { api_key: key })
    }

    /// The key that requests carry.
    pub fn api_key(&self) -> (r: &str)
        ensures
            r@ == self.key(),
    {
        self.api_key.as_str()
    }

    /// The value of the `Authorization` header of a request.
    pub fn authorization(&self) -> (r: String)
        ensures
            r@ == "Bearer "@ + self.key(),
    {
        String::from_str("Bearer ").concat(self.api_key.as_str())
    }

    /// The request for `prompt`: one message of the user, to the model, with
    /// the limit given.
    pub fn request(prompt: &str, max_tokens: u16) -> (r: OpenAIRequest)
        ensures
            r.model@ == MODEL@,
            r.max_tokens == max_tokens,
            r.messages@.len() == 1,
            r.messages@[0].role@ == "user"@,
            r.messages@[0].content@ == prompt@,
    {
        let mut messages: Vec<Message> = Vec::new();
        messages.push(Message { role: String::from_str("user"), content: String::from_str(prompt) });
        OpenAIRequest { model: String::from_str(MODEL), messages, max_tokens }
    }

    /// What `generate_text` gives for an exchange: the contents of the
    /// choices, one after the other, where the service answered, and the
    /// matching error elsewhere.
    pub fn read_exchange(exchange: Exchange) -> (r: Result<String, OpenAIError>)
        ensures
            match exchange {
                Exchange::NotSent(why) => r is Err && r.unwrap_err()@
                    == OpenAIErrorView::NetworkError(why@),
                Exchange::Answered(choices) => r is Ok && r.unwrap()@ == concat_all(
                    crate::text::texts(choices@),
                ),
                Exchange::Unreadable(why) => r is Err && r.unwrap_err()@
                    == OpenAIErrorView::DeserializationError(why@),
                Exchange::Refused(body) => r is Err && r.unwrap_err()@ == OpenAIErrorView::APIError(
                    body@,
                ),
                Exchange::RefusedUnreadable(why) => r is Err && r.unwrap_err()@
                    == OpenAIErrorView::DeserializationError(why@),
            },
    {
        match exchange {
            Exchange::NotSent(why) => Err(OpenAIError::NetworkError(why)),
            Exchange::Answered(choices) => {
                let mut content = String::new();
                let mut i: usize = 0;
                while i < choices.len()
                    invariant
                        i <= choices.len(),
                        content@ == concat_all(crate::text::texts(choices@).subrange(0, i as int)),
                    decreases choices.len() - i,
                {
                    let ghost next = crate::text::texts(choices@).subrange(0, i + 1);
                    assert(next.drop_last() == crate::text::texts(choices@).subrange(0, i as int));
                    assert(next.last() == choices@[i as int]@);
                    content.append(choices[i].as_str());
                    i += 1;
                }
                assert(crate::text::texts(choices@).subrange(0, choices.len() as int)
                    == crate::text::texts(choices@));
                Ok(content)
            },
            Exchange::Unreadable(why) => Err(OpenAIError::DeserializationError(why)),
            Exchange::Refused(body) => Err(OpenAIError::APIError(body)),
            Exchange::RefusedUnreadable(why) => Err(OpenAIError::DeserializationError(why)),
        }
    }
}

} // verus!
