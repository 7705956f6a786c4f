//! The settings of the server.
use vstd::prelude::*;

use crate::text::push_decimal;

verus! {

/// Where the server listens, and the key that it asks for.
pub struct ServerSettings {
    pub host: String,
    pub port: u16,
    pub api_key: Option<String>,
}

/// How completions are sampled where a request does not say. `F` is the type of a number with
/// a fraction.
pub struct SamplingDefaults<F> {
    pub temperature: F,
    pub top_k: usize,
    pub top_p: F,
    pub max_tokens: usize,
    pub repetition_penalty: F,
    pub seed: u64,
    pub ctx_len: usize,
    pub smart_context: bool,
    pub prefill_batch: usize,
}

/// The key that requests are held to: an empty one is none.
pub open spec fn key_in_force(api_key: Option<Seq<char>>) -> Option<Seq<char>> {
    match api_key {
        Some(k) => if k.len() == 0 {
            None
        } else {
            Some(k)
        },
        None => None,
    }
}

impl ServerSettings {
    /// The key that requests are held to.
    pub fn active_key(&self) -> (key: Option<String>)
        ensures
            crate::text::owned_text(key) == key_in_force(crate::text::owned_text(self.api_key)),
    {
        match &self.api_key {
            Some(k) => if is_empty(k.as_str()) {
                None
            } else {
                Some(k.clone())
            },
            None => None,
        }
    }

    /// The address to listen on: host, colon, port.
    pub fn address(&self) -> (address: String)
        ensures
            address@ == self.host@ + ":"@ + crate::text::decimal(self.port as nat),
    {
        let mut address = self.host.clone();
        address.append(":");
        push_decimal(&mut address, self.port as u128);
        address
    }
}

/// Whether a text has no characters.
pub(crate) fn is_empty(text: &str) -> (empty: bool)
    ensures
        empty == (text@.len() == 0),
{
    crate::text::chars_of(text).len() == 0
}

/// A key that is empty asks nothing of requests, as none does; any other is in force.
pub proof fn law_empty_key_is_none(key: Seq<char>)
    ensures
        key_in_force(Some(key)) == key_in_force(None) <==> key.len() == 0,
        key.len() > 0 ==> key_in_force(Some(key)) == Some(key),
        key_in_force(None) is None,
{
}

} // verus!
