//! The backends that answer `/ask`.

use vstd::prelude::*;

verus! {

/// A source of answers to natural-language prompts.
pub trait ChatBackend {
    fn ask(&self, prompt: &str) -> String;
}

/// The local backend of this version: it states what it can help with and
/// repeats the prompt.
#[derive(Debug, Default)]
pub struct PlaceholderBackend;

/// The answer of the placeholder backend to a prompt.
pub open spec fn placeholder_answer(prompt: Seq<char>) -> Seq<char> {
    "v1 local backend: I can help explain, plan, or suggest next commands.\nPrompt: "@ + prompt
}

impl ChatBackend for PlaceholderBackend {
    fn ask(&self, prompt: &str) -> (r: String)
        ensures
            r@ == placeholder_answer(prompt@),
    {
        let mut r = String::new();
        r.append("v1 local backend: I can help explain, plan, or suggest next commands.\nPrompt: ");
        r.append(prompt);
        r
    }
}

}
