//! Approximate token counting, and the test of a text against a context
//! window.

use crate::text::{decimal, decimal_text};
use vstd::prelude::*;
use vstd::string::StringExecFns;

verus! {

/// Characters that count as one token in the approximation.
pub const CHARS_PER_TOKEN: usize = 4;

/// The approximate number of tokens in a text: one for every four
/// characters, rounded down.
pub open spec fn token_count(text: Seq<char>) -> nat {
    text.len() / 4
}

/// The text of the error for an input of `tokens` tokens against a context
/// window of `window` tokens.
pub open spec fn window_exceeded_text(tokens: nat, window: nat) -> Seq<char> {
    "Input exceeds model context window: "@ + decimal_text(tokens) + " tokens > "@ + decimal_text(
        window,
    ) + " limit"@
}

/// What validating `text` against a context window of `context_window`
/// tokens returns: `Ok(true)` where the token count fits the window, and
/// otherwise the error that reports both numbers.
pub open spec fn validated(text: Seq<char>, context_window: u64, verdict: Result<bool, String>) -> bool {
    if token_count(text) <= context_window {
        verdict == Ok::<bool, String>(true)
    } else {
        verdict matches Err(report) && report@ == window_exceeded_text(
            token_count(text),
            context_window as nat,
        )
    }
}

/// Counts tokens by a fixed ratio of characters to tokens.
#[derive(Clone, Copy, Debug)]
pub struct TokenCounter {}

impl TokenCounter {
    pub fn new() -> (counter: Self) {
        TokenCounter {  }
    }

    /// The approximate number of tokens in `text`. The model does not enter
    /// the approximation.
    pub fn count_tokens(&self, text: &str, model: Option<&str>) -> (count: Result<usize, String>)
        ensures
            count matches Ok(tokens) && tokens == token_count(text@),
    {
        Ok(text.unicode_len() / CHARS_PER_TOKEN)
    }

    /// The approximate number of tokens in each of `texts`, in order.
    pub fn count_tokens_batch(&self, texts: &[String], model: Option<&str>) -> (counts: Result<
        Vec<usize>,
        String,
    >)
        ensures
            counts matches Ok(each) && each@.len() == texts@.len() && forall|i: int|
                0 <= i < texts@.len() ==> each@[i] == token_count(texts@[i]@),
    {
        let mut each: Vec<usize> = Vec::new();
        let mut i: usize = 0;
        while i < texts.len()
            invariant
                i <= texts@.len(),
                each@.len() == i,
                forall|j: int| 0 <= j < i ==> each@[j] == token_count(texts@[j]@),
            decreases texts@.len() - i,
        {
            let tokens: usize = texts[i].as_str().unicode_len() / CHARS_PER_TOKEN;
            each.push(tokens);
            i += 1;
        }
        Ok(each)
    }

    /// Accepts `text` where its token count fits a context window of
    /// `context_window` tokens, and reports both numbers otherwise.
    pub fn validate_input(&self, text: &str, context_window: u64) -> (verdict: Result<bool, String>)
        ensures
            validated(text@, context_window, verdict),
    {
        let tokens: usize = text.unicode_len() / CHARS_PER_TOKEN;
        if tokens as u64 > context_window {
            let report = String::from_str("Input exceeds model context window: ").concat(
                decimal(tokens as u64).as_str(),
            ).concat(" tokens > ").concat(decimal(context_window).as_str()).concat(" limit");
            return Err(report);
        }
        Ok(true)
    }
}

/// The approximate number of tokens in `text`.
pub fn count_tokens(text: &str, model: Option<&str>) -> (count: Result<usize, String>)
    ensures
        count matches Ok(tokens) && tokens == token_count(text@),
{
    TokenCounter::new().count_tokens(text, model)
}

/// The approximate number of tokens in each of `texts`, in order.
pub fn count_tokens_batch(texts: &[String], model: Option<&str>) -> (counts: Result<
    Vec<usize>,
    String,
>)
    ensures
        counts matches Ok(each) && each@.len() == texts@.len() && forall|i: int|
            0 <= i < texts@.len() ==> each@[i] == token_count(texts@[i]@),
{
    TokenCounter::new().count_tokens_batch(texts, model)
}

/// Accepts `text` where its token count fits a context window of
/// `context_window` tokens.
pub fn validate_input(text: &str, context_window: u64) -> (verdict: Result<bool, String>)
    ensures
        validated(text@, context_window, verdict),
{
    TokenCounter::new().validate_input(text, context_window)
}

} // verus!
