//! The errors of a rewrite and the messages that report them.
use vstd::prelude::*;
use crate::text::{decimal_spec, extend_str, push_decimal, string_from_chars};

verus! {

/// Why a rewrite through the chat-completions service failed.
#[derive(Debug)]
pub enum RewriteError {
    /// No API key was given on the command line or in the environment.
    MissingApiKey,
    /// Every model was tried and failed; the message of the last failure.
    AllModelsFailed { last_error: String },
    /// The service answered 402 (payment or credits); the response body.
    PaymentRequired { body: String },
    /// The service answered with another failing status; the status as the
    /// HTTP library writes it and the response body.
    RequestFailed { status: String, body: String },
    /// The reply held no `choices[0]`.
    NoChoices,
    /// The reply's text was empty or whitespace only.
    EmptyContent { finish_reason: String, reasoning_tokens: u64 },
}

/// The message that reports `e`.
pub open spec fn error_message(e: RewriteError) -> Seq<char> {
    match e {
        RewriteError::MissingApiKey => "Missing OpenRouter API key. Set OPENROUTER_API_KEY, create a .env file, or pass --api-key."@,
        RewriteError::AllModelsFailed { last_error } => "All OpenRouter models failed. Last error: "@ + last_error@,
        RewriteError::PaymentRequired { body } => "OpenRouter payment/credit error 402. Add credits, check the correct account/org, or use another model. Response: "@ + body@,
        RewriteError::RequestFailed { status, body } => "OpenRouter request failed with status "@ + status@ + ". Response: "@ + body@,
        RewriteError::NoChoices => "OpenRouter response had no choices"@,
        RewriteError::EmptyContent { finish_reason, reasoning_tokens } => "OpenRouter returned no final rewritten text. finish_reason="@ + finish_reason@ + ", reasoning_tokens="@ + decimal_spec(reasoning_tokens as nat) + ". Increase --max-tokens, use a non-reasoning model, or use --reasoning-effort low/none as appropriate."@,
    }
}

impl RewriteError {
    /// The message that reports this error.
    pub fn message(&self) -> (r: String)
        ensures
            r@ == error_message(*self),
    {
        let mut out: Vec<char> = Vec::new();
        match self {
            RewriteError::MissingApiKey => {
                extend_str(&mut out, "Missing OpenRouter API key. Set OPENROUTER_API_KEY, create a .env file, or pass --api-key.");
            },
            RewriteError::AllModelsFailed { last_error } => {
                extend_str(&mut out, "All OpenRouter models failed. Last error: ");
                extend_str(&mut out, last_error.as_str());
            },
            RewriteError::PaymentRequired { body } => {
                extend_str(&mut out, "OpenRouter payment/credit error 402. Add credits, check the correct account/org, or use another model. Response: ");
                extend_str(&mut out, body.as_str());
            },
            RewriteError::RequestFailed { status, body } => {
                extend_str(&mut out, "OpenRouter request failed with status ");
                extend_str(&mut out, status.as_str());
                extend_str(&mut out, ". Response: ");
                extend_str(&mut out, body.as_str());
            },
            RewriteError::NoChoices => {
                extend_str(&mut out, "OpenRouter response had no choices");
            },
            RewriteError::EmptyContent { finish_reason, reasoning_tokens } => {
                extend_str(&mut out, "OpenRouter returned no final rewritten text. finish_reason=");
                extend_str(&mut out, finish_reason.as_str());
                extend_str(&mut out, ", reasoning_tokens=");
                push_decimal(&mut out, *reasoning_tokens);
                extend_str(&mut out, ". Increase --max-tokens, use a non-reasoning model, or use --reasoning-effort low/none as appropriate.");
            },
        }
        assert(out@ =~= error_message(*self));
        string_from_chars(&out)
    }
}

} // verus!
