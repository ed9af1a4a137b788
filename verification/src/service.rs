//! The conversation service: one round trip per call. It compiles the
//! conversation into a prompt, drives one inference pass against an
//! already-loaded model, and reduces the generated tokens into the
//! assistant's reply. The inference pass is an external collaborator (the
//! `llm` crate): nothing is assumed about the text it samples, and the reply
//! is pinned down only through the reducer's contract.
use crate::compiler::{compile, user_marker, user_marker_text};
use crate::conversation::Conversation;
use crate::reducer::{reply_text, ResponseReducer};
use llm::KnownModel;
use vstd::prelude::*;

verus! {

/// Why a `converse` call failed. An empty reply is not a failure: it comes
/// back as a successful, empty outcome.
pub enum ConverseError {
    /// The model handle could not be obtained by the caller.
    ModelUnavailable,
    /// The inference pass itself failed (for instance a full context window
    /// or a tokenization failure); never retried here, surfaced as a failed
    /// call for the caller to decide about.
    InferenceFailure(String),
}

/// Declares the `llm` crate's loaded LLaMA model handle so it can appear in
/// signatures. It stays opaque to the library: the handle is only carried
/// through to the inference wrapper, never inspected.
#[verifier::external_type_specification]
#[verifier::external_body]
pub struct ExLlama(llm::models::Llama);

/// Declares the `llm` crate's per-call inference session so it can be
/// carried, opaquely, between the trusted calls below.
#[verifier::external_type_specification]
#[verifier::external_body]
pub struct ExInferenceSession(llm::InferenceSession);

/// Relies on `llm`'s `KnownModel::start_session`: one fresh session bound to
/// the loaded model, with the default session configuration. Sessions are
/// never reused across calls.
#[verifier::external_body]
fn start_session(model: &llm::models::Llama) -> (s: llm::InferenceSession) {
    model.start_session(Default::default())
}

/// Relies on `llm`'s `InferenceSession::feed_prompt`: primes the session's
/// context window with the prompt without sampling anything. `feed_prompt`
/// hands the prompt's own tokens to its callback, so a no-op callback is
/// used here: prompt text (which contains the markers) must never reach the
/// reducer as if it had been generated.
#[verifier::external_body]
fn feed_session_prompt(
    session: &mut llm::InferenceSession,
    model: &llm::models::Llama,
    prompt: &str,
) -> (r: Result<(), String>) {
    let parameters = llm::InferenceParameters::default();
    let noop = |_: &[u8]| Ok::<(), std::fmt::Error>(());
    session.feed_prompt(model, &parameters, prompt, &mut Default::default(), noop).map_err(
        |e| format!("{e}"),
    )
}

/// Relies on `llm`'s `InferenceSession::infer`, with `rand::thread_rng`
/// supplying the sampling randomness: samples tokens from the primed session
/// (the follow-up prompt is empty, so only newly generated text reaches the
/// callback) and hands each one to `red.feed`. Once `feed` reports the stop
/// marker the callback returns an error, which `infer` surfaces as
/// `InferenceError::UserCallback` and stops generating: that is the halt
/// path, not a failure, and `feed` is never called again after it. The
/// reducer is driven through `feed` alone, so its invariant and its marker
/// survive; the sampled text depends on the model and the randomness, so
/// nothing is stated about what was fed. `max_tokens` caps how many tokens
/// are generated; `None` runs until a natural stop or the model's own limit.
#[verifier::external_body]
fn generate(
    session: &mut llm::InferenceSession,
    model: &llm::models::Llama,
    max_tokens: Option<usize>,
    red: &mut ResponseReducer,
) -> (r: Result<(), String>)
    requires
        old(red).wf(),
        !old(red).is_done(),
    ensures
        final(red).wf(),
        final(red).marker_seq() == old(red).marker_seq(),
{
    let parameters = llm::InferenceParameters::default();
    let request = llm::InferenceRequest {
        prompt: "",
        parameters: Some(&parameters),
        play_back_previous_tokens: false,
        maximum_token_count: max_tokens,
    };
    let callback = |t: &str| if red.feed(t) { Err(std::fmt::Error) } else { Ok(()) };
    match session.infer(model, &mut rand::thread_rng(), &request, &mut Default::default(), callback) {
        Ok(_) | Err(llm::InferenceError::UserCallback(_)) => Ok(()),
        Err(e) => Err(format!("{e}")),
    }
}

/// One full round trip: compiles `conversation` into a prompt, runs one
/// inference pass, and reduces the token stream into the assistant's reply.
/// Whatever the model sampled, a returned reply is exactly the reduction of
/// some token stream under the user marker as the stop marker: cut before
/// the marker's first occurrence and pared to whole lines if the marker
/// appeared, and trimmed. A failed pass is surfaced as `InferenceFailure`,
/// never swallowed and never retried; this layer itself introduces no other
/// failure, so a conversation with zero turns still yields a reply whenever
/// the pass succeeds.
pub fn converse(
    model: &llm::models::Llama,
    conversation: &Conversation,
    max_tokens: Option<usize>,
) -> (r: Result<String, ConverseError>)
    ensures
        r matches Ok(reply) ==> exists|s: Seq<char>|
            reply@ == reply_text(s, user_marker()),
        r matches Err(e) ==> e is InferenceFailure,
{
    let prompt = compile(conversation);
    let stop = user_marker_text();
    proof {
        reveal_strlit("### Human");
    }
    let mut red = ResponseReducer::new(stop);
    let mut session = start_session(model);
    if let Err(msg) = feed_session_prompt(&mut session, model, prompt.as_str()) {
        return Err(ConverseError::InferenceFailure(msg));
    }
    match generate(&mut session, model, max_tokens, &mut red) {
        Ok(()) => {
            let outcome = red.finish();
            proof {
                let ghost s = red.fed_seq();
                assert(outcome.text@ == reply_text(s, user_marker()));
            }
            Ok(outcome.text)
        },
        Err(msg) => Err(ConverseError::InferenceFailure(msg)),
    }
}

} // verus!
