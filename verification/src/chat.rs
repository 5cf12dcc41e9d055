//! Qwen2.5 ChatML prompt formatting.
//!
//! The instruct models are trained on a specific chat layout; wrapping a user
//! turn in it (rather than feeding a raw string) is the difference between the
//! model completing your text and answering you. Generation then stops on the
//! `<|im_end|>` token that closes the assistant turn.

use vstd::prelude::*;

verus! {

/// The ChatML text of one system turn and one user turn, followed by the
/// opening of the assistant turn.
pub open spec fn chatml_text(system: Seq<char>, user: Seq<char>) -> Seq<char> {
    "<|im_start|>system\n"@ + system + "<|im_end|>\n<|im_start|>user\n"@ + user
        + "<|im_end|>\n<|im_start|>assistant\n"@
}

/// Wrap a user message in Qwen's ChatML template with the given system prompt.
pub fn chatml(system: &str, user: &str) -> (r: String)
    ensures
        r@ == chatml_text(system@, user@),
{
    let mut out = String::from_str("<|im_start|>system\n");
    out.append(system);
    out.append("<|im_end|>\n<|im_start|>user\n");
    out.append(user);
    out.append("<|im_end|>\n<|im_start|>assistant\n");
    out
}

} // verus!
