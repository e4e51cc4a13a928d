//! What the tools and the roles of agents are called in messages, on the
//! command line and in generated files.
//!
//! Each has a key, whose words an underscore parts; its name is the first word.

use vstd::prelude::*;

use crate::text::{
    ascii_lowered, characters, find, first_position, lemma_first_position,
    lemma_first_position_unique, text_between, to_ascii_lower,
};
use crate::workflow::model::ConductorAgent;

verus! {

/// The key of the role of an agent that reviews.
pub const REVIEW_ROLE: &'static str = "reviewer_agent";

/// The key of a tool.
pub open spec fn tool_key(tool: ConductorAgent) -> Seq<char> {
    match tool {
        ConductorAgent::ClaudeCode => "Claude_CLI"@,
        ConductorAgent::OpenAiCodex => "Codex_CLI"@,
    }
}

/// The first of the words that underscores part.
pub open spec fn first_word(key: Seq<char>) -> Seq<char> {
    key.subrange(0, first_position(key, '_'))
}

/// What a tool is called in messages.
pub open spec fn product_of(tool: ConductorAgent) -> Seq<char> {
    first_word(tool_key(tool))
}

/// The command that starts a tool, which is also what its agent is called in
/// generated workflows.
pub open spec fn command_of(tool: ConductorAgent) -> Seq<char> {
    ascii_lowered(product_of(tool))
}

/// What the role of an agent that reviews is called.
pub open spec fn review_role() -> Seq<char> {
    first_word(REVIEW_ROLE@)
}

/// The first word of a key is what stands before its first underscore.
pub proof fn law_first_word(word: Seq<char>, rest: Seq<char>)
    requires
        forall|i: int| 0 <= i < word.len() ==> #[trigger] word[i] != '_',
    ensures
        first_word(word + seq!['_'] + rest) == word,
        first_word(word) == word,
{
    let key = word + seq!['_'] + rest;
    let n = word.len() as int;
    assert forall|i: int| 0 <= i < n implies key[i] != '_' by {
        assert(key[i] == word[i]);
    }
    assert(key[n] == '_');
    lemma_first_position_unique(key, '_', n);
    lemma_first_position_unique(word, '_', n);
    assert(key.subrange(0, n) =~= word);
    assert(word.subrange(0, n) =~= word);
}

/// The command of a tool is its name in lower case.
pub proof fn law_commands_are_names(tool: ConductorAgent)
    ensures
        command_of(tool) == ascii_lowered(product_of(tool)),
        product_of(ConductorAgent::ClaudeCode) == first_word("Claude_CLI"@),
        product_of(ConductorAgent::OpenAiCodex) == first_word("Codex_CLI"@),
        review_role() == first_word("reviewer_agent"@),
{
}

/// The first of the words that underscores part.
fn first_word_of(key: &str) -> (r: String)
    ensures
        r@ == first_word(key@),
{
    let chars = characters(key);
    let end = find(&chars, '_');
    proof {
        lemma_first_position(chars@, '_');
    }
    text_between(&chars, 0, end)
}

/// What a tool is called in messages.
pub fn product_name(tool: ConductorAgent) -> (r: String)
    ensures
        r@ == product_of(tool),
{
    match tool {
        ConductorAgent::ClaudeCode => first_word_of("Claude_CLI"),
        ConductorAgent::OpenAiCodex => first_word_of("Codex_CLI"),
    }
}

/// The command that starts a tool.
pub fn command_name(tool: ConductorAgent) -> (r: String)
    ensures
        r@ == command_of(tool),
{
    to_ascii_lower(product_name(tool).as_str())
}

/// What the role of an agent that reviews is called.
pub fn review_role_name() -> (r: String)
    ensures
        r@ == review_role(),
{
    first_word_of(REVIEW_ROLE)
}

} // verus!
