//! The ordered maps of a workflow.
//!
//! A map holds its entries in the order in which they were inserted, and no
//! key twice.

use indexmap::IndexMap;
use vstd::prelude::*;

use super::model::{AgentConfig, Snippet};
use crate::text::texts;

verus! {

/// `indexmap::IndexMap`, a map that keeps its entries in insertion order.
#[verifier::external_type_specification]
#[verifier::external_body]
#[verifier::reject_recursive_types(K)]
#[verifier::reject_recursive_types(V)]
#[verifier::reject_recursive_types(S)]
pub struct ExIndexMap<K, V, S>(IndexMap<K, V, S>);

/// `IndexMap::clone`, on which the `Clone` impls of the types that hold a map
/// rest. Nothing is claimed of it.
pub assume_specification<K, V, S>[ <IndexMap<K, V, S> as Clone>::clone ](
    map: &IndexMap<K, V, S>,
) -> (r: IndexMap<K, V, S>) where K: Clone, V: Clone, S: Clone
;

/// The agents that a map holds, by name and in order.
pub uninterp spec fn agent_entries(map: IndexMap<String, AgentConfig>) -> Seq<
    (Seq<char>, AgentConfig),
>;

/// The snippets that a map holds, by name and in order.
pub uninterp spec fn snippet_entries(map: IndexMap<String, Snippet>) -> Seq<(Seq<char>, Snippet)>;

/// The environment variables that a map holds, in order.
pub uninterp spec fn env_entries(map: IndexMap<String, String>) -> Seq<(Seq<char>, Seq<char>)>;

/// The value that `key` has among `entries`.
pub open spec fn lookup<V>(entries: Seq<(Seq<char>, V)>, key: Seq<char>) -> Option<V>
    decreases entries.len(),
{
    if entries.len() == 0 {
        None
    } else if entries[0].0 == key {
        Some(entries[0].1)
    } else {
        lookup(entries.drop_first(), key)
    }
}

/// The names among `entries`, in order.
pub open spec fn names<V>(entries: Seq<(Seq<char>, V)>) -> Seq<Seq<char>> {
    entries.map_values(|entry: (Seq<char>, V)| entry.0)
}

/// A name has a value exactly when it is among the names.
pub proof fn lemma_lookup_names<V>(entries: Seq<(Seq<char>, V)>, key: Seq<char>)
    ensures
        lookup(entries, key) is Some <==> names(entries).contains(key),
        lookup(entries, key) is Some ==> exists|i: int|
            0 <= i < entries.len() && entries[i] == (key, lookup(entries, key)->0),
    decreases entries.len(),
{
    if entries.len() > 0 {
        let rest = entries.drop_first();
        lemma_lookup_names(rest, key);
        if entries[0].0 == key {
            assert(names(entries)[0] == key);
            assert(entries[0] == (key, lookup(entries, key)->0));
        } else {
            if names(rest).contains(key) {
                let i = choose|i: int| 0 <= i < names(rest).len() && names(rest)[i] == key;
                assert(names(entries)[i + 1] == key);
                let j = choose|j: int|
                    0 <= j < rest.len() && rest[j] == (key, lookup(rest, key)->0);
                assert(entries[j + 1] == (key, lookup(entries, key)->0));
            }
            if names(entries).contains(key) {
                let i = choose|i: int| 0 <= i < names(entries).len() && names(entries)[i] == key;
                assert(names(rest)[i - 1] == key);
            }
        }
    }
}

/// `IndexMap::get` on the agents: the configuration stored under `name`, if
/// there is one.
#[verifier::external_body]
pub(crate) fn agent_named<'a>(map: &'a IndexMap<String, AgentConfig>, name: &str) -> (r: Option<
    &'a AgentConfig,
>)
    ensures
        match r {
            Some(agent) => lookup(agent_entries(*map), name@) == Some(*agent),
            None => lookup(agent_entries(*map), name@) is None,
        },
{
    map.get(name)
}

/// `IndexMap::keys` on the agents: their names, in the order of the map.
#[verifier::external_body]
pub(crate) fn agent_names(map: &IndexMap<String, AgentConfig>) -> (r: Vec<String>)
    ensures
        texts(r@) == names(agent_entries(*map)),
{
    map.keys().cloned().collect()
}

/// `IndexMap::is_empty` on the agents: whether the map holds none.
#[verifier::external_body]
pub(crate) fn no_agents(map: &IndexMap<String, AgentConfig>) -> (r: bool)
    ensures
        r == (agent_entries(*map).len() == 0),
{
    map.is_empty()
}

/// `IndexMap::len` on the agents: how many the map holds.
#[verifier::external_body]
pub(crate) fn agent_count(map: &IndexMap<String, AgentConfig>) -> (r: usize)
    ensures
        r == agent_entries(*map).len(),
{
    map.len()
}

/// `IndexMap::get` on the snippets: the snippet stored under `name`, if there
/// is one.
#[verifier::external_body]
pub(crate) fn snippet_named<'a>(map: &'a IndexMap<String, Snippet>, name: &str) -> (r: Option<
    &'a Snippet,
>)
    ensures
        match r {
            Some(snippet) => lookup(snippet_entries(*map), name@) == Some(*snippet),
            None => lookup(snippet_entries(*map), name@) is None,
        },
{
    map.get(name)
}

/// `IndexMap::contains_key` on the snippets: whether one is stored under
/// `name`.
#[verifier::external_body]
pub(crate) fn has_snippet(map: &IndexMap<String, Snippet>, name: &str) -> (r: bool)
    ensures
        r == lookup(snippet_entries(*map), name@) is Some,
{
    map.contains_key(name)
}

/// `IndexMap::values` on the snippets: each of them, in the order of the map.
#[verifier::external_body]
pub(crate) fn all_snippets(map: &IndexMap<String, Snippet>) -> (r: Vec<&Snippet>)
    ensures
        r@.len() == snippet_entries(*map).len(),
        forall|i: int| 0 <= i < r@.len() ==> *#[trigger] r@[i] == snippet_entries(*map)[i].1,
{
    map.values().collect()
}

/// `IndexMap::iter` on environment variables: names with values, in the order
/// of the map.
#[verifier::external_body]
pub(crate) fn env_pairs(map: &IndexMap<String, String>) -> (r: Vec<(String, String)>)
    ensures
        r@.len() == env_entries(*map).len(),
        forall|i: int|
            0 <= i < r@.len() ==> ((#[trigger] r@[i]).0@, r@[i].1@) == env_entries(*map)[i],
{
    map.iter().map(|(name, value)| (name.clone(), value.clone())).collect()
}

} // verus!
