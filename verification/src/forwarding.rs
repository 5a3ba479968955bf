//! The rule that hands containers which are no guests to the fallback
//! container runtime: pause containers, and what the redirect table lists.

use crate::frontend::{json_as_array, json_as_str, json_at2, json_content, json_contents, JsonTree};
use crate::text::{chars_of, occurs_at, occurs_at_index};
use vstd::prelude::*;

verus! {

/// `needle` occurs somewhere in `hay`.
pub open spec fn contains_text(hay: Seq<char>, needle: Seq<char>) -> bool {
    exists|i: int| occurs_at(hay, needle, i)
}

/// Whether `needle` occurs somewhere in `hay`.
pub fn text_contains(hay: &Vec<char>, needle: &Vec<char>) -> (r: bool)
    ensures
        r == contains_text(hay@, needle@),
{
    let mut i: usize = 0;
    while i < hay.len()
        invariant
            i <= hay.len(),
            forall|k: int| 0 <= k < i ==> !occurs_at(hay@, needle@, k),
        decreases hay.len() - i,
    {
        if occurs_at_index(hay, needle, i) {
            return true;
        }
        i += 1;
    }
    occurs_at_index(hay, needle, i)
}

/// The configuration starts a pause container: one of the arguments of its
/// process is `/pause`.
pub open spec fn is_pause(config: JsonTree) -> bool {
    match config.at(seq!["process"@, "args"@]) {
        Some(JsonTree::Array(items)) => exists|i: int|
            0 <= i < items.len() && (#[trigger] items[i]) == JsonTree::Text("/pause"@),
        _ => false,
    }
}

/// Some line of the redirect table holds the identifier.
pub open spec fn listed(table: Seq<String>, id: Seq<char>) -> bool {
    exists|i: int| 0 <= i < table.len() && contains_text((#[trigger] table[i])@, id)
}

/// What to do with a container.
#[derive(Clone, Copy, Debug, PartialEq, Eq, Structural)]
pub struct Forwarding {
    /// Hand the command to the fallback runtime.
    pub forward: bool,
    /// Add the container to the redirect table first.
    pub record: bool,
}

/// Whether the configuration starts a pause container.
pub fn starts_pause(config: &serde_json::Value) -> (r: bool)
    ensures
        r == is_pause(json_content(*config)),
{
    let args = match json_at2(config, "process", "args") {
        Some(v) => match json_as_array(v) {
            Some(items) => items,
            None => {
                return false;
            },
        },
        None => {
            return false;
        },
    };
    let ghost items = json_contents(args@);
    let pause = chars_of("/pause");
    let mut i: usize = 0;
    while i < args.len()
        invariant
            i <= args.len(),
            items == json_contents(args@),
            json_content(*config).at(seq!["process"@, "args"@]) == Some(JsonTree::Array(items)),
            pause@ == "/pause"@,
            forall|k: int| 0 <= k < i ==> (#[trigger] items[k]) != JsonTree::Text("/pause"@),
        decreases args.len() - i,
    {
        match json_as_str(&args[i]) {
            Some(s) => {
                let chars = chars_of(s.as_str());
                if crate::text::same_chars(&chars, &pause) {
                    assert(items[i as int] == JsonTree::Text("/pause"@));
                    return true;
                }
            },
            None => {},
        }
        i += 1;
    }
    false
}

/// Decides whether a container belongs to the fallback runtime. A pause
/// container does, and is entered into the redirect table; so does every
/// container that the table lists already.
pub fn need_forward_to_runc(
    config: &serde_json::Value,
    containerid: &str,
    redirect_table: &Vec<String>,
) -> (r: Forwarding)
    ensures
        r.record == is_pause(json_content(*config)),
        r.forward == (is_pause(json_content(*config)) || listed(redirect_table@, containerid@)),
{
    if starts_pause(config) {
        return Forwarding { forward: true, record: true };
    }
    let id = chars_of(containerid);
    let mut i: usize = 0;
    while i < redirect_table.len()
        invariant
            i <= redirect_table.len(),
            id@ == containerid@,
            !is_pause(json_content(*config)),
            forall|k: int|
                0 <= k < i ==> !contains_text((#[trigger] redirect_table@[k])@, containerid@),
        decreases redirect_table.len() - i,
    {
        let line = chars_of(redirect_table[i].as_str());
        if text_contains(&line, &id) {
            return Forwarding { forward: true, record: false };
        }
        i += 1;
    }
    Forwarding { forward: false, record: false }
}

/// The lines of `table` that do not hold the identifier, in their order.
pub open spec fn unlisted(table: Seq<String>, id: Seq<char>) -> Seq<Seq<char>>
    decreases table.len(),
{
    if table.len() == 0 {
        Seq::<Seq<char>>::empty()
    } else if contains_text(table.last()@, id) {
        unlisted(table.drop_last(), id)
    } else {
        unlisted(table.drop_last(), id).push(table.last()@)
    }
}

/// The redirect table after a container was deleted: every line that holds
/// its identifier is gone.
pub fn delete_entry_table(redirect_table: &Vec<String>, containerid: &str) -> (r: Vec<String>)
    ensures
        crate::document::strings_view(r@) == unlisted(redirect_table@, containerid@),
{
    let id = chars_of(containerid);
    let mut out: Vec<String> = Vec::new();
    let mut i: usize = 0;
    assert(redirect_table@.take(0) =~= Seq::<String>::empty());
    assert(crate::document::strings_view(out@) =~= Seq::<Seq<char>>::empty());
    while i < redirect_table.len()
        invariant
            i <= redirect_table.len(),
            id@ == containerid@,
            crate::document::strings_view(out@) == unlisted(
                redirect_table@.take(i as int),
                containerid@,
            ),
        decreases redirect_table.len() - i,
    {
        proof {
            assert(redirect_table@.take(i + 1).drop_last() =~= redirect_table@.take(i as int));
            assert(redirect_table@.take(i + 1).last() == redirect_table@[i as int]);
        }
        let line = chars_of(redirect_table[i].as_str());
        if !text_contains(&line, &id) {
            let ghost before = crate::document::strings_view(out@);
            out.push(redirect_table[i].clone());
            assert(crate::document::strings_view(out@) =~= before.push(redirect_table@[i as int]@));
        }
        i += 1;
    }
    assert(redirect_table@.take(redirect_table.len() as int) =~= redirect_table@);
    out
}

} // verus!
