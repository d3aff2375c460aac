//! The sticky-lane hint.
use crate::codec::{json_text, print};
use crate::json::{items_view, lemma_items_view, Json, JsonV};
use crate::text::{or_empty, owned_or_empty};
use std::hash::Hasher;
use std::collections::hash_map::DefaultHasher;
use vstd::prelude::*;
use vstd::std_specs::hash::DefaultHasherAdditionalSpecFns;
use vstd::utf8::encode_utf8;

verus! {

broadcast use vstd::string::group_string_axioms;

/// The writes that hash a text: its bytes, then a byte that no text has.
pub open spec fn hashed_text(writes: Seq<Seq<u8>>, s: Seq<char>) -> Seq<Seq<u8>> {
    writes.push(encode_utf8(s)).push(seq![0xffu8])
}

/// The writes that hash messages, in order.
pub open spec fn hashed_messages(writes: Seq<Seq<u8>>, messages: Seq<JsonV>) -> Seq<Seq<u8>>
    decreases messages.len(),
{
    if messages.len() == 0 {
        writes
    } else {
        hashed_text(
            hashed_messages(writes, messages.drop_last()),
            json_text(messages.last()),
        )
    }
}

/// The first two of a list.
pub open spec fn first_two(messages: Seq<JsonV>) -> Seq<JsonV> {
    if messages.len() <= 2 {
        messages
    } else {
        messages.take(2)
    }
}

/// The conversation's identity: the model and the first two messages.
pub open spec fn conversation_writes(body: JsonV) -> Seq<Seq<u8>> {
    hashed_messages(
        hashed_text(Seq::empty(), or_empty(body.get_str("model"@))),
        first_two(body.list("messages"@)),
    )
}

fn hash_text(h: &mut DefaultHasher, s: &str)
    ensures
        final(h)@ == hashed_text(old(h)@, s@),
{
    h.write(s.as_bytes());
    let mut end: Vec<u8> = Vec::new();
    end.push(0xff);
    assert(end@ == seq![0xffu8]);
    h.write(end.as_slice());
}

/// The lane a conversation sticks to, given its hash.
pub fn lane_of(hash: u64, lanes: usize) -> (r: usize)
    requires
        lanes > 0,
    ensures
        r == hash as nat % lanes as nat,
        r < lanes,
{
    (hash % lanes as u64) as usize
}

/// Sticky-lane hint: hash the conversation's identity (model + the first two
/// messages — typically the system prompt and first user turn, stable across
/// every turn of an agent session) so a conversation keeps hitting the same
/// key while it has capacity, keeping any upstream prefix cache warm. Purely
/// an optimization; correctness never depends on which key serves a request.
pub fn affinity(body: &Json, lanes: usize) -> (r: Option<usize>)
    requires
        lanes > 0,
    ensures
        r is Some <==> body@.get_array("messages"@) is Some,
        r is Some ==> r->0 == DefaultHasher::spec_finish(conversation_writes(body@)) as nat
            % lanes as nat,
        r is Some ==> r->0 < lanes,
{
    let messages = match body.get_array("messages") {
        Some(messages) => messages,
        None => {
            return None;
        },
    };
    let ghost all = items_view(messages@);
    let mut h = DefaultHasher::new();
    let model = owned_or_empty(body.get_str("model"));
    hash_text(&mut h, model.as_str());
    let ghost start = h@;
    let mut i: usize = 0;
    assert(all.take(0) == Seq::<JsonV>::empty());
    while i < messages.len() && i < 2
        invariant
            i <= messages@.len(),
            i <= 2,
            all == items_view(messages@),
            h@ == hashed_messages(start, all.take(i as int)),
        decreases messages@.len() - i,
    {
        proof {
            lemma_items_view(messages@);
            assert(all.take(i + 1).drop_last() == all.take(i as int));
            assert(all.take(i + 1).last() == messages@[i as int]@);
        }
        hash_text(&mut h, print(&messages[i]).as_str());
        i = i + 1;
    }
    proof {
        lemma_items_view(messages@);
        assert(all.take(all.len() as int) == all);
        assert(first_two(all) == all.take(i as int));
    }
    Some(lane_of(h.finish(), lanes))
}

}
