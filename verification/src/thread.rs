//! Thread resolution: which stored session an inbound message belongs to.
//!
//! The thread store maps message identifiers to session identifiers. It is
//! modelled here as a map; the store itself is kept by the caller.

use crate::message::{Message, MessageView};
use crate::text::views;
use vstd::prelude::*;

verus! {

/// The thread store as a mapping from message identifier to session identifier.
pub type Store = Map<Seq<char>, Seq<char>>;

/// The identifiers under which the thread of a message is looked for, in order:
/// its references from the newest to the oldest, without the last one, which is
/// the message itself; then the message it answers, where it names one other
/// than itself.
pub open spec fn lookup_order(message: MessageView) -> Seq<Seq<char>> {
    let count = if message.references.len() == 0 {
        0
    } else {
        message.references.len() - 1
    };
    let ancestors = Seq::new(count as nat, |i: int| message.references[count - 1 - i]);
    match message.in_reply_to {
        Some(id) => if id != message.message_id {
            ancestors.push(id)
        } else {
            ancestors
        },
        None => ancestors,
    }
}

/// The session stored under the first of `keys[from..]` that the store holds.
pub open spec fn stored_session(store: Store, keys: Seq<Seq<char>>, from: int) -> Option<
    Seq<char>,
>
    decreases keys.len() - from,
{
    if from < 0 || from >= keys.len() {
        None
    } else if store.contains_key(keys[from]) {
        Some(store[keys[from]])
    } else {
        stored_session(store, keys, from + 1)
    }
}

/// The session a message resolves to: the stored session of its nearest known
/// ancestor, or the newly minted one where the store knows none.
pub open spec fn resolved_session(store: Store, message: MessageView, minted: Seq<char>) -> Seq<
    char,
> {
    match stored_session(store, lookup_order(message), 0) {
        Some(session) => session,
        None => minted,
    }
}

/// The store once the message's own identifier is recorded under its session.
pub open spec fn store_after(store: Store, message: MessageView, minted: Seq<char>) -> Store {
    store.insert(message.message_id, resolved_session(store, message, minted))
}

/// The identifiers under which the thread of `message` is looked for, in order.
pub fn lookup_keys(message: &Message) -> (keys: Vec<String>)
    ensures
        views(keys@) == lookup_order(message@),
{
    let mut keys: Vec<String> = Vec::new();
    let total: usize = message.references.len();
    let count: usize = if total == 0 {
        0
    } else {
        total - 1
    };
    let mut i: usize = 0;
    while i < count
        invariant
            i <= count,
            total == message.references.len(),
            count == if total == 0 {
                0
            } else {
                total - 1
            },
            keys@.len() == i,
            forall|k: int|
                0 <= k < i ==> (#[trigger] keys@[k])@ == message.references@[count - 1 - k]@,
        decreases count - i,
    {
        keys.push(message.references[count - 1 - i].clone());
        i += 1;
    }
    let ghost ancestors = Seq::new(
        count as nat,
        |i: int| message@.references[count - 1 - i],
    );
    proof {
        assert(views(keys@) =~= ancestors);
    }
    if let Some(id) = &message.in_reply_to {
        if !same_text(id, &message.message_id) {
            proof {
                assert(views(keys@.push(*id)) =~= ancestors.push(id@));
            }
            keys.push(id.clone());
        }
    }
    keys
}

/// Whether two strings hold the same characters.
fn same_text(a: &String, b: &String) -> (same: bool)
    ensures
        same == (a@ == b@),
{
    *a == *b
}

/// No key at or after `from` is in the store exactly when no session is found there.
pub proof fn lemma_stored_session_none(store: Store, keys: Seq<Seq<char>>, from: int)
    requires
        0 <= from,
    ensures
        stored_session(store, keys, from) is None <==> forall|i: int|
            from <= i < keys.len() ==> !store.contains_key(#[trigger] keys[i]),
    decreases keys.len() - from,
{
    if from < keys.len() {
        lemma_stored_session_none(store, keys, from + 1);
    }
}

/// A message whose direct predecessor is in the store resolves to that
/// predecessor's session, whatever was minted; afterward the store holds the
/// message's own identifier under that session, and every other entry as before.
pub proof fn lemma_known_parent_resolves(store: Store, message: MessageView, minted: Seq<char>)
    requires
        message.references.len() >= 2,
        message.references.last() == message.message_id,
        store.contains_key(message.references[message.references.len() - 2]),
    ensures
        resolved_session(store, message, minted) == store[message.references[
            message.references.len() - 2]],
        store_after(store, message, minted).contains_key(message.message_id),
        store_after(store, message, minted)[message.message_id] == store[message.references[
            message.references.len() - 2]],
        forall|key: Seq<char>|
            key != message.message_id ==> (store_after(store, message, minted).contains_key(key)
                <==> store.contains_key(key)),
        forall|key: Seq<char>|
            key != message.message_id && store.contains_key(key) ==> store_after(
                store,
                message,
                minted,
            )[key] == store[key],
{
    let keys = lookup_order(message);
    assert(keys[0] == message.references[message.references.len() - 2]);
}

/// A message none of whose ancestors is in the store resolves to the minted
/// session. Where the minted session is not yet in the store, the message's
/// session differs from every stored one. Afterward the store holds the
/// message's own identifier under the minted session.
pub proof fn lemma_new_thread_is_minted(store: Store, message: MessageView, minted: Seq<char>)
    requires
        forall|i: int|
            0 <= i < lookup_order(message).len() ==> !store.contains_key(
                #[trigger] lookup_order(message)[i],
            ),
        forall|key: Seq<char>| store.contains_key(key) ==> store[key] != minted,
    ensures
        resolved_session(store, message, minted) == minted,
        forall|key: Seq<char>|
            store.contains_key(key) ==> store[key] != resolved_session(store, message, minted),
        store_after(store, message, minted).contains_key(message.message_id),
        store_after(store, message, minted)[message.message_id] == minted,
{
    lemma_stored_session_none(store, lookup_order(message), 0);
}

/// Resolution is a function of the store and the message: the same store and the
/// same message give the same session whenever an ancestor is known.
pub proof fn lemma_resolution_ignores_minted(
    store: Store,
    message: MessageView,
    first: Seq<char>,
    second: Seq<char>,
)
    requires
        stored_session(store, lookup_order(message), 0) is Some,
    ensures
        resolved_session(store, message, first) == resolved_session(store, message, second),
{
}

} // verus!
