//! The table in which a persistent server keeps, per client id, the channel
//! to the task that writes that client's responses: the struct's
//! `__client_channels` field.
use vstd::prelude::*;
use std::collections::HashMap;
use crate::error::RpcError;

verus! {

broadcast use vstd::std_specs::hash::group_hash_axioms;

/// The channel that a response to client `id` goes to, if the table holds one.
pub open spec fn lookup_result<S>(table: Map<u64, S>, id: u64) -> Option<S> {
    if table.contains_key(id) {
        Some(table[id])
    } else {
        None
    }
}

/// Records the channel of a newly connected client; a client that connects
/// again under the same id replaces its earlier channel.
pub fn register<S>(table: &mut HashMap<u64, S>, id: u64, sender: S)
    ensures
        final(table)@ == old(table)@.insert(id, sender),
{
    table.insert(id, sender);
}

/// The channel of client `id`; `MissingClient` where no client has that id.
pub fn lookup<S>(table: &HashMap<u64, S>, id: u64) -> (r: Result<&S, RpcError>)
    ensures
        match r {
            Ok(s) => lookup_result(table@, id) == Some(*s),
            Err(e) => lookup_result(table@, id) is None && e is MissingClient,
        },
{
    match table.get(&id) {
        Some(s) => Ok(s),
        None => Err(RpcError::MissingClient),
    }
}

/// A client's channel, once registered, is what a response to that client is
/// sent on, until the client registers again; registering one client leaves
/// the lookup of every other client unchanged.
pub proof fn lemma_register_lookup<S>(table: Map<u64, S>, id: u64, sender: S, other: u64)
    requires
        other != id,
    ensures
        lookup_result(table.insert(id, sender), id) == Some(sender),
        lookup_result(table.insert(id, sender), other) == lookup_result(table, other),
{
}

} // verus!
