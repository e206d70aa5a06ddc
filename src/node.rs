use vstd::prelude::*;
use vstd::string::*;

use crate::error::{ErrorKind, GmlError};
use crate::provider::{NodeDetails, NodeProvider, NodeRequest};
use crate::state::{
    has_node, lemma_node_index_unique, node_index, node_lookup, node_with_timeout, GmlState,
    NodeEntry,
};
use crate::time::{expiry_after, parse_timeout_duration, timeout_seconds, MAX_STORED_INSTANT};

verus! {

/// The expiry `now` plus the duration that `text` gives; `None` where the text
/// is not a duration or the sum lies after `MAX_STORED_INSTANT`.
pub open spec fn reset_expiry(text: Seq<char>, now: i64) -> Option<i64> {
    match timeout_seconds(text) {
        Some(d) => if now + d <= MAX_STORED_INSTANT {
            Some((now + d) as i64)
        } else {
            None
        },
        None => None,
    }
}

/// The expiry that a create request with timeout text `text` at `now` sets:
/// none for an empty text, else `reset_expiry`. `None` where that fails.
pub open spec fn planned_expiry(text: Seq<char>, now: i64) -> Option<Option<i64>> {
    if text.len() == 0 {
        Some(None)
    } else {
        match reset_expiry(text, now) {
            Some(t) => Some(Some(t)),
            None => None,
        }
    }
}

/// The entry that a create records: keyed and addressed by the provider's id.
pub open spec fn created_entry(
    e: NodeEntry,
    provider_name: String,
    instance_type: String,
    text: Seq<char>,
    now: i64,
) -> bool {
    &&& e.provider_id == e.id
    &&& e.provider == provider_name
    &&& e.instance_type == instance_type
    &&& e.created_at == now
    &&& planned_expiry(text, now) == Some(e.timeout)
}

fn reset_expiry_of(duration: &str, now: i64) -> (r: Result<i64, GmlError>)
    ensures
        match r {
            Ok(t) => reset_expiry(duration@, now) == Some(t),
            Err(e) => reset_expiry(duration@, now).is_none() && e.kind == ErrorKind::InvalidDuration,
        },
{
    match parse_timeout_duration(duration) {
        Some(d) => match expiry_after(now, d) {
            Some(t) => Ok(t),
            None => Err(GmlError::about(ErrorKind::InvalidDuration, "timeout too far ahead: ", duration)),
        },
        None => Err(GmlError::about(ErrorKind::InvalidDuration, "invalid duration format: ", duration)),
    }
}

/// The expiry of a node created at `now` with timeout text `timeout`: none for
/// an empty text, else `now` plus the duration. Fails with `InvalidDuration`
/// exactly where the text is not a duration or the expiry lies after
/// `MAX_STORED_INSTANT`.
pub fn plan_expiry(timeout: &str, now: i64) -> (r: Result<Option<i64>, GmlError>)
    ensures
        match r {
            Ok(t) => planned_expiry(timeout@, now) == Some(t),
            Err(e) => planned_expiry(timeout@, now).is_none() && e.kind == ErrorKind::InvalidDuration,
        },
{
    if timeout.unicode_len() == 0 {
        return Ok(None);
    }
    match reset_expiry_of(timeout, now) {
        Ok(t) => Ok(Some(t)),
        Err(e) => Err(e),
    }
}

/// The request handed to the provider: one instance of `instance_type`.
pub fn node_request(instance_type: String) -> (r: NodeRequest)
    ensures
        r.instance_type == instance_type,
{
    NodeRequest { instance_type }
}

/// Creates a node through `provider` and records it, the remote creation first.
/// `now` is the time of the request and becomes the creation time. The expiry
/// is planned before the provider is called: an empty timeout text sets none,
/// and a text that `plan_expiry` refuses fails with `InvalidDuration` before
/// anything else. The provider is asked for `node_request(instance_type)`, then
/// for its login account, and `record_started_node` decides from what they
/// returned. On every failure the collection is left as it was.
pub fn handle_create_node<P: NodeProvider>(
    state: &mut GmlState,
    provider: &P,
    provider_name: String,
    instance_type: String,
    timeout: &str,
    now: i64,
) -> (r: Result<NodeEntry, GmlError>)
    requires
        old(state).wf(),
    ensures
        final(state).wf(),
        final(state).clusters@ == old(state).clusters@,
        r is Err ==> final(state).nodes@ == old(state).nodes@,
        (r matches Err(e) && e.kind == ErrorKind::InvalidDuration) <== planned_expiry(
            timeout@,
            now,
        ).is_none(),
        r matches Ok(e) ==> created_entry(e, provider_name, instance_type, timeout@, now)
            && !has_node(old(state).nodes@, e.id@) && final(state).nodes@ == old(
            state,
        ).nodes@.push(e),
{
    let expiry = plan_expiry(timeout, now)?;
    let started = provider.start_node(node_request(instance_type.clone()));
    let user = match &started {
        Ok(_) => provider.get_user(),
        Err(_) => Ok(String::new()),
    };
    record_started_node(state, started, user, provider_name, instance_type, now, expiry)
}

/// Decides a create from what the provider returned: an error from
/// `start_node`, else one from `get_user`, becomes the result with the
/// collection unchanged; otherwise the node is recorded as `record_created_node` does.
pub fn record_started_node(
    state: &mut GmlState,
    started: Result<NodeDetails, GmlError>,
    user: Result<String, GmlError>,
    provider_name: String,
    instance_type: String,
    now: i64,
    expiry: Option<i64>,
) -> (r: Result<NodeEntry, GmlError>)
    requires
        old(state).wf(),
    ensures
        final(state).wf(),
        final(state).clusters@ == old(state).clusters@,
        started matches Err(e) ==> r == Err::<NodeEntry, GmlError>(e) && final(state).nodes@
            == old(state).nodes@,
        (started is Ok && user is Err) ==> r == Err::<NodeEntry, GmlError>(user->Err_0)
            && final(state).nodes@ == old(state).nodes@,
        (started is Ok && user is Ok) ==> {
            &&& r.is_ok() == !has_node(old(state).nodes@, started->Ok_0.id@)
            &&& r matches Err(e) ==> e.kind == ErrorKind::DuplicateKey && final(state).nodes@
                == old(state).nodes@
            &&& r matches Ok(e) ==> e == (NodeEntry {
                id: started->Ok_0.id,
                provider_id: started->Ok_0.id,
                ip: started->Ok_0.ip,
                provider: provider_name,
                instance_type,
                user: user->Ok_0,
                created_at: now,
                timeout: expiry,
            }) && final(state).nodes@ == old(state).nodes@.push(e)
        },
{
    match started {
        Err(e) => Err(e),
        Ok(details) => match user {
            Err(e) => Err(e),
            Ok(u) => record_created_node(state, details, u, provider_name, instance_type, now, expiry),
        },
    }
}

/// Records a node that the provider has created: keyed and addressed by the
/// provider's id, created at `now`, expiring at `expiry`. Fails with
/// `DuplicateKey`, changing nothing, when the id is already stored.
pub fn record_created_node(
    state: &mut GmlState,
    details: NodeDetails,
    user: String,
    provider_name: String,
    instance_type: String,
    now: i64,
    expiry: Option<i64>,
) -> (r: Result<NodeEntry, GmlError>)
    requires
        old(state).wf(),
    ensures
        final(state).wf(),
        final(state).clusters@ == old(state).clusters@,
        r.is_ok() == !has_node(old(state).nodes@, details.id@),
        r matches Err(e) ==> e.kind == ErrorKind::DuplicateKey && final(state).nodes@ == old(
            state,
        ).nodes@,
        r matches Ok(e) ==> e == (NodeEntry {
            id: details.id,
            provider_id: details.id,
            ip: details.ip,
            provider: provider_name,
            instance_type,
            user,
            created_at: now,
            timeout: expiry,
        }) && final(state).nodes@ == old(state).nodes@.push(e),
{
    let entry = NodeEntry {
        id: details.id.clone(),
        provider_id: details.id,
        ip: details.ip,
        provider: provider_name,
        instance_type,
        user,
        created_at: now,
        timeout: expiry,
    };
    let recorded = entry.duplicate();
    state.add_node(entry)?;
    Ok(recorded)
}

/// What the provider is asked to tear down for a stored node: its provider id
/// and its address.
pub fn teardown_details(e: &NodeEntry) -> (r: NodeDetails)
    ensures
        r.id == e.provider_id,
        r.ip == e.ip,
{
    NodeDetails { id: e.provider_id.clone(), ip: e.ip.clone() }
}

/// Finishes a delete from what `stop_node` returned for the stored node `id`:
/// an error becomes the result with the collection unchanged, so that the
/// delete can be retried; a confirmation removes the node and is returned.
pub fn finish_delete(state: &mut GmlState, id: &str, stopped: Result<NodeDetails, GmlError>) -> (r:
    Result<NodeDetails, GmlError>)
    requires
        old(state).wf(),
        has_node(old(state).nodes@, id@),
    ensures
        final(state).wf(),
        final(state).clusters@ == old(state).clusters@,
        r == stopped,
        stopped is Err ==> final(state).nodes@ == old(state).nodes@,
        stopped is Ok ==> final(state).nodes@ == old(state).nodes@.remove(
            node_index(old(state).nodes@, id@),
        ),
{
    match stopped {
        Err(e) => Err(e),
        Ok(d) => {
            let removed = state.remove_node(id);
            assert(removed.is_ok());
            Ok(d)
        },
    }
}

/// Deletes the node stored under `id` through `provider`, the remote teardown
/// first: fails with `NotFound`, without calling the provider, when there is
/// none; otherwise asks `stop_node` for `teardown_details` of the node and lets
/// `finish_delete` decide from its answer.
pub fn handle_delete_node<P: NodeProvider>(state: &mut GmlState, id: &str, provider: &P) -> (r:
    Result<NodeDetails, GmlError>)
    requires
        old(state).wf(),
    ensures
        final(state).wf(),
        final(state).clusters@ == old(state).clusters@,
        !has_node(old(state).nodes@, id@) ==> (r matches Err(e) && e.kind == ErrorKind::NotFound),
        r is Err ==> final(state).nodes@ == old(state).nodes@,
        r is Ok ==> has_node(old(state).nodes@, id@) && final(state).nodes@ == old(
            state,
        ).nodes@.remove(node_index(old(state).nodes@, id@)),
{
    let node = match state.get_node(id) {
        Some(n) => n,
        None => {
            return Err(GmlError::about(ErrorKind::NotFound, "node not found: ", id));
        },
    };
    let stopped = provider.stop_node(teardown_details(&node));
    finish_delete(state, id, stopped)
}

/// Sets the expiry of the node stored under `id` to `now` plus `duration`.
/// Fails with `NotFound` when there is none, else with `InvalidDuration` when
/// the text is not a duration or the expiry lies after `MAX_STORED_INSTANT`;
/// on failure nothing changes.
pub fn handle_node_timeout_reset(state: &mut GmlState, id: &str, duration: &str, now: i64) -> (r:
    Result<(), GmlError>)
    requires
        old(state).wf(),
    ensures
        final(state).wf(),
        final(state).clusters@ == old(state).clusters@,
        r.is_ok() == (has_node(old(state).nodes@, id@) && reset_expiry(duration@, now).is_some()),
        r matches Err(e) ==> final(state).nodes@ == old(state).nodes@ && e.kind == (if !has_node(
            old(state).nodes@,
            id@,
        ) {
            ErrorKind::NotFound
        } else {
            ErrorKind::InvalidDuration
        }),
        r is Ok ==> final(state).nodes@ == old(state).nodes@.update(
            node_index(old(state).nodes@, id@),
            node_with_timeout(
                old(state).nodes@[node_index(old(state).nodes@, id@)],
                reset_expiry(duration@, now),
            ),
        ),
{
    if state.get_node(id).is_none() {
        return Err(GmlError::about(ErrorKind::NotFound, "node not found: ", id));
    }
    let expiry = reset_expiry_of(duration, now)?;
    state.update_node_timeout(id, Some(expiry))
}

/// Clears the expiry of the node stored under `id`, so that it never expires;
/// fails with `NotFound`, changing nothing, when there is none.
pub fn handle_node_timeout_remove(state: &mut GmlState, id: &str) -> (r: Result<(), GmlError>)
    requires
        old(state).wf(),
    ensures
        final(state).wf(),
        final(state).clusters@ == old(state).clusters@,
        r.is_ok() == has_node(old(state).nodes@, id@),
        r matches Err(e) ==> final(state).nodes@ == old(state).nodes@ && e.kind
            == ErrorKind::NotFound,
        r is Ok ==> final(state).nodes@ == old(state).nodes@.update(
            node_index(old(state).nodes@, id@),
            node_with_timeout(old(state).nodes@[node_index(old(state).nodes@, id@)], None),
        ),
{
    state.update_node_timeout(id, None)
}

/// The SSH destination `user@address` of the node stored under `id`; fails with
/// `NotFound` when there is none.
pub fn handle_connect_command(state: &GmlState, id: &str) -> (r: Result<String, GmlError>)
    requires
        state.wf(),
    ensures
        r.is_ok() == has_node(state.nodes@, id@),
        r matches Ok(s) ==> s@ == node_lookup(state.nodes@, id@)->Some_0.user@ + "@"@
            + node_lookup(state.nodes@, id@)->Some_0.ip@,
        r matches Err(e) ==> e.kind == ErrorKind::NotFound,
{
    match state.get_node(id) {
        Some(n) => Ok(n.user.concat("@").concat(n.ip.as_str())),
        None => Err(GmlError::about(ErrorKind::NotFound, "node not found: ", id)),
    }
}

/// After a successful create, looking the new node up gives it back, its expiry
/// being its creation time plus the requested duration, or absent when no
/// duration was given.
pub proof fn law_create_then_get(
    before: GmlState,
    after: GmlState,
    e: NodeEntry,
    provider_name: String,
    instance_type: String,
    timeout: Seq<char>,
    now: i64,
)
    requires
        before.wf(),
        created_entry(e, provider_name, instance_type, timeout, now),
        !has_node(before.nodes@, e.id@),
        after.nodes@ == before.nodes@.push(e),
    ensures
        node_lookup(after.nodes@, e.id@) == Some(e),
        e.created_at == now,
        timeout.len() == 0 ==> e.timeout.is_none(),
        timeout.len() > 0 ==> (timeout_seconds(timeout) matches Some(d) && e.timeout == Some(
            (e.created_at + d) as i64,
        )),
{
    let n = before.nodes@.len() as int;
    assert(after.nodes@[n] == e);
    assert forall|i: int, j: int|
        0 <= i < after.nodes@.len() && 0 <= j < after.nodes@.len() && #[trigger] after.nodes@[i].id@
            == #[trigger] after.nodes@[j].id@ implies i == j by {
        if i < n && j < n {
            assert(before.nodes@[i].id@ == before.nodes@[j].id@);
        } else if i < n {
            assert(before.nodes@[i].id@ == e.id@);
        } else if j < n {
            assert(before.nodes@[j].id@ == e.id@);
        }
    }
    lemma_node_index_unique(after.nodes@, e.id@, n);
}

} // verus!
