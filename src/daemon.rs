use vstd::prelude::*;
use vstd::string::*;

use crate::error::{ErrorKind, GmlError};
use crate::node::handle_delete_node;
use crate::provider::NodeProvider;
use crate::record::{
    cluster_read, cluster_record_readable, node_read, node_record_readable, state_read,
    state_record_readable, ClusterRecord, NodeRecord, StateRecord,
};
use crate::state::{
    has_cluster, has_node, lemma_node_index_unique, node_ids_unique, ClusterEntry, GmlState,
    NodeEntry,
};

verus! {

/// Seconds between two reconciliation ticks.
pub const TICK_INTERVAL_SECS: u64 = 60;

/// What became of one expired node during a tick: its id, and the provider's
/// error where the teardown failed (the node then stays, to be retried).
#[derive(Debug)]
pub struct DeletionOutcome {
    pub id: String,
    pub error: Option<GmlError>,
}

/// An expiry at or before `now` has passed.
pub open spec fn expired(timeout: Option<i64>, now: i64) -> bool {
    match timeout {
        Some(t) => t <= now,
        None => false,
    }
}

/// The node has expired and belongs to the provider called `provider`.
pub open spec fn node_due(e: NodeEntry, now: i64, provider: Seq<char>) -> bool {
    expired(e.timeout, now) && e.provider@ == provider
}

/// The report records a successful teardown of the node with this id.
pub open spec fn deleted_in(report: Seq<DeletionOutcome>, id: Seq<char>) -> bool {
    exists|k: int| 0 <= k < report.len() && #[trigger] report[k].id@ == id && report[k].error.is_none()
}

pub open spec fn outcome_id(o: DeletionOutcome) -> Seq<char> {
    o.id@
}

pub open spec fn entry_id(e: NodeEntry) -> Seq<char> {
    e.id@
}

pub open spec fn cluster_id(c: ClusterEntry) -> String {
    c.id
}

pub open spec fn cluster_expired(c: ClusterEntry, now: i64) -> bool {
    expired(c.timeout, now)
}

/// Whether an expiry has passed at `now`.
pub fn is_expired(timeout: Option<i64>, now: i64) -> (r: bool)
    ensures
        r == expired(timeout, now),
{
    match timeout {
        Some(t) => t <= now,
        None => false,
    }
}

proof fn lemma_filter_agree(
    s: Seq<NodeEntry>,
    p: spec_fn(NodeEntry) -> bool,
    q: spec_fn(NodeEntry) -> bool,
)
    requires
        forall|i: int| 0 <= i < s.len() ==> p(#[trigger] s[i]) == q(s[i]),
    ensures
        s.filter(p) == s.filter(q),
    decreases s.len(),
{
    reveal(Seq::filter);
    if s.len() > 0 {
        let init = s.drop_last();
        assert forall|i: int| 0 <= i < init.len() implies p(#[trigger] init[i]) == q(init[i]) by {
            assert(init[i] == s[i]);
        }
        lemma_filter_agree(init, p, q);
    }
}

proof fn lemma_filter_keeps_unique(s: Seq<NodeEntry>, p: spec_fn(NodeEntry) -> bool)
    requires
        node_ids_unique(s),
    ensures
        node_ids_unique(s.filter(p)),
        forall|a: int| 0 <= a < s.filter(p).len() ==> s.contains(#[trigger] s.filter(p)[a]),
    decreases s.len(),
{
    reveal(Seq::filter);
    if s.len() > 0 {
        let init = s.drop_last();
        let last = s.last();
        let n = init.len() as int;
        assert forall|a: int, b: int|
            0 <= a < init.len() && 0 <= b < init.len() && #[trigger] init[a].id@
                == #[trigger] init[b].id@ implies a == b by {
            assert(s[a].id@ == s[b].id@);
        }
        lemma_filter_keeps_unique(init, p);
        let f = init.filter(p);
        assert forall|a: int| 0 <= a < f.len() implies #[trigger] f[a].id@ != last.id@ by {
            assert(init.contains(f[a]));
            let j = choose|j: int| 0 <= j < init.len() && init[j] == f[a];
            assert(s[j] == init[j]);
            assert(s[n] == last);
        }
        assert forall|a: int| 0 <= a < f.len() implies s.contains(#[trigger] f[a]) by {
            assert(init.contains(f[a]));
            let j = choose|j: int| 0 <= j < init.len() && init[j] == f[a];
            assert(s[j] == init[j]);
        }
        if p(last) {
            assert(s.filter(p) == f.push(last));
            assert(s[n] == last);
            let g = f.push(last);
            assert forall|a: int, b: int|
                0 <= a < g.len() && 0 <= b < g.len() && #[trigger] g[a].id@ == #[trigger] g[b].id@ implies a
                == b by {
                if a < f.len() && b < f.len() {
                    assert(f[a].id@ == f[b].id@);
                } else if a < f.len() {
                    assert(f[a].id@ != last.id@);
                } else if b < f.len() {
                    assert(f[b].id@ != last.id@);
                }
            }
            assert forall|a: int| 0 <= a < g.len() implies s.contains(#[trigger] g[a]) by {
                if a < f.len() {
                    assert(s.contains(f[a]));
                } else {
                    assert(s[n] == g[a]);
                }
            }
        } else {
            assert(s.filter(p) == f);
        }
    }
}

/// One reconciliation tick for the provider called `provider_name`: every node
/// of that provider whose expiry has passed at `now` is deleted through
/// `handle_delete_node`, the same operation as an interactive delete, in
/// order. A failure stays with its node, which is kept for the next tick, and
/// stops nothing else. The report lists exactly the expired nodes of that
/// provider; the collection keeps exactly the nodes whose deletion it does not
/// record as done.
pub fn run_tick<P: NodeProvider>(
    state: &mut GmlState,
    now: i64,
    provider_name: &str,
    provider: &P,
) -> (r: Vec<DeletionOutcome>)
    requires
        old(state).wf(),
    ensures
        final(state).wf(),
        final(state).clusters@ == old(state).clusters@,
        r@.map_values(|o: DeletionOutcome| outcome_id(o)) == old(state).nodes@.filter(
            |e: NodeEntry| node_due(e, now, provider_name@),
        ).map_values(|e: NodeEntry| entry_id(e)),
        final(state).nodes@ == old(state).nodes@.filter(
            |e: NodeEntry| !deleted_in(r@, e.id@),
        ),
{
    let ghost nodes = state.nodes@;
    let ghost clusters = state.clusters@;
    let ghost due = |e: NodeEntry| node_due(e, now, provider_name@);
    let ghost id_of = |e: NodeEntry| entry_id(e);
    let ghost oid = |o: DeletionOutcome| outcome_id(o);
    let snapshot = state.list_nodes();
    let owner = String::from_str(provider_name);
    let mut report: Vec<DeletionOutcome> = Vec::new();
    let ghost mut source: Seq<int> = Seq::empty();
    let mut i: usize = 0;
    while i < snapshot.len()
        invariant
            snapshot@ == nodes,
            state.wf(),
            state.clusters@ == clusters,
            owner@ == provider_name@,
            node_ids_unique(nodes),
            i <= nodes.len(),
            due == (|e: NodeEntry| node_due(e, now, provider_name@)),
            id_of == (|e: NodeEntry| entry_id(e)),
            oid == (|o: DeletionOutcome| outcome_id(o)),
            source.len() == report@.len(),
            forall|k: int|
                0 <= k < report@.len() ==> 0 <= #[trigger] source[k] < i && report@[k].id@
                    == nodes[source[k]].id@,
            report@.map_values(oid) == nodes.subrange(0, i as int).filter(due).map_values(id_of),
            state.nodes@ == nodes.subrange(0, i as int).filter(
                |e: NodeEntry| !deleted_in(report@, e.id@),
            ) + nodes.subrange(i as int, nodes.len() as int),
        decreases nodes.len() - i,
    {
        let ghost prefix = nodes.subrange(0, i as int);
        let ghost rest = nodes.subrange(i as int, nodes.len() as int);
        let ghost node = nodes[i as int];
        let ghost old_report = report@;
        let ghost old_pred = |e: NodeEntry| !deleted_in(old_report, e.id@);
        let ghost kept = prefix.filter(old_pred);
        let ghost before = state.nodes@;
        proof {
            assert(prefix.push(node) == nodes.subrange(0, i + 1));
            assert(rest == seq![node] + nodes.subrange(i + 1, nodes.len() as int));
            prefix.lemma_filter_push(node, due);
            prefix.lemma_filter_push(node, old_pred);
            assert(!deleted_in(old_report, node.id@)) by {
                if deleted_in(old_report, node.id@) {
                    let k = choose|k: int|
                        0 <= k < old_report.len() && #[trigger] old_report[k].id@ == node.id@
                            && old_report[k].error.is_none();
                    assert(nodes[source[k]].id@ == nodes[i as int].id@);
                }
            }
            assert(before == kept.push(node) + nodes.subrange(i + 1, nodes.len() as int));
        }
        let entry = &snapshot[i];
        if is_expired(entry.timeout, now) && entry.provider == owner {
            proof {
                assert(before[kept.len() as int] == node);
                lemma_node_index_unique(before, node.id@, kept.len() as int);
            }
            let deleted = handle_delete_node(state, entry.id.as_str(), provider);
            let error = match deleted {
                Ok(_) => None,
                Err(e) => Some(e),
            };
            let removed = error.is_none();
            report.push(DeletionOutcome { id: entry.id.clone(), error });
            proof {
                source = source.push(i as int);
                let new_pred = |e: NodeEntry| !deleted_in(report@, e.id@);
                assert forall|j: int| 0 <= j < prefix.len() implies old_pred(#[trigger] prefix[j])
                    == new_pred(prefix[j]) by {
                    assert(prefix[j] == nodes[j]);
                    if deleted_in(report@, nodes[j].id@) {
                        let k = choose|k: int|
                            0 <= k < report@.len() && #[trigger] report@[k].id@ == nodes[j].id@
                                && report@[k].error.is_none();
                        if k == old_report.len() {
                            assert(nodes[j].id@ == nodes[i as int].id@);
                        } else {
                            assert(old_report[k] == report@[k]);
                        }
                    }
                    if deleted_in(old_report, nodes[j].id@) {
                        let k = choose|k: int|
                            0 <= k < old_report.len() && #[trigger] old_report[k].id@
                                == nodes[j].id@ && old_report[k].error.is_none();
                        assert(report@[k] == old_report[k]);
                    }
                }
                lemma_filter_agree(prefix, old_pred, new_pred);
                prefix.lemma_filter_push(node, new_pred);
                assert(report@.map_values(oid) =~= old_report.map_values(oid).push(node.id@));
                assert(prefix.filter(due).push(node).map_values(id_of) =~= prefix.filter(
                    due,
                ).map_values(id_of).push(node.id@));
                if removed {
                    assert(deleted_in(report@, node.id@)) by {
                        assert(report@[old_report.len() as int].id@ == node.id@);
                    }
                    assert(state.nodes@ =~= kept + nodes.subrange(i + 1, nodes.len() as int));
                } else {
                    assert(!deleted_in(report@, node.id@)) by {
                        if deleted_in(report@, node.id@) {
                            let k = choose|k: int|
                                0 <= k < report@.len() && #[trigger] report@[k].id@ == node.id@
                                    && report@[k].error.is_none();
                            if k < old_report.len() {
                                assert(old_report[k] == report@[k]);
                            }
                        }
                    }
                }
            }
        } else {
            proof {
                assert(kept.push(node) + nodes.subrange(i + 1, nodes.len() as int) =~= before);
            }
        }
        i = i + 1;
    }
    proof {
        assert(nodes.subrange(0, nodes.len() as int) == nodes);
        assert(state.nodes@ =~= nodes.filter(|e: NodeEntry| !deleted_in(report@, e.id@)));
    }
    report
}

/// Some record of the document reads as this node.
pub open spec fn read_from_some(records: Seq<NodeRecord>, e: NodeEntry) -> bool {
    exists|j: int| 0 <= j < records.len() && node_read(#[trigger] records[j], e)
}

/// Some record of the document reads as this cluster.
pub open spec fn cluster_read_from_some(records: Seq<ClusterRecord>, e: ClusterEntry) -> bool {
    exists|j: int| 0 <= j < records.len() && cluster_read(#[trigger] records[j], e)
}

/// The readable part of a store document, for a tick that must go on past
/// malformed entities: a document that `from_record` accepts gives exactly its
/// collection and no error. Otherwise every kept entity is read from a record,
/// every readable record's id is kept, and each record left out (an unreadable
/// instant, or an id seen before) gives one `Decode` error.
pub fn readable_part(rec: &StateRecord) -> (r: (GmlState, Vec<GmlError>))
    ensures
        r.0.wf(),
        state_record_readable(*rec) ==> state_read(*rec, r.0) && r.1@.len() == 0,
        forall|i: int|
            0 <= i < r.0.nodes@.len() ==> read_from_some(rec.nodes@, #[trigger] r.0.nodes@[i]),
        forall|j: int|
            0 <= j < rec.nodes@.len() && node_record_readable(#[trigger] rec.nodes@[j])
                ==> has_node(r.0.nodes@, rec.nodes@[j].id@),
        forall|i: int|
            0 <= i < r.0.clusters@.len() ==> cluster_read_from_some(rec.clusters@, #[trigger] r.0.clusters@[i]),
        forall|j: int|
            0 <= j < rec.clusters@.len() && cluster_record_readable(#[trigger] rec.clusters@[j])
                ==> has_cluster(r.0.clusters@, rec.clusters@[j].id@),
        forall|k: int| 0 <= k < r.1@.len() ==> (#[trigger] r.1@[k]).kind == ErrorKind::Decode,
{
    if let Ok(s) = GmlState::from_record(rec) {
        proof {
            assert forall|i: int| 0 <= i < s.nodes@.len() implies read_from_some(rec.nodes@, #[trigger] s.nodes@[i]) by {
                assert(node_read(rec.nodes@[i], s.nodes@[i]));
            }
            assert forall|j: int|
                0 <= j < rec.nodes@.len() && node_record_readable(#[trigger] rec.nodes@[j]) implies has_node(
                s.nodes@,
                rec.nodes@[j].id@,
            ) by {
                assert(node_read(rec.nodes@[j], s.nodes@[j]));
            }
            assert forall|i: int| 0 <= i < s.clusters@.len() implies cluster_read_from_some(rec.clusters@, #[trigger] s.clusters@[i]) by {
                assert(cluster_read(rec.clusters@[i], s.clusters@[i]));
            }
            assert forall|j: int|
                0 <= j < rec.clusters@.len() && cluster_record_readable(#[trigger] rec.clusters@[j]) implies has_cluster(
                s.clusters@,
                rec.clusters@[j].id@,
            ) by {
                assert(cluster_read(rec.clusters@[j], s.clusters@[j]));
            }
        }
        return (s, Vec::new());
    }
    let mut state = GmlState::new();
    let mut errors: Vec<GmlError> = Vec::new();
    let mut i: usize = 0;
    while i < rec.nodes.len()
        invariant
            state.wf(),
            state.clusters@.len() == 0,
            i <= rec.nodes@.len(),
            forall|a: int|
                0 <= a < state.nodes@.len() ==> read_from_some(rec.nodes@, #[trigger] state.nodes@[a]),
            forall|j: int|
                0 <= j < i && node_record_readable(#[trigger] rec.nodes@[j]) ==> has_node(
                    state.nodes@,
                    rec.nodes@[j].id@,
                ),
            forall|k: int| 0 <= k < errors@.len() ==> (#[trigger] errors@[k]).kind == ErrorKind::Decode,
        decreases rec.nodes@.len() - i,
    {
        let ghost before = state.nodes@;
        match rec.nodes[i].to_entry() {
            Ok(e) => {
                let ghost entry = e;
                let ghost key = e.id@;
                match state.add_node(e) {
                    Ok(()) => {
                        assert(state.nodes@[before.len() as int] == entry);
                        assert forall|a: int| 0 <= a < state.nodes@.len() implies read_from_some(rec.nodes@, #[trigger] state.nodes@[a]) by {
                            if a < before.len() {
                                assert(state.nodes@[a] == before[a]);
                            } else {
                                assert(node_read(rec.nodes@[i as int], state.nodes@[a]));
                            }
                        }
                        assert forall|j: int|
                            0 <= j < i + 1 && node_record_readable(#[trigger] rec.nodes@[j]) implies has_node(
                            state.nodes@,
                            rec.nodes@[j].id@,
                        ) by {
                            if j < i {
                                let w = choose|w: int| 0 <= w < before.len() && #[trigger] before[w].id@ == rec.nodes@[j].id@;
                                assert(state.nodes@[w] == before[w]);
                            } else {
                                assert(state.nodes@[before.len() as int].id@ == key);
                            }
                        }
                    },
                    Err(err) => {
                        errors.push(GmlError::new(ErrorKind::Decode, err.message));
                    },
                }
            },
            Err(err) => {
                errors.push(err);
            },
        }
        i = i + 1;
    }
    let mut k: usize = 0;
    while k < rec.clusters.len()
        invariant
            state.wf(),
            forall|a: int|
                0 <= a < state.nodes@.len() ==> read_from_some(rec.nodes@, #[trigger] state.nodes@[a]),
            forall|j: int|
                0 <= j < rec.nodes@.len() && node_record_readable(#[trigger] rec.nodes@[j]) ==> has_node(
                    state.nodes@,
                    rec.nodes@[j].id@,
                ),
            k <= rec.clusters@.len(),
            forall|a: int|
                0 <= a < state.clusters@.len() ==> cluster_read_from_some(rec.clusters@, #[trigger] state.clusters@[a]),
            forall|j: int|
                0 <= j < k && cluster_record_readable(#[trigger] rec.clusters@[j]) ==> has_cluster(
                    state.clusters@,
                    rec.clusters@[j].id@,
                ),
            forall|q: int| 0 <= q < errors@.len() ==> (#[trigger] errors@[q]).kind == ErrorKind::Decode,
        decreases rec.clusters@.len() - k,
    {
        let ghost before = state.clusters@;
        match rec.clusters[k].to_entry() {
            Ok(e) => {
                let ghost entry = e;
                let ghost key = e.id@;
                match state.add_cluster(e) {
                    Ok(()) => {
                        assert(state.clusters@[before.len() as int] == entry);
                        assert forall|a: int| 0 <= a < state.clusters@.len() implies cluster_read_from_some(rec.clusters@, #[trigger] state.clusters@[a]) by {
                            if a < before.len() {
                                assert(state.clusters@[a] == before[a]);
                            } else {
                                assert(cluster_read(rec.clusters@[k as int], state.clusters@[a]));
                            }
                        }
                        assert forall|j: int|
                            0 <= j < k + 1 && cluster_record_readable(#[trigger] rec.clusters@[j]) implies has_cluster(
                            state.clusters@,
                            rec.clusters@[j].id@,
                        ) by {
                            if j < k {
                                let w = choose|w: int| 0 <= w < before.len() && #[trigger] before[w].id@ == rec.clusters@[j].id@;
                                assert(state.clusters@[w] == before[w]);
                            } else {
                                assert(state.clusters@[before.len() as int].id@ == key);
                            }
                        }
                    },
                    Err(err) => {
                        errors.push(GmlError::new(ErrorKind::Decode, err.message));
                    },
                }
            },
            Err(err) => {
                errors.push(err);
            },
        }
        k = k + 1;
    }
    assert(!state_record_readable(*rec));
    (state, errors)
}

/// Takes the nodes that a tick deleted out of the store document itself, so
/// that entities the tick could not read are written back as they were.
pub fn drop_deleted_records(rec: &mut StateRecord, report: &Vec<DeletionOutcome>)
    ensures
        final(rec).nodes@ == old(rec).nodes@.filter(|n: NodeRecord| !deleted_in(report@, n.id@)),
        final(rec).clusters@ == old(rec).clusters@,
{
    let ghost nodes = rec.nodes@;
    let ghost keep = |n: NodeRecord| !deleted_in(report@, n.id@);
    let mut kept: Vec<NodeRecord> = Vec::new();
    let mut i: usize = 0;
    while i < rec.nodes.len()
        invariant
            rec.nodes@ == nodes,
            i <= nodes.len(),
            keep == (|n: NodeRecord| !deleted_in(report@, n.id@)),
            kept@ == nodes.subrange(0, i as int).filter(keep),
        decreases nodes.len() - i,
    {
        proof {
            nodes.subrange(0, i as int).lemma_filter_push(nodes[i as int], keep);
            assert(nodes.subrange(0, i as int).push(nodes[i as int]) == nodes.subrange(0, i + 1));
        }
        let id = rec.nodes[i].id.clone();
        if !was_deleted(report, &id) {
            kept.push(rec.nodes[i].duplicate());
        }
        i = i + 1;
    }
    assert(nodes.subrange(0, nodes.len() as int) == nodes);
    rec.nodes = kept;
}

/// Whether the report records a successful deletion of `id`.
pub fn was_deleted(report: &Vec<DeletionOutcome>, id: &String) -> (r: bool)
    ensures
        r == deleted_in(report@, id@),
{
    let mut k: usize = 0;
    while k < report.len()
        invariant
            k <= report@.len(),
            forall|q: int| 0 <= q < k ==> !(#[trigger] report@[q].id@ == id@ && report@[q].error.is_none()),
        decreases report@.len() - k,
    {
        if report[k].id == *id && report[k].error.is_none() {
            return true;
        }
        k = k + 1;
    }
    false
}

/// Ids of the clusters whose expiry has passed at `now`, in order. No backend
/// tears clusters down, so a tick reports them and changes nothing.
pub fn expired_cluster_ids(state: &GmlState, now: i64) -> (r: Vec<String>)
    ensures
        r@ == state.clusters@.filter(|c: ClusterEntry| cluster_expired(c, now)).map_values(
            |c: ClusterEntry| cluster_id(c),
        ),
{
    let ghost pred = |c: ClusterEntry| cluster_expired(c, now);
    let ghost name = |c: ClusterEntry| cluster_id(c);
    let mut out: Vec<String> = Vec::new();
    let mut i: usize = 0;
    while i < state.clusters.len()
        invariant
            i <= state.clusters@.len(),
            pred == (|c: ClusterEntry| cluster_expired(c, now)),
            name == (|c: ClusterEntry| cluster_id(c)),
            out@ == state.clusters@.subrange(0, i as int).filter(pred).map_values(name),
        decreases state.clusters@.len() - i,
    {
        let ghost prefix = state.clusters@.subrange(0, i as int);
        proof {
            prefix.lemma_filter_push(state.clusters@[i as int], pred);
            assert(prefix.push(state.clusters@[i as int]) == state.clusters@.subrange(0, i + 1));
        }
        if is_expired(state.clusters[i].timeout, now) {
            out.push(state.clusters[i].id.clone());
            assert(out@ =~= prefix.filter(pred).push(state.clusters@[i as int]).map_values(name));
        }
        i = i + 1;
    }
    assert(state.clusters@.subrange(0, state.clusters@.len() as int) == state.clusters@);
    out
}

/// A tick leaves every node that was not due untouched: a node that has not
/// expired, or that belongs to another provider, is still in the collection
/// afterwards, whatever the provider answered.
pub proof fn law_tick_keeps_undue(
    before: GmlState,
    after: GmlState,
    report: Seq<DeletionOutcome>,
    now: i64,
    provider_name: Seq<char>,
    e: NodeEntry,
)
    requires
        before.wf(),
        report.map_values(|o: DeletionOutcome| outcome_id(o)) == before.nodes@.filter(
            |x: NodeEntry| node_due(x, now, provider_name),
        ).map_values(|x: NodeEntry| entry_id(x)),
        after.nodes@ == before.nodes@.filter(|x: NodeEntry| !deleted_in(report, x.id@)),
        before.nodes@.contains(e),
        !node_due(e, now, provider_name),
    ensures
        after.nodes@.contains(e),
{
    broadcast use vstd::seq_lib::group_filter_ensures;

    let keep = |x: NodeEntry| !deleted_in(report, x.id@);
    let s = before.nodes@;
    let j = choose|j: int| 0 <= j < s.len() && s[j] == e;
    lemma_deleted_means_due(s, report, now, provider_name, j);
    assert(keep(s[j]));
}

/// With unique ids and a report of the due nodes, a node is recorded as torn
/// down exactly when it was due and its teardown succeeded.
proof fn lemma_deleted_means_due(
    s: Seq<NodeEntry>,
    report: Seq<DeletionOutcome>,
    now: i64,
    provider_name: Seq<char>,
    j: int,
)
    requires
        node_ids_unique(s),
        report.map_values(|o: DeletionOutcome| outcome_id(o)) == s.filter(
            |x: NodeEntry| node_due(x, now, provider_name),
        ).map_values(|x: NodeEntry| entry_id(x)),
        0 <= j < s.len(),
    ensures
        deleted_in(report, s[j].id@) ==> node_due(s[j], now, provider_name),
        node_due(s[j], now, provider_name) && (forall|k: int|
            0 <= k < report.len() ==> (#[trigger] report[k]).error.is_none()) ==> deleted_in(
            report,
            s[j].id@,
        ),
{
    broadcast use vstd::seq_lib::group_filter_ensures;

    let due = |x: NodeEntry| node_due(x, now, provider_name);
    let f = s.filter(due);
    assert(report.map_values(|o: DeletionOutcome| outcome_id(o)).len() == report.len());
    assert(f.map_values(|x: NodeEntry| entry_id(x)).len() == f.len());
    lemma_filter_keeps_unique(s, due);
    if deleted_in(report, s[j].id@) {
        let k = choose|k: int| 0 <= k < report.len() && #[trigger] report[k].id@ == s[j].id@
            && report[k].error.is_none();
        assert(report.map_values(|o: DeletionOutcome| outcome_id(o))[k] == report[k].id@);
        assert(f.map_values(|x: NodeEntry| entry_id(x))[k] == f[k].id@);
        assert(due(f[k]));
        let m = choose|m: int| 0 <= m < s.len() && s[m] == f[k];
        assert(s[m].id@ == s[j].id@);
    }
    if node_due(s[j], now, provider_name) && (forall|k: int|
        0 <= k < report.len() ==> (#[trigger] report[k]).error.is_none()) {
        assert(due(s[j]));
        assert(f.contains(s[j]));
        let k = choose|k: int| 0 <= k < f.len() && f[k] == s[j];
        assert(f.map_values(|x: NodeEntry| entry_id(x))[k] == f[k].id@);
        assert(report.map_values(|o: DeletionOutcome| outcome_id(o))[k] == report[k].id@);
        assert(report[k].id@ == s[j].id@ && report[k].error.is_none());
    }
}

/// A tick against a provider that accepts every teardown removes exactly the
/// nodes of that provider whose expiry has passed, and keeps all others in order.
pub proof fn law_tick_removes_exactly_due(
    before: GmlState,
    after: GmlState,
    report: Seq<DeletionOutcome>,
    now: i64,
    provider_name: Seq<char>,
)
    requires
        before.wf(),
        report.map_values(|o: DeletionOutcome| outcome_id(o)) == before.nodes@.filter(
            |x: NodeEntry| node_due(x, now, provider_name),
        ).map_values(|x: NodeEntry| entry_id(x)),
        after.nodes@ == before.nodes@.filter(|x: NodeEntry| !deleted_in(report, x.id@)),
        forall|k: int| 0 <= k < report.len() ==> (#[trigger] report[k]).error.is_none(),
    ensures
        after.nodes@ == before.nodes@.filter(|x: NodeEntry| !node_due(x, now, provider_name)),
{
    let s = before.nodes@;
    let p = |x: NodeEntry| !deleted_in(report, x.id@);
    let q = |x: NodeEntry| !node_due(x, now, provider_name);
    assert forall|j: int| 0 <= j < s.len() implies p(#[trigger] s[j]) == q(s[j]) by {
        lemma_deleted_means_due(s, report, now, provider_name, j);
    }
    lemma_filter_agree(s, p, q);
}

} // verus!
