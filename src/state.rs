use vstd::prelude::*;
use vstd::string::*;

use crate::error::{ErrorKind, GmlError};

verus! {

/// A provisioned node. Times are whole seconds since the Unix epoch, UTC.
#[derive(Debug, PartialEq, Eq)]
pub struct NodeEntry {
    /// Store key, unique among nodes.
    pub id: String,
    /// The id under which the provider addresses the instance.
    pub provider_id: String,
    /// Network address of the instance.
    pub ip: String,
    /// Name of the provider backend that owns the instance.
    pub provider: String,
    pub instance_type: String,
    /// Remote login account.
    pub user: String,
    pub created_at: i64,
    /// Absolute expiry; `None` never expires.
    pub timeout: Option<i64>,
}

/// A cluster of nodes, tracked as a member count.
#[derive(Debug, PartialEq, Eq)]
pub struct ClusterEntry {
    /// Store key, unique among clusters.
    pub id: String,
    pub provider: String,
    pub created_at: i64,
    pub node_count: usize,
    /// Absolute expiry; `None` never expires.
    pub timeout: Option<i64>,
}

/// The whole persisted collection: nodes and clusters, each in insertion order.
#[derive(Debug, PartialEq, Eq)]
pub struct GmlState {
    pub nodes: Vec<NodeEntry>,
    pub clusters: Vec<ClusterEntry>,
}

impl NodeEntry {
    pub fn duplicate(&self) -> (r: NodeEntry)
        ensures
            r == *self,
    {
        NodeEntry {
            id: self.id.clone(),
            provider_id: self.provider_id.clone(),
            ip: self.ip.clone(),
            provider: self.provider.clone(),
            instance_type: self.instance_type.clone(),
            user: self.user.clone(),
            created_at: self.created_at,
            timeout: self.timeout,
        }
    }
}

impl ClusterEntry {
    pub fn duplicate(&self) -> (r: ClusterEntry)
        ensures
            r == *self,
    {
        ClusterEntry {
            id: self.id.clone(),
            provider: self.provider.clone(),
            created_at: self.created_at,
            node_count: self.node_count,
            timeout: self.timeout,
        }
    }
}

/// No two nodes share an id.
pub open spec fn node_ids_unique(nodes: Seq<NodeEntry>) -> bool {
    forall|i: int, j: int|
        0 <= i < nodes.len() && 0 <= j < nodes.len() && #[trigger] nodes[i].id@ == #[trigger] nodes[j].id@
            ==> i == j
}

/// No two clusters share an id.
pub open spec fn cluster_ids_unique(clusters: Seq<ClusterEntry>) -> bool {
    forall|i: int, j: int|
        0 <= i < clusters.len() && 0 <= j < clusters.len() && #[trigger] clusters[i].id@
            == #[trigger] clusters[j].id@ ==> i == j
}

pub open spec fn has_node(nodes: Seq<NodeEntry>, id: Seq<char>) -> bool {
    exists|i: int| 0 <= i < nodes.len() && #[trigger] nodes[i].id@ == id
}

pub open spec fn has_cluster(clusters: Seq<ClusterEntry>, id: Seq<char>) -> bool {
    exists|i: int| 0 <= i < clusters.len() && #[trigger] clusters[i].id@ == id
}

/// Position of the node with the given id (meaningful when `has_node`).
pub open spec fn node_index(nodes: Seq<NodeEntry>, id: Seq<char>) -> int {
    choose|i: int| 0 <= i < nodes.len() && #[trigger] nodes[i].id@ == id
}

/// Position of the cluster with the given id (meaningful when `has_cluster`).
pub open spec fn cluster_index(clusters: Seq<ClusterEntry>, id: Seq<char>) -> int {
    choose|i: int| 0 <= i < clusters.len() && #[trigger] clusters[i].id@ == id
}

/// The node stored under `id`, if any.
pub open spec fn node_lookup(nodes: Seq<NodeEntry>, id: Seq<char>) -> Option<NodeEntry> {
    if has_node(nodes, id) {
        Some(nodes[node_index(nodes, id)])
    } else {
        None
    }
}

/// The cluster stored under `id`, if any.
pub open spec fn cluster_lookup(clusters: Seq<ClusterEntry>, id: Seq<char>) -> Option<ClusterEntry> {
    if has_cluster(clusters, id) {
        Some(clusters[cluster_index(clusters, id)])
    } else {
        None
    }
}

pub open spec fn node_with_timeout(e: NodeEntry, timeout: Option<i64>) -> NodeEntry {
    NodeEntry { timeout, ..e }
}

pub open spec fn cluster_with_timeout(e: ClusterEntry, timeout: Option<i64>) -> ClusterEntry {
    ClusterEntry { timeout, ..e }
}

/// In a collection with unique ids, the entity found at a position holding `id`
/// is the one that lookup names.
pub proof fn lemma_node_index_unique(nodes: Seq<NodeEntry>, id: Seq<char>, i: int)
    requires
        node_ids_unique(nodes),
        0 <= i < nodes.len(),
        nodes[i].id@ == id,
    ensures
        has_node(nodes, id),
        node_index(nodes, id) == i,
        node_lookup(nodes, id) == Some(nodes[i]),
{
    let k = node_index(nodes, id);
    assert(nodes[k].id@ == nodes[i].id@);
}

pub proof fn lemma_cluster_index_unique(clusters: Seq<ClusterEntry>, id: Seq<char>, i: int)
    requires
        cluster_ids_unique(clusters),
        0 <= i < clusters.len(),
        clusters[i].id@ == id,
    ensures
        has_cluster(clusters, id),
        cluster_index(clusters, id) == i,
        cluster_lookup(clusters, id) == Some(clusters[i]),
{
    let k = cluster_index(clusters, id);
    assert(clusters[k].id@ == clusters[i].id@);
}

/// Position of the first node with the given id.
fn find_node(nodes: &Vec<NodeEntry>, id: &str) -> (r: Option<usize>)
    ensures
        match r {
            Some(i) => i < nodes@.len() && nodes@[i as int].id@ == id@,
            None => !has_node(nodes@, id@),
        },
{
    let key = String::from_str(id);
    let mut i: usize = 0;
    while i < nodes.len()
        invariant
            key@ == id@,
            i <= nodes@.len(),
            forall|j: int| 0 <= j < i ==> #[trigger] nodes@[j].id@ != id@,
        decreases nodes@.len() - i,
    {
        if nodes[i].id == key {
            return Some(i);
        }
        i = i + 1;
    }
    None
}

/// Position of the first cluster with the given id.
fn find_cluster(clusters: &Vec<ClusterEntry>, id: &str) -> (r: Option<usize>)
    ensures
        match r {
            Some(i) => i < clusters@.len() && clusters@[i as int].id@ == id@,
            None => !has_cluster(clusters@, id@),
        },
{
    let key = String::from_str(id);
    let mut i: usize = 0;
    while i < clusters.len()
        invariant
            key@ == id@,
            i <= clusters@.len(),
            forall|j: int| 0 <= j < i ==> #[trigger] clusters@[j].id@ != id@,
        decreases clusters@.len() - i,
    {
        if clusters[i].id == key {
            return Some(i);
        }
        i = i + 1;
    }
    None
}

impl Default for GmlState {
    fn default() -> (r: GmlState)
        ensures
            r.wf(),
            r.nodes@.len() == 0,
            r.clusters@.len() == 0,
    {
        GmlState::new()
    }
}

impl GmlState {
    /// Ids are unique among nodes and among clusters.
    pub open spec fn wf(&self) -> bool {
        node_ids_unique(self.nodes@) && cluster_ids_unique(self.clusters@)
    }

    /// The empty collection, as on first run.
    pub fn new() -> (r: GmlState)
        ensures
            r.wf(),
            r.nodes@.len() == 0,
            r.clusters@.len() == 0,
    {
        GmlState { nodes: Vec::new(), clusters: Vec::new() }
    }

    /// Adds a node; fails with `DuplicateKey`, changing nothing, when its id is taken.
    pub fn add_node(&mut self, entry: NodeEntry) -> (r: Result<(), GmlError>)
        requires
            old(self).wf(),
        ensures
            final(self).wf(),
            r.is_ok() == !has_node(old(self).nodes@, entry.id@),
            r.is_ok() ==> final(self).nodes@ == old(self).nodes@.push(entry),
            r.is_err() ==> r->Err_0.kind == ErrorKind::DuplicateKey && final(self).nodes@
                == old(self).nodes@,
            final(self).clusters@ == old(self).clusters@,
    {
        match find_node(&self.nodes, entry.id.as_str()) {
            Some(_) => Err(
                GmlError::about(ErrorKind::DuplicateKey, "node already exists: ", entry.id.as_str()),
            ),
            None => {
                self.nodes.push(entry);
                Ok(())
            },
        }
    }

    /// Removes the node stored under `id`; fails with `NotFound`, changing nothing,
    /// when there is none.
    pub fn remove_node(&mut self, id: &str) -> (r: Result<(), GmlError>)
        requires
            old(self).wf(),
        ensures
            final(self).wf(),
            r.is_ok() == has_node(old(self).nodes@, id@),
            r.is_ok() ==> final(self).nodes@ == old(self).nodes@.remove(
                node_index(old(self).nodes@, id@),
            ),
            r.is_err() ==> r->Err_0.kind == ErrorKind::NotFound && final(self).nodes@
                == old(self).nodes@,
            final(self).clusters@ == old(self).clusters@,
    {
        match find_node(&self.nodes, id) {
            Some(i) => {
                proof {
                    lemma_node_index_unique(self.nodes@, id@, i as int);
                }
                let ghost before = self.nodes@;
                self.nodes.remove(i);
                assert forall|a: int, b: int|
                    0 <= a < self.nodes@.len() && 0 <= b < self.nodes@.len()
                        && #[trigger] self.nodes@[a].id@ == #[trigger] self.nodes@[b].id@ implies a
                    == b by {
                    let a0 = if a < i { a } else { a + 1 };
                    let b0 = if b < i { b } else { b + 1 };
                    assert(before[a0].id@ == before[b0].id@);
                }
                Ok(())
            },
            None => Err(GmlError::about(ErrorKind::NotFound, "node not found: ", id)),
        }
    }

    /// The node stored under `id`, if any.
    pub fn get_node(&self, id: &str) -> (r: Option<NodeEntry>)
        requires
            self.wf(),
        ensures
            r == node_lookup(self.nodes@, id@),
    {
        match find_node(&self.nodes, id) {
            Some(i) => {
                proof {
                    lemma_node_index_unique(self.nodes@, id@, i as int);
                }
                Some(self.nodes[i].duplicate())
            },
            None => None,
        }
    }

    /// All nodes, in insertion order.
    pub fn list_nodes(&self) -> (r: Vec<NodeEntry>)
        ensures
            r@ == self.nodes@,
    {
        let mut out: Vec<NodeEntry> = Vec::new();
        let mut i: usize = 0;
        while i < self.nodes.len()
            invariant
                i <= self.nodes@.len(),
                out@ == self.nodes@.subrange(0, i as int),
            decreases self.nodes@.len() - i,
        {
            out.push(self.nodes[i].duplicate());
            i = i + 1;
        }
        assert(out@ == self.nodes@);
        out
    }

    /// Sets or clears the expiry of the node stored under `id`; fails with
    /// `NotFound`, changing nothing, when there is none.
    pub fn update_node_timeout(&mut self, id: &str, timeout: Option<i64>) -> (r: Result<(), GmlError>)
        requires
            old(self).wf(),
        ensures
            final(self).wf(),
            r.is_ok() == has_node(old(self).nodes@, id@),
            r.is_ok() ==> final(self).nodes@ == old(self).nodes@.update(
                node_index(old(self).nodes@, id@),
                node_with_timeout(old(self).nodes@[node_index(old(self).nodes@, id@)], timeout),
            ),
            r.is_err() ==> r->Err_0.kind == ErrorKind::NotFound && final(self).nodes@
                == old(self).nodes@,
            final(self).clusters@ == old(self).clusters@,
    {
        match find_node(&self.nodes, id) {
            Some(i) => {
                proof {
                    lemma_node_index_unique(self.nodes@, id@, i as int);
                }
                let ghost before = self.nodes@;
                let mut e = self.nodes[i].duplicate();
                e.timeout = timeout;
                self.nodes.set(i, e);
                assert forall|a: int, b: int|
                    0 <= a < self.nodes@.len() && 0 <= b < self.nodes@.len()
                        && #[trigger] self.nodes@[a].id@ == #[trigger] self.nodes@[b].id@ implies a
                    == b by {
                    assert(before[a].id@ == before[b].id@);
                }
                Ok(())
            },
            None => Err(GmlError::about(ErrorKind::NotFound, "node not found: ", id)),
        }
    }

    /// Adds a cluster; fails with `DuplicateKey`, changing nothing, when its id is taken.
    pub fn add_cluster(&mut self, entry: ClusterEntry) -> (r: Result<(), GmlError>)
        requires
            old(self).wf(),
        ensures
            final(self).wf(),
            r.is_ok() == !has_cluster(old(self).clusters@, entry.id@),
            r.is_ok() ==> final(self).clusters@ == old(self).clusters@.push(entry),
            r.is_err() ==> r->Err_0.kind == ErrorKind::DuplicateKey && final(self).clusters@
                == old(self).clusters@,
            final(self).nodes@ == old(self).nodes@,
    {
        match find_cluster(&self.clusters, entry.id.as_str()) {
            Some(_) => Err(
                GmlError::about(
                    ErrorKind::DuplicateKey,
                    "cluster already exists: ",
                    entry.id.as_str(),
                ),
            ),
            None => {
                self.clusters.push(entry);
                Ok(())
            },
        }
    }

    /// Removes the cluster stored under `id`; fails with `NotFound`, changing
    /// nothing, when there is none.
    pub fn remove_cluster(&mut self, id: &str) -> (r: Result<(), GmlError>)
        requires
            old(self).wf(),
        ensures
            final(self).wf(),
            r.is_ok() == has_cluster(old(self).clusters@, id@),
            r.is_ok() ==> final(self).clusters@ == old(self).clusters@.remove(
                cluster_index(old(self).clusters@, id@),
            ),
            r.is_err() ==> r->Err_0.kind == ErrorKind::NotFound && final(self).clusters@
                == old(self).clusters@,
            final(self).nodes@ == old(self).nodes@,
    {
        match find_cluster(&self.clusters, id) {
            Some(i) => {
                proof {
                    lemma_cluster_index_unique(self.clusters@, id@, i as int);
                }
                let ghost before = self.clusters@;
                self.clusters.remove(i);
                assert forall|a: int, b: int|
                    0 <= a < self.clusters@.len() && 0 <= b < self.clusters@.len()
                        && #[trigger] self.clusters@[a].id@ == #[trigger] self.clusters@[b].id@ implies a
                    == b by {
                    let a0 = if a < i { a } else { a + 1 };
                    let b0 = if b < i { b } else { b + 1 };
                    assert(before[a0].id@ == before[b0].id@);
                }
                Ok(())
            },
            None => Err(GmlError::about(ErrorKind::NotFound, "cluster not found: ", id)),
        }
    }

    /// The cluster stored under `id`, if any.
    pub fn get_cluster(&self, id: &str) -> (r: Option<ClusterEntry>)
        requires
            self.wf(),
        ensures
            r == cluster_lookup(self.clusters@, id@),
    {
        match find_cluster(&self.clusters, id) {
            Some(i) => {
                proof {
                    lemma_cluster_index_unique(self.clusters@, id@, i as int);
                }
                Some(self.clusters[i].duplicate())
            },
            None => None,
        }
    }

    /// All clusters, in insertion order.
    pub fn list_clusters(&self) -> (r: Vec<ClusterEntry>)
        ensures
            r@ == self.clusters@,
    {
        let mut out: Vec<ClusterEntry> = Vec::new();
        let mut i: usize = 0;
        while i < self.clusters.len()
            invariant
                i <= self.clusters@.len(),
                out@ == self.clusters@.subrange(0, i as int),
            decreases self.clusters@.len() - i,
        {
            out.push(self.clusters[i].duplicate());
            i = i + 1;
        }
        assert(out@ == self.clusters@);
        out
    }

    /// Sets or clears the expiry of the cluster stored under `id`; fails with
    /// `NotFound`, changing nothing, when there is none.
    pub fn update_cluster_timeout(&mut self, id: &str, timeout: Option<i64>) -> (r: Result<(), GmlError>)
        requires
            old(self).wf(),
        ensures
            final(self).wf(),
            r.is_ok() == has_cluster(old(self).clusters@, id@),
            r.is_ok() ==> final(self).clusters@ == old(self).clusters@.update(
                cluster_index(old(self).clusters@, id@),
                cluster_with_timeout(
                    old(self).clusters@[cluster_index(old(self).clusters@, id@)],
                    timeout,
                ),
            ),
            r.is_err() ==> r->Err_0.kind == ErrorKind::NotFound && final(self).clusters@
                == old(self).clusters@,
            final(self).nodes@ == old(self).nodes@,
    {
        match find_cluster(&self.clusters, id) {
            Some(i) => {
                proof {
                    lemma_cluster_index_unique(self.clusters@, id@, i as int);
                }
                let ghost before = self.clusters@;
                let mut e = self.clusters[i].duplicate();
                e.timeout = timeout;
                self.clusters.set(i, e);
                assert forall|a: int, b: int|
                    0 <= a < self.clusters@.len() && 0 <= b < self.clusters@.len()
                        && #[trigger] self.clusters@[a].id@ == #[trigger] self.clusters@[b].id@ implies a
                    == b by {
                    assert(before[a].id@ == before[b].id@);
                }
                Ok(())
            },
            None => Err(GmlError::about(ErrorKind::NotFound, "cluster not found: ", id)),
        }
    }
}

} // verus!
