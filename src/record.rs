use vstd::prelude::*;

use crate::error::{ErrorKind, GmlError};
use crate::state::{ClusterEntry, GmlState, NodeEntry};
use crate::time::{
    parse_timestamp, rfc3339_seconds, rfc3339_text, storable, timestamp_text, MAX_STORED_INSTANT,
    MIN_STORED_INSTANT,
};

verus! {

/// A node as the store file writes it: instants as RFC 3339 texts.
#[derive(Debug, PartialEq, Eq)]
pub struct NodeRecord {
    pub id: String,
    pub provider_id: String,
    pub ip: String,
    pub provider: String,
    pub instance_type: String,
    pub user: String,
    pub created_at: String,
    pub timeout: Option<String>,
}

/// A cluster as the store file writes it: instants as RFC 3339 texts.
#[derive(Debug, PartialEq, Eq)]
pub struct ClusterRecord {
    pub id: String,
    pub provider: String,
    pub created_at: String,
    pub node_count: usize,
    pub timeout: Option<String>,
}

/// The store file's document: the nodes and the clusters, in order.
#[derive(Debug, PartialEq, Eq)]
pub struct StateRecord {
    pub nodes: Vec<NodeRecord>,
    pub clusters: Vec<ClusterRecord>,
}

/// `text` is how the file writes the optional instant `t`.
pub open spec fn optional_time_written(t: Option<i64>, text: Option<String>) -> bool {
    match (t, text) {
        (None, None) => true,
        (Some(v), Some(s)) => rfc3339_text(v) == Some(s@),
        _ => false,
    }
}

/// `t` is the optional instant read from the file's `text`.
pub open spec fn optional_time_read(text: Option<String>, t: Option<i64>) -> bool {
    match (text, t) {
        (None, None) => true,
        (Some(s), Some(v)) => rfc3339_seconds(s@) == Some(v),
        _ => false,
    }
}

pub open spec fn optional_time_readable(text: Option<String>) -> bool {
    match text {
        Some(s) => rfc3339_seconds(s@).is_some(),
        None => true,
    }
}

/// The store keeps the instant: it lies in years 1 to 9999 and chrono writes it.
pub open spec fn time_writable(t: i64) -> bool {
    storable(t) && rfc3339_text(t).is_some()
}

pub open spec fn optional_time_writable(t: Option<i64>) -> bool {
    match t {
        Some(v) => time_writable(v),
        None => true,
    }
}

/// The record holds the node's fields, its instants written as text.
pub open spec fn node_written(e: NodeEntry, r: NodeRecord) -> bool {
    &&& r.id == e.id
    &&& r.provider_id == e.provider_id
    &&& r.ip == e.ip
    &&& r.provider == e.provider
    &&& r.instance_type == e.instance_type
    &&& r.user == e.user
    &&& rfc3339_text(e.created_at) == Some(r.created_at@)
    &&& optional_time_written(e.timeout, r.timeout)
}

/// The node holds the record's fields, its instants read from the texts.
pub open spec fn node_read(r: NodeRecord, e: NodeEntry) -> bool {
    &&& e.id == r.id
    &&& e.provider_id == r.provider_id
    &&& e.ip == r.ip
    &&& e.provider == r.provider
    &&& e.instance_type == r.instance_type
    &&& e.user == r.user
    &&& rfc3339_seconds(r.created_at@) == Some(e.created_at)
    &&& optional_time_read(r.timeout, e.timeout)
}

pub open spec fn cluster_written(e: ClusterEntry, r: ClusterRecord) -> bool {
    &&& r.id == e.id
    &&& r.provider == e.provider
    &&& r.node_count == e.node_count
    &&& rfc3339_text(e.created_at) == Some(r.created_at@)
    &&& optional_time_written(e.timeout, r.timeout)
}

pub open spec fn cluster_read(r: ClusterRecord, e: ClusterEntry) -> bool {
    &&& e.id == r.id
    &&& e.provider == r.provider
    &&& e.node_count == r.node_count
    &&& rfc3339_seconds(r.created_at@) == Some(e.created_at)
    &&& optional_time_read(r.timeout, e.timeout)
}

pub open spec fn node_record_readable(r: NodeRecord) -> bool {
    rfc3339_seconds(r.created_at@).is_some() && optional_time_readable(r.timeout)
}

pub open spec fn cluster_record_readable(r: ClusterRecord) -> bool {
    rfc3339_seconds(r.created_at@).is_some() && optional_time_readable(r.timeout)
}

pub open spec fn node_writable(e: NodeEntry) -> bool {
    time_writable(e.created_at) && optional_time_writable(e.timeout)
}

pub open spec fn cluster_writable(e: ClusterEntry) -> bool {
    time_writable(e.created_at) && optional_time_writable(e.timeout)
}

pub open spec fn node_record_ids_unique(rs: Seq<NodeRecord>) -> bool {
    forall|i: int, j: int|
        0 <= i < rs.len() && 0 <= j < rs.len() && #[trigger] rs[i].id@ == #[trigger] rs[j].id@ ==> i
            == j
}

pub open spec fn cluster_record_ids_unique(rs: Seq<ClusterRecord>) -> bool {
    forall|i: int, j: int|
        0 <= i < rs.len() && 0 <= j < rs.len() && #[trigger] rs[i].id@ == #[trigger] rs[j].id@ ==> i
            == j
}

/// Every instant of the collection can be written.
pub open spec fn state_writable(s: GmlState) -> bool {
    &&& forall|i: int| 0 <= i < s.nodes@.len() ==> node_writable(#[trigger] s.nodes@[i])
    &&& forall|i: int| 0 <= i < s.clusters@.len() ==> cluster_writable(#[trigger] s.clusters@[i])
}

/// The document holds exactly the collection, entity by entity.
pub open spec fn state_written(s: GmlState, r: StateRecord) -> bool {
    &&& r.nodes@.len() == s.nodes@.len()
    &&& r.clusters@.len() == s.clusters@.len()
    &&& forall|i: int| 0 <= i < s.nodes@.len() ==> node_written(s.nodes@[i], #[trigger] r.nodes@[i])
    &&& forall|i: int|
        0 <= i < s.clusters@.len() ==> cluster_written(s.clusters@[i], #[trigger] r.clusters@[i])
}

/// Every instant of the document can be read and no id appears twice.
pub open spec fn state_record_readable(r: StateRecord) -> bool {
    &&& forall|i: int| 0 <= i < r.nodes@.len() ==> node_record_readable(#[trigger] r.nodes@[i])
    &&& forall|i: int| 0 <= i < r.clusters@.len() ==> cluster_record_readable(#[trigger] r.clusters@[i])
    &&& node_record_ids_unique(r.nodes@)
    &&& cluster_record_ids_unique(r.clusters@)
}

/// The collection holds exactly the document, entity by entity.
pub open spec fn state_read(r: StateRecord, s: GmlState) -> bool {
    &&& s.nodes@.len() == r.nodes@.len()
    &&& s.clusters@.len() == r.clusters@.len()
    &&& forall|i: int| 0 <= i < r.nodes@.len() ==> node_read(r.nodes@[i], #[trigger] s.nodes@[i])
    &&& forall|i: int|
        0 <= i < r.clusters@.len() ==> cluster_read(r.clusters@[i], #[trigger] s.clusters@[i])
}

/// chrono reads back the instant that it wrote.
pub open spec fn time_round_trips(t: i64) -> bool {
    match rfc3339_text(t) {
        Some(s) => rfc3339_seconds(s) == Some(t),
        None => false,
    }
}

/// chrono reads back every instant of the collection that it wrote.
pub open spec fn state_times_round_trip(s: GmlState) -> bool {
    &&& forall|i: int|
        0 <= i < s.nodes@.len() ==> {
            &&& time_round_trips(#[trigger] s.nodes@[i].created_at)
            &&& (s.nodes@[i].timeout matches Some(t) ==> time_round_trips(t))
        }
    &&& forall|i: int|
        0 <= i < s.clusters@.len() ==> {
            &&& time_round_trips(#[trigger] s.clusters@[i].created_at)
            &&& (s.clusters@[i].timeout matches Some(t) ==> time_round_trips(t))
        }
}

fn write_optional_time(t: Option<i64>) -> (r: Result<Option<String>, GmlError>)
    ensures
        r.is_ok() == optional_time_writable(t),
        r matches Ok(text) ==> optional_time_written(t, text),
        r matches Err(e) ==> e.kind == ErrorKind::Io,
{
    match t {
        None => Ok(None),
        Some(v) => match write_time(v) {
            Ok(s) => Ok(Some(s)),
            Err(e) => Err(e),
        },
    }
}

fn read_optional_time(text: &Option<String>) -> (r: Result<Option<i64>, GmlError>)
    ensures
        r.is_ok() == optional_time_readable(*text),
        r matches Ok(t) ==> optional_time_read(*text, t),
        r matches Err(e) ==> e.kind == ErrorKind::Decode,
{
    match text {
        None => Ok(None),
        Some(s) => match parse_timestamp(s.as_str()) {
            Some(v) => Ok(Some(v)),
            None => Err(GmlError::about(ErrorKind::Decode, "not an RFC 3339 instant: ", s.as_str())),
        },
    }
}

fn read_time(text: &String) -> (r: Result<i64, GmlError>)
    ensures
        r.is_ok() == rfc3339_seconds(text@).is_some(),
        r matches Ok(t) ==> rfc3339_seconds(text@) == Some(t),
        r matches Err(e) ==> e.kind == ErrorKind::Decode,
{
    match parse_timestamp(text.as_str()) {
        Some(v) => Ok(v),
        None => Err(GmlError::about(ErrorKind::Decode, "not an RFC 3339 instant: ", text.as_str())),
    }
}

fn write_time(t: i64) -> (r: Result<String, GmlError>)
    ensures
        r.is_ok() == time_writable(t),
        r matches Ok(s) ==> rfc3339_text(t) == Some(s@),
        r matches Err(e) ==> e.kind == ErrorKind::Io,
{
    if t < MIN_STORED_INSTANT || t > MAX_STORED_INSTANT {
        return Err(GmlError::new(ErrorKind::Io, String::from_str("instant outside years 1 to 9999")));
    }
    match timestamp_text(t) {
        Some(s) => Ok(s),
        None => Err(GmlError::new(ErrorKind::Io, String::from_str("instant out of range"))),
    }
}

impl NodeEntry {
    /// The node as the store file writes it; fails with `Io` where an instant
    /// cannot be written.
    pub fn to_record(&self) -> (r: Result<NodeRecord, GmlError>)
        ensures
            r.is_ok() == node_writable(*self),
            r matches Ok(rec) ==> node_written(*self, rec),
            r matches Err(e) ==> e.kind == ErrorKind::Io,
    {
        let created_at = write_time(self.created_at)?;
        let timeout = write_optional_time(self.timeout)?;
        Ok(
            NodeRecord {
                id: self.id.clone(),
                provider_id: self.provider_id.clone(),
                ip: self.ip.clone(),
                provider: self.provider.clone(),
                instance_type: self.instance_type.clone(),
                user: self.user.clone(),
                created_at,
                timeout,
            },
        )
    }
}

impl ClusterEntry {
    /// The cluster as the store file writes it; fails with `Io` where an instant
    /// cannot be written.
    pub fn to_record(&self) -> (r: Result<ClusterRecord, GmlError>)
        ensures
            r.is_ok() == cluster_writable(*self),
            r matches Ok(rec) ==> cluster_written(*self, rec),
            r matches Err(e) ==> e.kind == ErrorKind::Io,
    {
        let created_at = write_time(self.created_at)?;
        let timeout = write_optional_time(self.timeout)?;
        Ok(
            ClusterRecord {
                id: self.id.clone(),
                provider: self.provider.clone(),
                created_at,
                node_count: self.node_count,
                timeout,
            },
        )
    }
}

impl NodeRecord {
    pub fn duplicate(&self) -> (r: NodeRecord)
        ensures
            r == *self,
    {
        NodeRecord {
            id: self.id.clone(),
            provider_id: self.provider_id.clone(),
            ip: self.ip.clone(),
            provider: self.provider.clone(),
            instance_type: self.instance_type.clone(),
            user: self.user.clone(),
            created_at: self.created_at.clone(),
            timeout: match &self.timeout {
                Some(t) => Some(t.clone()),
                None => None,
            },
        }
    }

    /// The node that the record describes; fails with `Decode` where an instant
    /// is not RFC 3339.
    pub fn to_entry(&self) -> (r: Result<NodeEntry, GmlError>)
        ensures
            r.is_ok() == node_record_readable(*self),
            r matches Ok(e) ==> node_read(*self, e),
            r matches Err(e) ==> e.kind == ErrorKind::Decode,
    {
        let created_at = read_time(&self.created_at)?;
        let timeout = read_optional_time(&self.timeout)?;
        Ok(
            NodeEntry {
                id: self.id.clone(),
                provider_id: self.provider_id.clone(),
                ip: self.ip.clone(),
                provider: self.provider.clone(),
                instance_type: self.instance_type.clone(),
                user: self.user.clone(),
                created_at,
                timeout,
            },
        )
    }
}

impl ClusterRecord {
    /// The cluster that the record describes; fails with `Decode` where an
    /// instant is not RFC 3339.
    pub fn to_entry(&self) -> (r: Result<ClusterEntry, GmlError>)
        ensures
            r.is_ok() == cluster_record_readable(*self),
            r matches Ok(e) ==> cluster_read(*self, e),
            r matches Err(e) ==> e.kind == ErrorKind::Decode,
    {
        let created_at = read_time(&self.created_at)?;
        let timeout = read_optional_time(&self.timeout)?;
        Ok(
            ClusterEntry {
                id: self.id.clone(),
                provider: self.provider.clone(),
                created_at,
                node_count: self.node_count,
                timeout,
            },
        )
    }
}

impl GmlState {
    /// The document that the store file holds for this collection; fails with
    /// `Io` where an instant cannot be written.
    pub fn to_record(&self) -> (r: Result<StateRecord, GmlError>)
        ensures
            r.is_ok() == state_writable(*self),
            r matches Ok(rec) ==> state_written(*self, rec),
            r matches Err(e) ==> e.kind == ErrorKind::Io,
    {
        let mut nodes: Vec<NodeRecord> = Vec::new();
        let mut i: usize = 0;
        while i < self.nodes.len()
            invariant
                i <= self.nodes@.len(),
                nodes@.len() == i,
                forall|j: int| 0 <= j < i ==> node_writable(#[trigger] self.nodes@[j]),
                forall|j: int| 0 <= j < i ==> node_written(self.nodes@[j], #[trigger] nodes@[j]),
            decreases self.nodes@.len() - i,
        {
            let rec = self.nodes[i].to_record()?;
            nodes.push(rec);
            i = i + 1;
        }
        let mut clusters: Vec<ClusterRecord> = Vec::new();
        let mut k: usize = 0;
        while k < self.clusters.len()
            invariant
                k <= self.clusters@.len(),
                clusters@.len() == k,
                forall|j: int| 0 <= j < k ==> cluster_writable(#[trigger] self.clusters@[j]),
                forall|j: int|
                    0 <= j < k ==> cluster_written(self.clusters@[j], #[trigger] clusters@[j]),
            decreases self.clusters@.len() - k,
        {
            let rec = self.clusters[k].to_record()?;
            clusters.push(rec);
            k = k + 1;
        }
        Ok(StateRecord { nodes, clusters })
    }

    /// The collection that a store document describes; fails with `Decode`
    /// where an instant is not RFC 3339 or an id appears twice.
    pub fn from_record(rec: &StateRecord) -> (r: Result<GmlState, GmlError>)
        ensures
            r.is_ok() == state_record_readable(*rec),
            r matches Ok(s) ==> s.wf() && state_read(*rec, s),
            r matches Err(e) ==> e.kind == ErrorKind::Decode,
    {
        let mut state = GmlState::new();
        let mut i: usize = 0;
        while i < rec.nodes.len()
            invariant
                state.wf(),
                state.clusters@.len() == 0,
                i <= rec.nodes@.len(),
                state.nodes@.len() == i,
                forall|j: int| 0 <= j < i ==> node_record_readable(#[trigger] rec.nodes@[j]),
                forall|j: int| 0 <= j < i ==> node_read(rec.nodes@[j], #[trigger] state.nodes@[j]),
                node_record_ids_unique(rec.nodes@.subrange(0, i as int)),
            decreases rec.nodes@.len() - i,
        {
            let e = rec.nodes[i].to_entry()?;
            let ghost prefix = rec.nodes@.subrange(0, i as int);
            let ghost before = state.nodes@;
            match state.add_node(e) {
                Ok(()) => {
                    assert forall|a: int, b: int|
                        0 <= a < i + 1 && 0 <= b < i + 1 && #[trigger] rec.nodes@.subrange(
                            0,
                            i + 1,
                        )[a].id@ == #[trigger] rec.nodes@.subrange(0, i + 1)[b].id@ implies a
                        == b by {
                        if a < i && b < i {
                            assert(prefix[a].id@ == prefix[b].id@);
                        } else if a < i {
                            assert(before[a].id@ == rec.nodes@[a].id@);
                        } else if b < i {
                            assert(before[b].id@ == rec.nodes@[b].id@);
                        }
                    }
                },
                Err(_) => {
                    proof {
                        let w = choose|w: int| 0 <= w < before.len() && #[trigger] before[w].id@ == rec.nodes@[i as int].id@;
                        assert(rec.nodes@[w].id@ == before[w].id@);
                        assert(!node_record_ids_unique(rec.nodes@));
                    }
                    return Err(
                        GmlError::about(
                            ErrorKind::Decode,
                            "node id appears twice: ",
                            rec.nodes[i].id.as_str(),
                        ),
                    );
                },
            }
            i = i + 1;
        }
        assert(rec.nodes@.subrange(0, rec.nodes@.len() as int) == rec.nodes@);
        let mut k: usize = 0;
        while k < rec.clusters.len()
            invariant
                state.wf(),
                state.nodes@.len() == rec.nodes@.len(),
                forall|j: int|
                    0 <= j < rec.nodes@.len() ==> node_read(rec.nodes@[j], #[trigger] state.nodes@[j]),
                forall|j: int| 0 <= j < rec.nodes@.len() ==> node_record_readable(#[trigger] rec.nodes@[j]),
                node_record_ids_unique(rec.nodes@),
                k <= rec.clusters@.len(),
                state.clusters@.len() == k,
                forall|j: int| 0 <= j < k ==> cluster_record_readable(#[trigger] rec.clusters@[j]),
                forall|j: int|
                    0 <= j < k ==> cluster_read(rec.clusters@[j], #[trigger] state.clusters@[j]),
                cluster_record_ids_unique(rec.clusters@.subrange(0, k as int)),
            decreases rec.clusters@.len() - k,
        {
            let e = rec.clusters[k].to_entry()?;
            let ghost prefix = rec.clusters@.subrange(0, k as int);
            let ghost before = state.clusters@;
            match state.add_cluster(e) {
                Ok(()) => {
                    assert forall|a: int, b: int|
                        0 <= a < k + 1 && 0 <= b < k + 1 && #[trigger] rec.clusters@.subrange(
                            0,
                            k + 1,
                        )[a].id@ == #[trigger] rec.clusters@.subrange(0, k + 1)[b].id@ implies a
                        == b by {
                        if a < k && b < k {
                            assert(prefix[a].id@ == prefix[b].id@);
                        } else if a < k {
                            assert(before[a].id@ == rec.clusters@[a].id@);
                        } else if b < k {
                            assert(before[b].id@ == rec.clusters@[b].id@);
                        }
                    }
                },
                Err(_) => {
                    proof {
                        let w = choose|w: int| 0 <= w < before.len() && #[trigger] before[w].id@ == rec.clusters@[k as int].id@;
                        assert(rec.clusters@[w].id@ == before[w].id@);
                        assert(!cluster_record_ids_unique(rec.clusters@));
                    }
                    return Err(
                        GmlError::about(
                            ErrorKind::Decode,
                            "cluster id appears twice: ",
                            rec.clusters[k].id.as_str(),
                        ),
                    );
                },
            }
            k = k + 1;
        }
        assert(rec.clusters@.subrange(0, rec.clusters@.len() as int) == rec.clusters@);
        Ok(state)
    }
}

/// Saving then loading gives back the collection, field for field and with
/// absent expiries kept absent, wherever chrono reads back the instants that it
/// wrote (`to_record` writes only instants in years 1 to 9999, which RFC 3339
/// gives with four-digit years): the document written for a well-formed
/// collection is readable, and any collection read from it equals the one saved.
pub proof fn law_store_round_trip(s: GmlState, rec: StateRecord, back: GmlState)
    requires
        s.wf(),
        state_written(s, rec),
        state_times_round_trip(s),
    ensures
        state_record_readable(rec),
        state_read(rec, back) ==> back.nodes@ == s.nodes@ && back.clusters@ == s.clusters@,
{
    assert forall|i: int, j: int|
        0 <= i < rec.nodes@.len() && 0 <= j < rec.nodes@.len() && #[trigger] rec.nodes@[i].id@
            == #[trigger] rec.nodes@[j].id@ implies i == j by {
        assert(s.nodes@[i].id@ == s.nodes@[j].id@);
    }
    assert forall|i: int, j: int|
        0 <= i < rec.clusters@.len() && 0 <= j < rec.clusters@.len() && #[trigger] rec.clusters@[i].id@
            == #[trigger] rec.clusters@[j].id@ implies i == j by {
        assert(s.clusters@[i].id@ == s.clusters@[j].id@);
    }
    assert forall|i: int| 0 <= i < rec.nodes@.len() implies node_record_readable(
        #[trigger] rec.nodes@[i],
    ) by {
        assert(node_written(s.nodes@[i], rec.nodes@[i]));
        assert(time_round_trips(s.nodes@[i].created_at));
    }
    assert forall|i: int| 0 <= i < rec.clusters@.len() implies cluster_record_readable(
        #[trigger] rec.clusters@[i],
    ) by {
        assert(cluster_written(s.clusters@[i], rec.clusters@[i]));
        assert(time_round_trips(s.clusters@[i].created_at));
    }
    if state_read(rec, back) {
        assert forall|i: int| 0 <= i < s.nodes@.len() implies #[trigger] back.nodes@[i]
            == s.nodes@[i] by {
            assert(node_written(s.nodes@[i], rec.nodes@[i]));
            assert(node_read(rec.nodes@[i], back.nodes@[i]));
            assert(time_round_trips(s.nodes@[i].created_at));
        }
        assert forall|i: int| 0 <= i < s.clusters@.len() implies #[trigger] back.clusters@[i]
            == s.clusters@[i] by {
            assert(cluster_written(s.clusters@[i], rec.clusters@[i]));
            assert(cluster_read(rec.clusters@[i], back.clusters@[i]));
            assert(time_round_trips(s.clusters@[i].created_at));
        }
        assert(back.nodes@ == s.nodes@);
        assert(back.clusters@ == s.clusters@);
    }
}

} // verus!
