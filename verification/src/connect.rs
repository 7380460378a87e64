use vstd::prelude::*;
use vstd::string::StringExecFns;

use crate::frame::RawCanFrame;
use crate::sdo::SdoError;
use crate::sdo::spec_read_outcome_ok;
use crate::sdo::spec_write_outcome_ok;
use crate::sdo::SdoRequest;
use crate::sdo::SdoResponse;
use crate::sdo::SdoWriteRequest;
use crate::text::spec_dec_digits;
use crate::text::u64_to_dec;

verus! {

/// Errors of the connection layer.
#[derive(Debug)]
pub enum CANopenError {
    /// The CAN interface could not be opened or written.
    SocketError(String),
    /// An operation was addressed to a node that is not registered.
    NodeNotConnected(u8),
    /// The request could not be carried out (codec failure, manager gone).
    RequestFailed(String),
}

impl CANopenError {
    /// The rendered text of this error.
    pub open spec fn spec_describe(e: CANopenError) -> Seq<char> {
        match e {
            CANopenError::SocketError(m) => "Socket error: "@ + m@,
            CANopenError::NodeNotConnected(node_id) => "Node "@ + spec_dec_digits(node_id as nat)
                + " not connected"@,
            CANopenError::RequestFailed(m) => "Request failed: "@ + m@,
        }
    }

    /// Render this error as text.
    pub fn describe(&self) -> (s: String)
        ensures
            s@ == Self::spec_describe(*self),
    {
        match self {
            CANopenError::SocketError(m) => {
                let mut s = String::from_str("Socket error: ");
                s.append(m.as_str());
                s
            },
            CANopenError::NodeNotConnected(node_id) => {
                let mut s = String::from_str("Node ");
                let d = u64_to_dec(*node_id as u64);
                s.append(d.as_str());
                s.append(" not connected");
                s
            },
            CANopenError::RequestFailed(m) => {
                let mut s = String::from_str("Request failed: ");
                s.append(m.as_str());
                s
            },
        }
    }
}

impl From<SdoError> for CANopenError {
    /// An SDO-layer error surfaces to connection callers as a failed request
    /// carrying the rendered SDO error text.
    fn from(error: SdoError) -> (r: Self) {
        CANopenError::RequestFailed(error.describe())
    }
}

impl vstd::std_specs::convert::FromSpecImpl<SdoError> for CANopenError {
    open spec fn obeys_from_spec() -> bool {
        false
    }

    open spec fn from_spec(error: SdoError) -> CANopenError {
        CANopenError::RequestFailed(arbitrary())
    }
}

/// The kind of SDO operation a caller asked for.
#[derive(Debug, Clone)]
pub enum SdoOperation {
    Read(SdoRequest),
    Write(SdoWriteRequest),
}

/// One operation waiting in, or dispatched from, a device's queue. The token
/// identifies the waiting caller; the submission time (milliseconds on the
/// caller's monotonic clock) drives the timeout check.
#[derive(Debug, Clone)]
pub struct PendingSdoRequest {
    pub operation: SdoOperation,
    pub token: u64,
    pub submitted_ms: u64,
}

/// Per-device session state: a FIFO queue of waiting operations, at most one
/// active (dispatched, unanswered) operation, and the device's timeout.
#[derive(Debug)]
pub struct NodeState {
    pub pending_requests: Vec<PendingSdoRequest>,
    pub active_request: Option<PendingSdoRequest>,
    pub timeout_ms: u64,
}

impl NodeState {
    /// The tokens that will complete on this device, in the order they will
    /// complete: the active operation first, then the queue front to back.
    pub open spec fn spec_completion_order(&self) -> Seq<u64> {
        (match self.active_request {
            Some(a) => seq![a.token],
            None => Seq::empty(),
        }) + self.pending_requests@.map_values(|p: PendingSdoRequest| p.token)
    }

    /// Whether the active operation has outlived the device timeout at the
    /// given clock reading.
    pub open spec fn spec_overdue(&self, now_ms: u64) -> bool {
        match self.active_request {
            Some(a) => now_ms >= a.submitted_ms && now_ms - a.submitted_ms > self.timeout_ms,
            None => false,
        }
    }

    /// A fresh session: nothing queued, nothing active.
    pub fn new(timeout_ms: u64) -> (ns: NodeState)
        ensures
            ns.pending_requests@.len() == 0,
            ns.active_request is None,
            ns.timeout_ms == timeout_ms,
    {
        NodeState { pending_requests: Vec::new(), active_request: None, timeout_ms }
    }

    /// Append an operation at the back of the queue. The completion order
    /// gains exactly this operation's token, at the end.
    pub fn queue_request(&mut self, request: PendingSdoRequest)
        ensures
            final(self).pending_requests@ == old(self).pending_requests@.push(request),
            final(self).active_request == old(self).active_request,
            final(self).timeout_ms == old(self).timeout_ms,
            final(self).spec_completion_order() == old(self).spec_completion_order().push(
                request.token,
            ),
    {
        self.pending_requests.push(request);
        proof {
            assert(self.spec_completion_order() =~= old(self).spec_completion_order().push(
                request.token,
            ));
        }
    }

    /// If no operation is active, promote the queue front to active,
    /// restarting its timeout clock at the dispatch time: time an operation
    /// spent queued behind others does not count against its own timeout.
    /// The completion order is unchanged: dispatch never reorders.
    pub fn start_next_request(&mut self, now_ms: u64) -> (r: Option<&PendingSdoRequest>)
        ensures
            final(self).timeout_ms == old(self).timeout_ms,
            old(self).active_request is Some ==> *final(self) == *old(self),
            old(self).active_request is None && old(self).pending_requests@.len() == 0 ==> *final(self) == *old(self),
            old(self).active_request is None && old(self).pending_requests@.len() > 0 ==> ((final(self).active_request matches Some(a) && a.token == old(self).pending_requests@[0].token
                && a.operation == old(self).pending_requests@[0].operation && a.submitted_ms == now_ms) && final(self).pending_requests@ == old(self).pending_requests@.skip(1)),
            final(self).spec_completion_order() == old(self).spec_completion_order(),
            r is Some <==> final(self).active_request is Some,
            r matches Some(p) ==> *p == final(self).active_request->0,
    {
        if self.active_request.is_none() {
            if self.pending_requests.len() > 0 {
                let mut next = self.pending_requests.remove(0);
                next.submitted_ms = now_ms;
                self.active_request = Some(next);
            }
        }
        proof {
            assert(self.spec_completion_order() =~= old(self).spec_completion_order());
        }
        self.active_request.as_ref()
    }

    /// Take the active operation, freeing the slot. Completion removes
    /// exactly the front of the completion order.
    pub fn complete_active_request(&mut self) -> (r: Option<PendingSdoRequest>)
        ensures
            r == old(self).active_request,
            final(self).active_request is None,
            final(self).pending_requests@ == old(self).pending_requests@,
            final(self).timeout_ms == old(self).timeout_ms,
            old(self).active_request is Some ==> final(self).spec_completion_order() == old(self).spec_completion_order().skip(1),
            old(self).active_request is None ==> final(self).spec_completion_order() == old(self).spec_completion_order(),
    {
        let r = self.active_request.take();
        proof {
            if old(self).active_request is Some {
                assert(self.spec_completion_order() =~= old(self).spec_completion_order().skip(1));
            } else {
                assert(self.spec_completion_order() =~= old(self).spec_completion_order());
            }
        }
        r
    }

    /// Complete the active operation if it has outlived the device timeout.
    /// Requires the clock reading to be no earlier than the submission time,
    /// which a monotonic clock guarantees.
    pub fn check_timeout(&mut self, now_ms: u64) -> (r: Option<PendingSdoRequest>)
        requires
            old(self).active_request matches Some(a) ==> now_ms >= a.submitted_ms,
        ensures
            old(self).spec_overdue(now_ms) ==> (r == old(self).active_request && final(self).active_request is None && final(self).pending_requests@ == old(self).pending_requests@ && final(self).timeout_ms == old(self).timeout_ms && final(self).spec_completion_order() == old(self).spec_completion_order().skip(1)),
            !old(self).spec_overdue(now_ms) ==> (r is None && *final(self) == *old(self)),
    {
        let overdue = match &self.active_request {
            Some(active) => now_ms - active.submitted_ms > self.timeout_ms,
            None => false,
        };
        if overdue {
            self.complete_active_request()
        } else {
            None
        }
    }
}


/// The outcome handed back to the caller that submitted an operation.
#[derive(Debug)]
pub enum SdoOperationOutcome {
    Read(Result<SdoResponse, SdoError>),
    Write(Result<(), SdoError>),
}

/// A finished operation: which caller it belongs to and how it ended.
#[derive(Debug)]
pub struct CompletedOperation {
    pub token: u64,
    pub outcome: SdoOperationOutcome,
}

/// One registered device and its session state.
#[derive(Debug)]
pub struct NodeEntry {
    pub node_id: u8,
    pub state: NodeState,
}

/// The connection manager's session state: every registered device with its
/// queue. All mutation happens through one logical thread of control, so the
/// functions here take the state by plain `&mut`.
#[derive(Debug)]
pub struct ConnectionState {
    pub nodes: Vec<NodeEntry>,
}

impl ConnectionState {
    /// Each device is registered at most once.
    pub open spec fn wf(&self) -> bool {
        forall|i: int, j: int|
            0 <= i < j < self.nodes@.len() ==> self.nodes@[i].node_id != self.nodes@[j].node_id
    }

    /// Whether the device is registered.
    pub open spec fn spec_has_node(&self, node_id: u8) -> bool {
        exists|i: int| 0 <= i < self.nodes@.len() && self.nodes@[i].node_id == node_id
    }

    /// The position of the device in the registry.
    pub open spec fn spec_index_of(&self, node_id: u8) -> int {
        choose|i: int| 0 <= i < self.nodes@.len() && self.nodes@[i].node_id == node_id
    }

    /// The session state of a registered device.
    pub open spec fn spec_node_state(&self, node_id: u8) -> NodeState {
        self.nodes@[self.spec_index_of(node_id)].state
    }

    /// Every active operation was submitted at or before the given clock
    /// reading; holds whenever times come from one monotonic clock.
    pub open spec fn spec_clock_ok(&self, now_ms: u64) -> bool {
        forall|i: int|
            0 <= i < self.nodes@.len() ==> match #[trigger] self.nodes@[i].state.active_request {
                Some(a) => now_ms >= a.submitted_ms,
                None => true,
            }
    }

    /// A connection with no devices registered.
    pub fn new() -> (c: ConnectionState)
        ensures
            c.wf(),
            c.nodes@.len() == 0,
    {
        ConnectionState { nodes: Vec::new() }
    }

    /// The position of the device in the registry, if it is registered.
    pub fn find_node(&self, node_id: u8) -> (r: Option<usize>)
        requires
            self.wf(),
        ensures
            r matches Some(i) ==> i < self.nodes@.len() && self.nodes@[i as int].node_id == node_id
                && self.spec_index_of(node_id) == i,
            r is Some <==> self.spec_has_node(node_id),
    {
        let mut i: usize = 0;
        while i < self.nodes.len()
            invariant
                self.wf(),
                i <= self.nodes@.len(),
                forall|j: int| 0 <= j < i ==> self.nodes@[j].node_id != node_id,
            decreases self.nodes@.len() - i,
        {
            if self.nodes[i].node_id == node_id {
                proof {
                    assert(self.spec_has_node(node_id));
                    let chosen = self.spec_index_of(node_id);
                    assert(0 <= chosen < self.nodes@.len() && self.nodes@[chosen].node_id
                        == node_id);
                    if chosen < i {
                        assert(self.nodes@[chosen].node_id != self.nodes@[i as int].node_id);
                    } else if chosen > i {
                        assert(self.nodes@[i as int].node_id != self.nodes@[chosen].node_id);
                    }
                }
                return Some(i);
            }
            i = i + 1;
        }
        None
    }

    /// Register a device, or reset its session if it is already registered:
    /// registration replaces any queue state with a fresh, empty session.
    /// Other devices are untouched.
    pub fn add_node(&mut self, node_id: u8, timeout_ms: u64)
        requires
            old(self).wf(),
        ensures
            final(self).wf(),
            final(self).spec_has_node(node_id),
            ({
                let ns = final(self).spec_node_state(node_id);
                ns.pending_requests@.len() == 0 && ns.active_request is None && ns.timeout_ms
                    == timeout_ms
            }),
            forall|id: u8|
                id != node_id ==> #[trigger] final(self).spec_has_node(id) == old(self).spec_has_node(id),
            forall|id: u8|
                id != node_id && old(self).spec_has_node(id) ==> #[trigger] final(self).spec_node_state(id) == old(self).spec_node_state(id),
    {
        let fresh = NodeState::new(timeout_ms);
        let entry = NodeEntry { node_id, state: fresh };
        let r = self.find_node(node_id);
        match r {
            Some(i) => {
                self.nodes.set(i, entry);
                proof {
                    lemma_same_layout_registry(old(self).nodes@, self.nodes@, i as int, node_id);
                    let k = self.spec_index_of(node_id);
                    assert(self.nodes@[i as int].node_id == node_id);
                    assert(k == i);
                }
            },
            None => {
                self.nodes.push(entry);
                proof {
                    let olds = old(self).nodes@;
                    let news = self.nodes@;
                    let n = olds.len() as int;
                    assert(news[n].node_id == node_id);
                    assert forall|id: u8| id != node_id implies #[trigger] self.spec_has_node(id)
                        == old(self).spec_has_node(id) by {
                        if old(self).spec_has_node(id) {
                            let k = choose|k: int| 0 <= k < n && olds[k].node_id == id;
                            assert(news[k].node_id == id);
                        }
                        if self.spec_has_node(id) {
                            let k = choose|k: int| 0 <= k < news.len() && news[k].node_id == id;
                            assert(olds[k].node_id == id);
                        }
                    }
                    assert forall|id: u8|
                        id != node_id && old(self).spec_has_node(id) implies #[trigger] self
                        .spec_node_state(id) == old(self).spec_node_state(id) by {
                        let k1 = old(self).spec_index_of(id);
                        let k2 = self.spec_index_of(id);
                        assert(news[k1].node_id == id);
                        assert(0 <= k2 < news.len() && news[k2].node_id == id);
                        assert(k2 < n);
                        if k1 != k2 {
                            assert(olds[k1].node_id == olds[k2].node_id);
                        }
                    }
                }
            },
        }
    }

    /// Drop a device's session. Any queued or active operations for it are
    /// abandoned without a response. Other devices are untouched.
    pub fn remove_node(&mut self, node_id: u8)
        requires
            old(self).wf(),
        ensures
            final(self).wf(),
            !final(self).spec_has_node(node_id),
            forall|id: u8|
                id != node_id ==> #[trigger] final(self).spec_has_node(id) == old(self).spec_has_node(id),
            forall|id: u8|
                id != node_id && old(self).spec_has_node(id) ==> #[trigger] final(self).spec_node_state(id) == old(self).spec_node_state(id),
    {
        let r = self.find_node(node_id);
        match r {
            Some(i) => {
                self.nodes.remove(i);
                proof {
                    let olds = old(self).nodes@;
                    let news = self.nodes@;
                    assert forall|p: int, q: int| 0 <= p < q < news.len() implies news[p].node_id
                        != news[q].node_id by {
                        lemma_remove_entry(olds, news, i as int, p);
                        lemma_remove_entry(olds, news, i as int, q);
                    }
                    assert forall|j: int| 0 <= j < news.len() implies news[j].node_id
                        != node_id by {
                        lemma_remove_entry(olds, news, i as int, j);
                    }
                    assert forall|id: u8| id != node_id implies #[trigger] self.spec_has_node(id)
                        == old(self).spec_has_node(id) by {
                        if old(self).spec_has_node(id) {
                            let k = choose|k: int| 0 <= k < olds.len() && olds[k].node_id == id;
                            if k < i {
                                assert(news[k].node_id == id);
                            } else {
                                assert(news[k - 1] == olds[k]);
                            }
                        }
                        if self.spec_has_node(id) {
                            let k = choose|k: int| 0 <= k < news.len() && news[k].node_id == id;
                            lemma_remove_entry(olds, news, i as int, k);
                        }
                    }
                    assert forall|id: u8|
                        id != node_id && old(self).spec_has_node(id) implies #[trigger] self
                        .spec_node_state(id) == old(self).spec_node_state(id) by {
                        let k1 = old(self).spec_index_of(id);
                        assert(olds[k1].node_id == id);
                        assert(k1 != i);
                        if k1 < i {
                            assert(news[k1].node_id == id);
                        } else {
                            assert(news[k1 - 1] == olds[k1]);
                            assert(news[k1 - 1].node_id == id);
                        }
                        assert(self.spec_has_node(id));
                        let k2 = self.spec_index_of(id);
                        assert(0 <= k2 < news.len() && news[k2].node_id == id);
                        lemma_remove_entry(olds, news, i as int, k2);
                        if k2 < i {
                            assert(olds[k2].node_id == id);
                            assert(k1 == k2);
                        } else {
                            assert(olds[k2 + 1].node_id == id);
                            assert(k1 == k2 + 1);
                        }
                    }
                }
            },
            None => {},
        }
    }

    /// Queue an operation on its device. Returns false, leaving the state
    /// unchanged, exactly when the device is not registered: an unregistered
    /// device rejects operations immediately, never silently queuing.
    pub fn submit_request(&mut self, node_id: u8, request: PendingSdoRequest) -> (accepted: bool)
        requires
            old(self).wf(),
        ensures
            final(self).wf(),
            accepted == old(self).spec_has_node(node_id),
            !accepted ==> *final(self) == *old(self),
            accepted ==> ({
                let ns = old(self).spec_node_state(node_id);
                let ns2 = final(self).spec_node_state(node_id);
                ns2.pending_requests@ == ns.pending_requests@.push(request)
                    && ns2.active_request == ns.active_request && ns2.timeout_ms == ns.timeout_ms
                    && ns2.spec_completion_order() == ns.spec_completion_order().push(request.token)
            }),
            forall|id: u8| #[trigger]
                final(self).spec_has_node(id) == old(self).spec_has_node(id),
            forall|id: u8|
                id != node_id && old(self).spec_has_node(id) ==> #[trigger] final(self).spec_node_state(id) == old(self).spec_node_state(id),
    {
        let r = self.find_node(node_id);
        match r {
            Some(i) => {
                let entry = &mut self.nodes[i];
                entry.state.queue_request(request);
                proof {
                    lemma_same_layout_registry(old(self).nodes@, self.nodes@, i as int, node_id);
                    assert(self.nodes@[i as int].node_id == node_id);
                    assert(self.spec_index_of(node_id) == i);
                }
                true
            },
            None => false,
        }
    }

    /// Correlate a received CAN frame with the device it answers, complete
    /// that device's active operation, and parse the frame against it.
    ///
    /// Only standard identifiers in 0x580..=0x5FF are SDO responses; the
    /// answering device is the identifier minus 0x580. A frame outside that
    /// range, for an unregistered device, or for a device with no active
    /// operation changes nothing and completes nothing.
    pub fn handle_can_frame(&mut self, frame: &RawCanFrame) -> (r: Option<CompletedOperation>)
        requires
            old(self).wf(),
        ensures
            final(self).wf(),
            !(0x580 <= frame.cob_id <= 0x5FF) ==> r is None && *final(self) == *old(self),
            0x580 <= frame.cob_id <= 0x5FF && !old(self).spec_has_node(
                (frame.cob_id - 0x580) as u8,
            ) ==> r is None && *final(self) == *old(self),
            0x580 <= frame.cob_id <= 0x5FF && old(self).spec_has_node((frame.cob_id - 0x580) as u8)
                && old(self).spec_node_state((frame.cob_id - 0x580) as u8).active_request is None
                ==> r is None && *final(self) == *old(self),
            ({
                let node_id = (frame.cob_id - 0x580) as u8;
                (0x580 <= frame.cob_id <= 0x5FF && old(self).spec_has_node(node_id)) ==> match old(self).spec_node_state(node_id).active_request {
                    Some(a) => (r matches Some(c) && c.token == a.token && (a.operation matches
                        SdoOperation::Read(req) ==> (c.outcome matches SdoOperationOutcome::Read(
                        res,
                    ) && spec_read_outcome_ok(frame.data@, req, res))) && (a.operation matches
                        SdoOperation::Write(req) ==> (c.outcome matches SdoOperationOutcome::Write(
                        res,
                    ) && spec_write_outcome_ok(frame.data@, req, res))) && ({
                        let ns = old(self).spec_node_state(node_id);
                        let ns2 = final(self).spec_node_state(node_id);
                        ns2.active_request is None && ns2.pending_requests@ == ns.pending_requests@
                            && ns2.timeout_ms == ns.timeout_ms && ns2.spec_completion_order()
                            == ns.spec_completion_order().skip(1)
                    }) && (forall|id: u8| #[trigger]
                        final(self).spec_has_node(id) == old(self).spec_has_node(id)) && (forall|
                        id: u8,
                    |
                        id != node_id && old(self).spec_has_node(id) ==> #[trigger] final(self).spec_node_state(id) == old(self).spec_node_state(id))),
                    None => true,
                }
            }),
    {
        if frame.cob_id < 0x580 || frame.cob_id > 0x5FF {
            return None;
        }
        let node_id = (frame.cob_id - 0x580) as u8;
        let idx = match self.find_node(node_id) {
            Some(i) => i,
            None => {
                return None;
            },
        };
        if self.nodes[idx].state.active_request.is_none() {
            return None;
        }
        let entry = &mut self.nodes[idx];
        let completed = entry.state.complete_active_request();
        proof {
            lemma_same_layout_registry(old(self).nodes@, self.nodes@, idx as int, node_id);
            assert(self.nodes@[idx as int].node_id == node_id);
            assert(self.spec_index_of(node_id) == idx);
        }
        match completed {
            Some(p) => {
                let outcome = match p.operation {
                    SdoOperation::Read(request) => SdoOperationOutcome::Read(
                        crate::sdo::parse_sdo_response(frame, &request),
                    ),
                    SdoOperation::Write(request) => SdoOperationOutcome::Write(
                        crate::sdo::parse_sdo_write_response(frame, &request),
                    ),
                };
                Some(CompletedOperation { token: p.token, outcome })
            },
            None => None,
        }
    }

    /// Complete, with a timeout error, the active operation of every device
    /// whose operation has outlived that device's timeout, freeing the slot
    /// so the next queued operation can dispatch. Devices whose operation is
    /// within its deadline, and everything queued, are untouched. The
    /// returned completions are exactly `spec_timeout_completions` of the
    /// registry: one timeout error per overdue device, in registry order.
    pub fn check_timeouts(&mut self, now_ms: u64) -> (timed_out: Vec<CompletedOperation>)
        requires
            old(self).wf(),
            old(self).spec_clock_ok(now_ms),
        ensures
            final(self).wf(),
            final(self).nodes@.len() == old(self).nodes@.len(),
            forall|i: int|
                0 <= i < old(self).nodes@.len() ==> {
                    let before = old(self).nodes@[i];
                    let after = #[trigger] final(self).nodes@[i];
                    &&& after.node_id == before.node_id
                    &&& before.state.spec_overdue(now_ms) ==> (after.state.active_request is None
                        && after.state.pending_requests@ == before.state.pending_requests@
                        && after.state.timeout_ms == before.state.timeout_ms)
                    &&& !before.state.spec_overdue(now_ms) ==> after == before
                },
            timed_out@ == spec_timeout_completions(old(self).nodes@, now_ms),
    {
        let ghost orig = *self;
        let mut timed_out: Vec<CompletedOperation> = Vec::new();
        let mut i: usize = 0;
        proof {
            assert(orig.nodes@.take(0) =~= Seq::<NodeEntry>::empty());
        }
        while i < self.nodes.len()
            invariant
                orig.wf(),
                orig.spec_clock_ok(now_ms),
                i <= orig.nodes@.len(),
                self.nodes@.len() == orig.nodes@.len(),
                forall|j: int| i <= j < orig.nodes@.len() ==> self.nodes@[j] == orig.nodes@[j],
                forall|j: int|
                    0 <= j < i ==> {
                        let before = orig.nodes@[j];
                        let after = #[trigger] self.nodes@[j];
                        &&& after.node_id == before.node_id
                        &&& before.state.spec_overdue(now_ms) ==> (after.state.active_request
                            is None && after.state.pending_requests@
                            == before.state.pending_requests@ && after.state.timeout_ms
                            == before.state.timeout_ms)
                        &&& !before.state.spec_overdue(now_ms) ==> after == before
                    },
                timed_out@ == spec_timeout_completions(orig.nodes@.take(i as int), now_ms),
            decreases orig.nodes@.len() - i,
        {
            proof {
                assert(orig.nodes@.take(i + 1) =~= orig.nodes@.take(i as int).push(
                    orig.nodes@[i as int],
                ));
                lemma_timeout_completions_push(
                    orig.nodes@.take(i as int),
                    orig.nodes@[i as int],
                    now_ms,
                );
            }
            let entry = &mut self.nodes[i];
            let expired = entry.state.check_timeout(now_ms);
            match expired {
                Some(p) => {
                    let outcome = match p.operation {
                        SdoOperation::Read(_) => SdoOperationOutcome::Read(
                            Err(SdoError::Timeout),
                        ),
                        SdoOperation::Write(_) => SdoOperationOutcome::Write(
                            Err(SdoError::Timeout),
                        ),
                    };
                    timed_out.push(CompletedOperation { token: p.token, outcome });
                    proof {
                        assert(timed_out@ =~= spec_timeout_completions(
                            orig.nodes@.take(i + 1),
                            now_ms,
                        ));
                    }
                },
                None => {
                    proof {
                        assert(timed_out@ =~= spec_timeout_completions(
                            orig.nodes@.take(i + 1),
                            now_ms,
                        ));
                    }
                },
            }
            i = i + 1;
        }
        proof {
            assert(orig.nodes@.take(i as int) =~= orig.nodes@);
            assert forall|p: int, q: int|
                0 <= p < q < self.nodes@.len() implies self.nodes@[p].node_id
                != self.nodes@[q].node_id by {
                assert(self.nodes@[p].node_id == orig.nodes@[p].node_id);
                assert(self.nodes@[q].node_id == orig.nodes@[q].node_id);
            }
        }
        timed_out
    }

    /// For every device with no active operation and a non-empty queue,
    /// promote the queue front to active and encode its request frame for
    /// transmission. An operation whose frame cannot be encoded (an
    /// over-long write payload) still occupies the slot and is left to the
    /// timeout, mirroring the send path's silent failure. The returned
    /// frames carry exactly the encodable dispatched operations, in registry
    /// order.
    pub fn start_pending_requests(&mut self, now_ms: u64) -> (frames: Vec<RawCanFrame>)
        requires
            old(self).wf(),
        ensures
            final(self).wf(),
            final(self).nodes@.len() == old(self).nodes@.len(),
            forall|i: int|
                0 <= i < old(self).nodes@.len() ==> {
                    let before = old(self).nodes@[i];
                    let after = #[trigger] final(self).nodes@[i];
                    &&& after.node_id == before.node_id
                    &&& spec_dispatches(before.state) ==> ((after.state.active_request matches Some(
                        a,
                    ) && a.token == before.state.pending_requests@[0].token && a.operation
                        == before.state.pending_requests@[0].operation && a.submitted_ms == now_ms)
                        && after.state.pending_requests@ == before.state.pending_requests@.skip(1)
                        && after.state.timeout_ms == before.state.timeout_ms)
                    &&& !spec_dispatches(before.state) ==> after == before
                },
            frames@.len() == spec_dispatched_ops(old(self).nodes@).len(),
            forall|k: int|
                0 <= k < frames@.len() ==> spec_operation_frame(
                    spec_dispatched_ops(old(self).nodes@)[k],
                    #[trigger] frames@[k],
                ),
    {
        let ghost orig = *self;
        let mut frames: Vec<RawCanFrame> = Vec::new();
        let mut i: usize = 0;
        proof {
            assert(orig.nodes@.take(0) =~= Seq::<NodeEntry>::empty());
        }
        while i < self.nodes.len()
            invariant
                orig.wf(),
                i <= orig.nodes@.len(),
                self.nodes@.len() == orig.nodes@.len(),
                forall|j: int| i <= j < orig.nodes@.len() ==> self.nodes@[j] == orig.nodes@[j],
                forall|j: int|
                    0 <= j < i ==> {
                        let before = orig.nodes@[j];
                        let after = #[trigger] self.nodes@[j];
                        &&& after.node_id == before.node_id
                        &&& spec_dispatches(before.state) ==> ((after.state.active_request matches
                            Some(a) && a.token == before.state.pending_requests@[0].token
                            && a.operation == before.state.pending_requests@[0].operation
                            && a.submitted_ms == now_ms) && after.state.pending_requests@
                            == before.state.pending_requests@.skip(1) && after.state.timeout_ms
                            == before.state.timeout_ms)
                        &&& !spec_dispatches(before.state) ==> after == before
                    },
                frames@.len() == spec_dispatched_ops(orig.nodes@.take(i as int)).len(),
                forall|k: int|
                    0 <= k < frames@.len() ==> spec_operation_frame(
                        spec_dispatched_ops(orig.nodes@.take(i as int))[k],
                        #[trigger] frames@[k],
                    ),
            decreases orig.nodes@.len() - i,
        {
            proof {
                assert(orig.nodes@.take(i + 1) =~= orig.nodes@.take(i as int).push(
                    orig.nodes@[i as int],
                ));
                lemma_dispatched_ops_push(orig.nodes@.take(i as int), orig.nodes@[i as int]);
            }
            let needs_dispatch = self.nodes[i].state.active_request.is_none()
                && self.nodes[i].state.pending_requests.len() > 0;
            if needs_dispatch {
                let entry = &mut self.nodes[i];
                let started = entry.state.start_next_request(now_ms);
                match started {
                    Some(p) => {
                        let frame_result = match &p.operation {
                            SdoOperation::Read(request) => crate::sdo::create_sdo_request_frame(
                                request,
                            ),
                            SdoOperation::Write(request) => crate::sdo::create_sdo_write_frame(
                                request,
                            ),
                        };
                        match frame_result {
                            Ok(f) => {
                                frames.push(f);
                            },
                            Err(_) => {},
                        }
                    },
                    None => {},
                }
            }
            proof {
                let ops = spec_dispatched_ops(orig.nodes@.take(i + 1));
                assert(frames@.len() == ops.len());
                assert forall|k: int| 0 <= k < frames@.len() implies spec_operation_frame(
                    ops[k],
                    #[trigger] frames@[k],
                ) by {
                    if k < frames@.len() - 1
                        || ops == spec_dispatched_ops(orig.nodes@.take(i as int)) {
                        assert(ops[k] == spec_dispatched_ops(orig.nodes@.take(i as int))[k]);
                    }
                }
            }
            i = i + 1;
        }
        proof {
            assert(orig.nodes@.take(i as int) =~= orig.nodes@);
            assert forall|p: int, q: int|
                0 <= p < q < self.nodes@.len() implies self.nodes@[p].node_id
                != self.nodes@[q].node_id by {
                assert(self.nodes@[p].node_id == orig.nodes@[p].node_id);
                assert(self.nodes@[q].node_id == orig.nodes@[q].node_id);
            }
        }
        frames
    }
}

/// The timeout completion a single device contributes at the given clock
/// reading: one timeout error for its overdue active operation, or nothing.
pub open spec fn spec_node_timeout_completion(e: NodeEntry, now_ms: u64) -> Seq<
    CompletedOperation,
> {
    if e.state.spec_overdue(now_ms) {
        let a = e.state.active_request->0;
        seq![
            CompletedOperation {
                token: a.token,
                outcome: match a.operation {
                    SdoOperation::Read(_) => SdoOperationOutcome::Read(Err(SdoError::Timeout)),
                    SdoOperation::Write(_) => SdoOperationOutcome::Write(Err(SdoError::Timeout)),
                },
            },
        ]
    } else {
        Seq::empty()
    }
}

/// The timeout completions a registry produces at the given clock reading:
/// one per overdue device, in registry order.
pub open spec fn spec_timeout_completions(nodes: Seq<NodeEntry>, now_ms: u64) -> Seq<
    CompletedOperation,
>
    decreases nodes.len(),
{
    if nodes.len() == 0 {
        Seq::empty()
    } else {
        spec_node_timeout_completion(nodes[0], now_ms) + spec_timeout_completions(
            nodes.skip(1),
            now_ms,
        )
    }
}

/// Appending a device appends its timeout contribution.
pub proof fn lemma_timeout_completions_push(nodes: Seq<NodeEntry>, e: NodeEntry, now_ms: u64)
    ensures
        spec_timeout_completions(nodes.push(e), now_ms) == spec_timeout_completions(nodes, now_ms)
            + spec_node_timeout_completion(e, now_ms),
    decreases nodes.len(),
{
    if nodes.len() == 0 {
        assert(nodes.push(e)[0] == e);
        assert(nodes.push(e).skip(1) =~= Seq::<NodeEntry>::empty());
        assert(spec_timeout_completions(Seq::<NodeEntry>::empty(), now_ms)
            == Seq::<CompletedOperation>::empty());
        assert(spec_timeout_completions(nodes.push(e), now_ms) =~= spec_timeout_completions(
            nodes,
            now_ms,
        ) + spec_node_timeout_completion(e, now_ms));
    } else {
        assert(nodes.push(e).skip(1) =~= nodes.skip(1).push(e));
        lemma_timeout_completions_push(nodes.skip(1), e, now_ms);
        assert(nodes.push(e)[0] == nodes[0]);
        assert(spec_timeout_completions(nodes.push(e), now_ms) =~= spec_timeout_completions(
            nodes,
            now_ms,
        ) + spec_node_timeout_completion(e, now_ms));
    }
}

/// The operations a registry dispatches on one pass whose frames can be
/// encoded, in registry order.
pub open spec fn spec_dispatched_ops(nodes: Seq<NodeEntry>) -> Seq<SdoOperation>
    decreases nodes.len(),
{
    if nodes.len() == 0 {
        Seq::empty()
    } else {
        spec_node_dispatched_op(nodes[0]) + spec_dispatched_ops(nodes.skip(1))
    }
}

/// The encodable operation a single device dispatches on one pass, if any.
pub open spec fn spec_node_dispatched_op(e: NodeEntry) -> Seq<SdoOperation> {
    if spec_dispatches(e.state) && spec_encodable(e.state.pending_requests@[0].operation) {
        seq![e.state.pending_requests@[0].operation]
    } else {
        Seq::empty()
    }
}

/// Appending a device appends its dispatched operation, if it has one.
pub proof fn lemma_dispatched_ops_push(nodes: Seq<NodeEntry>, e: NodeEntry)
    ensures
        spec_dispatched_ops(nodes.push(e)) == spec_dispatched_ops(nodes)
            + spec_node_dispatched_op(e),
    decreases nodes.len(),
{
    if nodes.len() == 0 {
        assert(nodes.push(e)[0] == e);
        assert(nodes.push(e).skip(1) =~= Seq::<NodeEntry>::empty());
        assert(spec_dispatched_ops(Seq::<NodeEntry>::empty()) == Seq::<SdoOperation>::empty());
        assert(spec_dispatched_ops(nodes.push(e)) =~= spec_dispatched_ops(nodes)
            + spec_node_dispatched_op(e));
    } else {
        assert(nodes.push(e).skip(1) =~= nodes.skip(1).push(e));
        lemma_dispatched_ops_push(nodes.skip(1), e);
        assert(nodes.push(e)[0] == nodes[0]);
        assert(spec_dispatched_ops(nodes.push(e)) =~= spec_dispatched_ops(nodes)
            + spec_node_dispatched_op(e));
    }
}

/// A device in this state dispatches on the next pass: nothing active,
/// something queued.
pub open spec fn spec_dispatches(ns: NodeState) -> bool {
    ns.active_request is None && ns.pending_requests@.len() > 0
}

/// Whether the operation's frame can be encoded at all: reads always can, a
/// write only when its payload fits the expedited limit.
pub open spec fn spec_encodable(op: SdoOperation) -> bool {
    match op {
        SdoOperation::Read(_) => true,
        SdoOperation::Write(request) => request.data@.len() <= 4,
    }
}

/// The frame that carries the given operation onto the bus.
pub open spec fn spec_operation_frame(op: SdoOperation, f: RawCanFrame) -> bool {
    match op {
        SdoOperation::Read(request) => f.cob_id == 0x600 + request.node_id && f.data@
            == crate::sdo::spec_request_frame_data(request),
        SdoOperation::Write(request) => request.data@.len() <= 4 && f.cob_id == 0x600
            + request.node_id && f.data@ == crate::sdo::spec_write_frame_data(request),
    }
}

/// The queue transition: an operation is appended at the back of a device's
/// queue, nothing else moves.
pub open spec fn spec_queue_transition(
    before: NodeState,
    after: NodeState,
    request: PendingSdoRequest,
) -> bool {
    &&& after.pending_requests@ == before.pending_requests@.push(request)
    &&& after.active_request == before.active_request
    &&& after.timeout_ms == before.timeout_ms
}

/// The dispatch transition: with nothing active, the queue front becomes the
/// active operation, its timeout clock restarted at the dispatch time.
pub open spec fn spec_start_transition(before: NodeState, after: NodeState, now_ms: u64) -> bool {
    &&& before.active_request is None
    &&& before.pending_requests@.len() > 0
    &&& (after.active_request matches Some(a) && a.token == before.pending_requests@[0].token
        && a.operation == before.pending_requests@[0].operation && a.submitted_ms == now_ms)
    &&& after.pending_requests@ == before.pending_requests@.skip(1)
    &&& after.timeout_ms == before.timeout_ms
}

/// The timeout transition: the overdue active operation is completed with an
/// error and its slot freed; the queue is untouched.
pub open spec fn spec_timeout_transition(before: NodeState, after: NodeState, now_ms: u64) -> bool {
    &&& before.spec_overdue(now_ms)
    &&& after.active_request is None
    &&& after.pending_requests@ == before.pending_requests@
    &&& after.timeout_ms == before.timeout_ms
}

/// Operations queued on one device complete in submission order: queueing
/// two operations `a` then `b` places their tokens in the device's
/// completion order with `a` strictly before `b`, whatever was already
/// queued - and since every completion (response or timeout) removes only
/// the front of that order, `a` completes before `b`.
pub proof fn lemma_same_node_fifo(
    ns0: NodeState,
    ns1: NodeState,
    ns2: NodeState,
    a: PendingSdoRequest,
    b: PendingSdoRequest,
)
    requires
        spec_queue_transition(ns0, ns1, a),
        spec_queue_transition(ns1, ns2, b),
    ensures
        ({
            let order = ns2.spec_completion_order();
            &&& order.len() >= 2
            &&& order[order.len() - 2] == a.token
            &&& order[order.len() - 1] == b.token
        }),
{
    assert(ns1.spec_completion_order() =~= ns0.spec_completion_order().push(a.token));
    assert(ns2.spec_completion_order() =~= ns1.spec_completion_order().push(b.token));
}

/// Timeout frees the slot for the next queued operation: after the overdue
/// active operation is completed with a timeout error, the very next
/// dispatch activates the operation that was at the queue front - a dead
/// slot never blocks the queue.
pub proof fn lemma_timeout_unblocks_next(
    ns0: NodeState,
    ns1: NodeState,
    ns2: NodeState,
    now_ms: u64,
    dispatch_ms: u64,
)
    requires
        ns0.pending_requests@.len() > 0,
        spec_timeout_transition(ns0, ns1, now_ms),
        spec_start_transition(ns1, ns2, dispatch_ms),
    ensures
        ns2.active_request matches Some(a) && a.token == ns0.pending_requests@[0].token
            && a.operation == ns0.pending_requests@[0].operation && a.submitted_ms == dispatch_ms,
        ns2.spec_completion_order() == ns0.spec_completion_order().skip(1),
{
    assert(ns2.spec_completion_order() =~= ns0.spec_completion_order().skip(1));
}

/// In a well-formed registry where only position `i` changed and its id
/// stayed put, well-formedness, membership and every other entry carry over.
proof fn lemma_same_layout_registry(
    before: Seq<NodeEntry>,
    after: Seq<NodeEntry>,
    i: int,
    node_id: u8,
)
    requires
        forall|p: int, q: int| 0 <= p < q < before.len() ==> before[p].node_id != before[q].node_id,
        0 <= i < before.len(),
        before[i].node_id == node_id,
        after.len() == before.len(),
        after[i].node_id == node_id,
        forall|j: int| 0 <= j < before.len() && j != i ==> after[j] == before[j],
    ensures
        forall|p: int, q: int| 0 <= p < q < after.len() ==> after[p].node_id != after[q].node_id,
        forall|j: int| 0 <= j < after.len() ==> after[j].node_id == before[j].node_id,
{
    assert forall|j: int| 0 <= j < after.len() implies after[j].node_id == before[j].node_id by {
        if j != i {
            assert(after[j] == before[j]);
        }
    }
}

/// Each entry that removing position `i` keeps comes from its old position:
/// entries before `i` stay put, later ones shift down by one.
proof fn lemma_remove_entry(before: Seq<NodeEntry>, after: Seq<NodeEntry>, i: int, j: int)
    requires
        0 <= i < before.len(),
        after == before.remove(i),
        0 <= j < after.len(),
    ensures
        j < i ==> after[j] == before[j],
        j >= i ==> after[j] == before[j + 1],
{
}


/// One object mapped into a TPDO when configuring it.
#[derive(Debug, Clone)]
pub struct TpdoMapping {
    pub index: u16,
    pub sub_index: u8,
    /// Bit length of the mapped field: 8, 16 or 32 for byte-aligned fields.
    pub bit_length: u8,
}

/// Parameters of one TPDO configuration transaction.
#[derive(Debug, Clone)]
pub struct TpdoConfigParams {
    /// TPDO number, 1-4; selects communication parameter object
    /// 0x1800..0x1803 and mapping parameter object 0x1A00..0x1A03.
    pub tpdo_number: u8,
    /// COB identifier the TPDO broadcasts on.
    pub cob_id: u16,
    /// 0xFE = event-driven, 0xFF = device profile specific, 1-240 = sync.
    pub transmission_type: u8,
    /// Minimum spacing between transmissions, in units of 100 microseconds;
    /// zero writes nothing.
    pub inhibit_time_100us: u16,
    /// Periodic transmission timer in milliseconds; zero writes nothing.
    pub event_timer_ms: u16,
    /// The objects to map, at most 8.
    pub mappings: Vec<TpdoMapping>,
}

/// A TPDO mapping entry packed for the object dictionary: object index in
/// bits 31-16, sub-index in bits 15-8, bit length in bits 7-0.
pub open spec fn spec_tpdo_mapping_value(m: TpdoMapping) -> u32 {
    (65536 * m.index + 256 * m.sub_index + m.bit_length) as u32
}

/// How many SDO writes one TPDO configuration transaction issues: disable,
/// zero the count, one per mapping, the final count, the transmission type,
/// the two optional timings, and re-enable.
pub open spec fn spec_tpdo_write_count(c: TpdoConfigParams) -> int {
    5 + c.mappings@.len() + (if c.inhibit_time_100us > 0 {
        1int
    } else {
        0int
    }) + (if c.event_timer_ms > 0 {
        1int
    } else {
        0int
    })
}

/// The target address and payload of step `k` of a TPDO configuration
/// transaction, as (object index, sub-index, payload bytes). The order is
/// fixed by the protocol: the TPDO must be disabled and its mapping count
/// zeroed before mapping entries may be rewritten, and re-enabled last.
pub open spec fn spec_tpdo_write_step(c: TpdoConfigParams, k: int) -> (u16, u8, Seq<u8>)
    recommends
        1 <= c.tpdo_number <= 4,
        0 <= k < spec_tpdo_write_count(c),
{
    let comm = (0x1800 + (c.tpdo_number - 1)) as u16;
    let map = (0x1A00 + (c.tpdo_number - 1)) as u16;
    let n = c.mappings@.len() as int;
    let inhibit: int = if c.inhibit_time_100us > 0 {
        1
    } else {
        0
    };
    if k == 0 {
        (comm, 1u8, crate::sdo::spec_u32_le_bytes((c.cob_id + 0x8000_0000) as u32))
    } else if k == 1 {
        (map, 0u8, seq![0u8])
    } else if k < 2 + n {
        (map, (k - 1) as u8, crate::sdo::spec_u32_le_bytes(spec_tpdo_mapping_value(c.mappings@[k - 2])))
    } else if k == 2 + n {
        (map, 0u8, seq![n as u8])
    } else if k == 3 + n {
        (comm, 2u8, seq![c.transmission_type])
    } else if c.inhibit_time_100us > 0 && k == 4 + n {
        (comm, 3u8, crate::sdo::spec_u16_le_bytes(c.inhibit_time_100us))
    } else if c.event_timer_ms > 0 && k == 4 + n + inhibit {
        (comm, 5u8, crate::sdo::spec_u16_le_bytes(c.event_timer_ms))
    } else {
        (comm, 1u8, crate::sdo::spec_u32_le_bytes(c.cob_id as u32))
    }
}

/// Whether a write request performs step `k` of the transaction for the
/// given node: right address, right payload.
pub open spec fn spec_is_tpdo_write_step(
    node_id: u8,
    c: TpdoConfigParams,
    k: int,
    w: SdoWriteRequest,
) -> bool {
    let step = spec_tpdo_write_step(c, k);
    w.node_id == node_id && w.index == step.0 && w.subindex == step.1 && w.data@ == step.2
}

/// Build the ordered SDO write sequence that configures one TPDO.
///
/// Validation precedes everything: a TPDO number outside 1-4 or more than 8
/// mappings rejects the whole transaction before any write is produced.
/// On success the writes are exactly `spec_tpdo_write_step` 0, 1, ... in
/// order: disable the TPDO, zero its mapping count, write each mapping,
/// write the final count, the transmission type, the non-zero optional
/// timings, and re-enable the TPDO.
pub fn tpdo_configuration_writes(node_id: u8, config: &TpdoConfigParams) -> (r: Result<
    Vec<SdoWriteRequest>,
    CANopenError,
>)
    ensures
        r is Ok <==> (1 <= config.tpdo_number <= 4 && config.mappings@.len() <= 8),
        r matches Ok(w) ==> w@.len() == spec_tpdo_write_count(*config) && (forall|k: int|
            0 <= k < w@.len() ==> spec_is_tpdo_write_step(node_id, *config, k, #[trigger] w@[k])),
        !(1 <= config.tpdo_number <= 4) ==> (r matches Err(e) && e matches
            CANopenError::RequestFailed(m) && m@ == "TPDO number must be 1-4"@),
        1 <= config.tpdo_number <= 4 && config.mappings@.len() > 8 ==> (r matches Err(e)
            && e matches CANopenError::RequestFailed(m) && m@
            == "Maximum 8 objects can be mapped to a TPDO"@),
{
    if config.tpdo_number < 1 || config.tpdo_number > 4 {
        return Err(CANopenError::RequestFailed(String::from_str("TPDO number must be 1-4")));
    }
    if config.mappings.len() > 8 {
        return Err(
            CANopenError::RequestFailed(
                String::from_str("Maximum 8 objects can be mapped to a TPDO"),
            ),
        );
    }
    let comm_param_index: u16 = 0x1800 + (config.tpdo_number - 1) as u16;
    let mapping_param_index: u16 = 0x1A00 + (config.tpdo_number - 1) as u16;
    let n = config.mappings.len();
    let mut w: Vec<SdoWriteRequest> = Vec::new();

    // Disable the TPDO: its COB-ID with the invalid bit (bit 31) set.
    let disabled_cob_id: u32 = config.cob_id as u32 + 0x8000_0000;
    w.push(
        SdoWriteRequest {
            node_id,
            index: comm_param_index,
            subindex: 1,
            data: crate::sdo::u32_le_bytes(disabled_cob_id),
        },
    );
    // The mapping count must be zero before mapping entries may change.
    let mut zero: Vec<u8> = Vec::new();
    zero.push(0);
    w.push(SdoWriteRequest { node_id, index: mapping_param_index, subindex: 0, data: zero });
    let mut i: usize = 0;
    while i < n
        invariant
            n == config.mappings@.len() <= 8,
            1 <= config.tpdo_number <= 4,
            comm_param_index == 0x1800 + (config.tpdo_number - 1),
            mapping_param_index == 0x1A00 + (config.tpdo_number - 1),
            i <= n,
            w@.len() == 2 + i,
            forall|k: int|
                0 <= k < w@.len() ==> spec_is_tpdo_write_step(node_id, *config, k, #[trigger] w@[k]),
        decreases n - i,
    {
        let m = &config.mappings[i];
        let mapping_value: u32 = 65536 * (m.index as u32) + 256 * (m.sub_index as u32)
            + m.bit_length as u32;
        w.push(
            SdoWriteRequest {
                node_id,
                index: mapping_param_index,
                subindex: (i + 1) as u8,
                data: crate::sdo::u32_le_bytes(mapping_value),
            },
        );
        i = i + 1;
    }
    let mut count: Vec<u8> = Vec::new();
    count.push(n as u8);
    w.push(SdoWriteRequest { node_id, index: mapping_param_index, subindex: 0, data: count });
    let mut tt: Vec<u8> = Vec::new();
    tt.push(config.transmission_type);
    w.push(SdoWriteRequest { node_id, index: comm_param_index, subindex: 2, data: tt });
    if config.inhibit_time_100us > 0 {
        w.push(
            SdoWriteRequest {
                node_id,
                index: comm_param_index,
                subindex: 3,
                data: crate::sdo::u16_le_bytes(config.inhibit_time_100us),
            },
        );
    }
    if config.event_timer_ms > 0 {
        w.push(
            SdoWriteRequest {
                node_id,
                index: comm_param_index,
                subindex: 5,
                data: crate::sdo::u16_le_bytes(config.event_timer_ms),
            },
        );
    }
    // Re-enable the TPDO: the COB-ID without the invalid bit.
    w.push(
        SdoWriteRequest {
            node_id,
            index: comm_param_index,
            subindex: 1,
            data: crate::sdo::u32_le_bytes(config.cob_id as u32),
        },
    );
    Ok(w)
}

} // verus!
