//! The two backing stores for a graph's operation and data streams.
//!
//! One contract, two implementations: an owned, unbounded store used for
//! corpus entries and generation, and a bounded store with explicit write
//! cursors standing for the fixed shared-memory region handed to the target.
//! Appends into the bounded store fail past capacity instead of growing.

use vstd::prelude::*;

use crate::nodes::{decompose, GraphNode, NodeView};
use crate::spec::GraphSpec;

verus! {

/// One contract over both graph stores.  The views expose the op and data
/// streams; the room spec functions say how much more fits.
pub trait GraphStorage: Sized {
    /// The op stream written so far.
    spec fn ops_view(&self) -> Seq<u16>;

    /// The data stream written so far.
    spec fn data_view(&self) -> Seq<u8>;

    /// How many more ops fit.
    spec fn spec_ops_room(&self) -> nat;

    /// How many more data bytes fit.
    spec fn spec_data_room(&self) -> nat;

    /// Reset both streams to empty, reclaiming exactly their room: the
    /// capacity never changes.
    fn clear(&mut self)
        ensures
            final(self).ops_view() == Seq::<u16>::empty(),
            final(self).data_view() == Seq::<u8>::empty(),
            final(self).spec_ops_room() == old(self).spec_ops_room() + old(self).ops_view().len(),
            final(self).spec_data_room() == old(self).spec_data_room() + old(
                self,
            ).data_view().len(),
    ;

    /// Shrink the streams to the given lengths.  Growing is not shrinking:
    /// lengths beyond the current ones are rejected by contract.
    fn truncate_to(&mut self, ops_i: usize, data_i: usize)
        requires
            ops_i <= old(self).ops_view().len(),
            data_i <= old(self).data_view().len(),
        ensures
            final(self).ops_view() == old(self).ops_view().take(ops_i as int),
            final(self).data_view() == old(self).data_view().take(data_i as int),
            final(self).spec_ops_room() == old(self).spec_ops_room() + old(
                self,
            ).ops_view().len() - ops_i,
            final(self).spec_data_room() == old(self).spec_data_room() + old(
                self,
            ).data_view().len() - data_i,
    ;

    /// Append one op; `None` (and no change) exactly when no room is
    /// left.  Room is never created: a successful append uses up exactly
    /// one slot, so the capacity (room plus length) stays fixed.
    fn append_op(&mut self, op: u16) -> (r: Option<()>)
        ensures
            r is Some <==> old(self).spec_ops_room() > 0,
            r is Some ==> final(self).ops_view() == old(self).ops_view().push(op)
                && final(self).data_view() == old(self).data_view()
                && final(self).spec_ops_room() == old(self).spec_ops_room() - 1,
            r is None ==> *final(self) == *old(self),
            final(self).spec_data_room() == old(self).spec_data_room(),
    ;

    /// Append a byte run; `None` (and no change) exactly when it does not
    /// fit whole.  Never writes a partial run, and never writes past the
    /// capacity: a successful append uses up exactly the run's length of
    /// room.
    fn append_data(&mut self, data: &[u8]) -> (r: Option<()>)
        ensures
            r is Some <==> old(self).spec_data_room() >= data@.len(),
            r is Some ==> final(self).data_view() == old(self).data_view() + data@
                && final(self).ops_view() == old(self).ops_view()
                && final(self).spec_data_room() == old(self).spec_data_room() - data@.len(),
            r is None ==> *final(self) == *old(self),
            final(self).spec_ops_room() == old(self).spec_ops_room(),
    ;

    /// The room left for data bytes, capped at the unbounded sentinel.
    fn data_available(&self) -> (r: usize)
        ensures
            r == self.spec_data_room(),
    ;

    /// The room left for ops, capped at the unbounded sentinel.
    fn ops_available(&self) -> (r: usize)
        ensures
            r == self.spec_ops_room(),
    ;

    /// Predicts that appending this node's ops and data will succeed, before
    /// anything is written: no partial writes into a region a target reads.
    fn can_append(&self, node: &GraphNode) -> (r: bool)
        ensures
            r == (node.data@.len() < self.spec_data_room() && node.ops@.len()
                <= self.spec_ops_room()),
    ;

    /// Number of ops written.
    fn op_len(&self) -> (r: usize)
        ensures
            r == self.ops_view().len(),
    ;

    /// Number of data bytes written.
    fn data_len(&self) -> (r: usize)
        ensures
            r == self.data_view().len(),
    ;

    /// Whether no op has been written.
    fn is_empty(&self) -> (r: bool)
        ensures
            r == (self.ops_view().len() == 0),
    ;

    /// The op stream as a slice.
    fn ops_as_slice(&self) -> (r: &[u16])
        ensures
            r@ == self.ops_view(),
    ;

    /// The data stream as a slice.
    fn data_as_slice(&self) -> (r: &[u8])
        ensures
            r@ == self.data_view(),
    ;

    /// Number of nodes the streams decompose into under `sp` (zero when
    /// they do not decompose).
    fn node_len(&self, sp: &GraphSpec) -> (r: usize)
        requires
            sp.wf(),
        ensures
            decompose(sp, self.ops_view(), self.data_view()) matches Some(views) ==> r
                == views.len(),
            decompose(sp, self.ops_view(), self.data_view()) is None ==> r == 0,
    ;

    /// Copy both streams out into an owned graph.
    fn as_vec_graph(&self) -> (r: VecGraph)
        ensures
            r.ops@ == self.ops_view(),
            r.data@ == self.data_view(),
    ;
}

/// The owned, append-only, unbounded store: corpus entries, splicing
/// sources, generation scratch.
#[derive(Debug)]
pub struct VecGraph {
    pub ops: Vec<u16>,
    pub data: Vec<u8>,
}

impl Clone for VecGraph {
    fn clone(&self) -> (r: Self)
        ensures
            r.ops@ == self.ops@,
            r.data@ == self.data@,
    {
        VecGraph { ops: self.ops.clone(), data: self.data.clone() }
    }
}

impl VecGraph {
    /// A graph from existing streams.
    pub fn new(ops: Vec<u16>, data: Vec<u8>) -> (r: Self)
        ensures
            r.ops@ == ops@,
            r.data@ == data@,
    {
        VecGraph { ops, data }
    }

    /// A graph of `op_len` zero ops and `data_len` zero bytes.
    pub fn new_with_size(op_len: usize, data_len: usize) -> (r: Self)
        ensures
            r.ops@ == Seq::<u16>::new(op_len as nat, |i: int| 0u16),
            r.data@ == Seq::<u8>::new(data_len as nat, |i: int| 0u8),
    {
        let mut ops: Vec<u16> = Vec::new();
        let mut i: usize = 0;
        while i < op_len
            invariant
                i <= op_len,
                ops@ =~= Seq::<u16>::new(i as nat, |j: int| 0u16),
            decreases op_len - i,
        {
            ops.push(0);
            proof {
                assert(ops@ =~= Seq::<u16>::new((i + 1) as nat, |j: int| 0u16));
            }
            i = i + 1;
        }
        let mut data: Vec<u8> = Vec::new();
        let mut i: usize = 0;
        while i < data_len
            invariant
                i <= data_len,
                data@ =~= Seq::<u8>::new(i as nat, |j: int| 0u8),
            decreases data_len - i,
        {
            data.push(0);
            proof {
                assert(data@ =~= Seq::<u8>::new((i + 1) as nat, |j: int| 0u8));
            }
            i = i + 1;
        }
        VecGraph { ops, data }
    }

    /// The empty graph.
    pub fn empty() -> (r: Self)
        ensures
            r.ops@ == Seq::<u16>::empty(),
            r.data@ == Seq::<u8>::empty(),
    {
        VecGraph { ops: Vec::new(), data: Vec::new() }
    }

    /// The decomposed node list, or `None` when the streams do not parse
    /// under `sp`.
    pub fn nodes(&self, sp: &GraphSpec) -> (r: Option<Vec<GraphNode>>)
        requires
            sp.wf(),
        ensures
            match r {
                Some(nodes) => {
                    &&& decompose(sp, self.ops@, self.data@) matches Some(views) && nodes@.len()
                        == views.len() && (forall|i: int|
                        0 <= i < nodes@.len() ==> (#[trigger] nodes@[i])@ == views[i])
                },
                None => decompose(sp, self.ops@, self.data@) is None,
            },
    {
        crate::nodes::parse_nodes(sp, self.ops.as_slice(), self.data.as_slice())
    }

    /// The payload length stored in the last node's length prefix, or zero
    /// when there is no node or its data span has no two-byte prefix.
    pub fn get_last_node_data_length(&self, sp: &GraphSpec) -> (r: usize)
        requires
            sp.wf(),
        ensures
            decompose(sp, self.ops@, self.data@) matches Some(views) ==> r == ({
                if views.len() > 0 && views.last().data.len() >= 2 {
                    crate::bytes::le16_val(views.last().data[0], views.last().data[1]) as nat
                } else {
                    0nat
                }
            }),
    {
        match self.nodes(sp) {
            Some(nodes) => {
                if nodes.len() > 0 {
                    let last = &nodes[nodes.len() - 1];
                    if last.data.len() >= 2 {
                        crate::bytes::read_le16(last.data[0], last.data[1]) as usize
                    } else {
                        0
                    }
                } else {
                    0
                }
            },
            None => 0,
        }
    }
}

impl GraphStorage for VecGraph {
    open spec fn ops_view(&self) -> Seq<u16> {
        self.ops@
    }

    open spec fn data_view(&self) -> Seq<u8> {
        self.data@
    }

    open spec fn spec_ops_room(&self) -> nat {
        (usize::MAX - self.ops@.len()) as nat
    }

    open spec fn spec_data_room(&self) -> nat {
        (usize::MAX - self.data@.len()) as nat
    }

    fn clear(&mut self) {
        proof {
            assert(vstd::std_specs::vec::spec_vec_len(&self.ops) == self.ops@.len());
            assert(vstd::std_specs::vec::spec_vec_len(&self.data) == self.data@.len());
        }
        self.ops.clear();
        self.data.clear();
    }

    fn truncate_to(&mut self, ops_i: usize, data_i: usize) {
        proof {
            assert(vstd::std_specs::vec::spec_vec_len(&self.ops) == self.ops@.len());
            assert(vstd::std_specs::vec::spec_vec_len(&self.data) == self.data@.len());
        }
        self.ops.truncate(ops_i);
        self.data.truncate(data_i);
    }

    fn append_op(&mut self, op: u16) -> (r: Option<()>) {
        proof {
            assert(vstd::std_specs::vec::spec_vec_len(&self.ops) == self.ops@.len());
            assert(vstd::std_specs::vec::spec_vec_len(&self.data) == self.data@.len());
        }
        if self.ops.len() < usize::MAX {
            self.ops.push(op);
            Some(())
        } else {
            None
        }
    }

    fn append_data(&mut self, data: &[u8]) -> (r: Option<()>) {
        proof {
            assert(vstd::std_specs::vec::spec_vec_len(&self.ops) == self.ops@.len());
            assert(vstd::std_specs::vec::spec_vec_len(&self.data) == self.data@.len());
        }
        if data.len() > usize::MAX - self.data.len() {
            return None;
        }
        let mut i: usize = 0;
        while i < data.len()
            invariant
                i <= data@.len(),
                old(self).data@.len() + data@.len() <= usize::MAX,
                self.data@ =~= old(self).data@ + data@.take(i as int),
                self.ops@ == old(self).ops@,
            decreases data@.len() - i,
        {
            self.data.push(data[i]);
            proof {
                assert(old(self).data@ + data@.take(i as int) + seq![data@[i as int]] =~= old(
                    self,
                ).data@ + data@.take(i + 1));
            }
            i = i + 1;
        }
        proof {
            assert(data@.take(data@.len() as int) =~= data@);
        }
        Some(())
    }

    fn data_available(&self) -> (r: usize) {
        usize::MAX - self.data.len()
    }

    fn ops_available(&self) -> (r: usize) {
        usize::MAX - self.ops.len()
    }

    fn can_append(&self, node: &GraphNode) -> (r: bool) {
        node.data.len() < usize::MAX - self.data.len() && node.ops.len() <= usize::MAX
            - self.ops.len()
    }

    fn op_len(&self) -> (r: usize) {
        self.ops.len()
    }

    fn data_len(&self) -> (r: usize) {
        self.data.len()
    }

    fn is_empty(&self) -> (r: bool) {
        self.ops.len() == 0
    }

    fn ops_as_slice(&self) -> (r: &[u16]) {
        self.ops.as_slice()
    }

    fn data_as_slice(&self) -> (r: &[u8]) {
        self.data.as_slice()
    }

    fn node_len(&self, sp: &GraphSpec) -> (r: usize) {
        crate::nodes::count_nodes(sp, self.ops.as_slice(), self.data.as_slice())
    }

    fn as_vec_graph(&self) -> (r: VecGraph) {
        VecGraph { ops: self.ops.clone(), data: self.data.clone() }
    }
}

/// The bounded store: fixed-size buffers with explicit write cursors,
/// standing for the shared-memory payload region read by the target.
/// Appends past capacity fail instead of growing.
#[derive(Debug)]
pub struct BoundedGraph {
    /// Fixed op buffer; only the first `ops_i` entries are the stream.
    pub ops: Vec<u16>,
    /// Write cursor into `ops`.
    pub ops_i: usize,
    /// Fixed data buffer; only the first `data_i` bytes are the stream.
    pub data: Vec<u8>,
    /// Write cursor into `data`.
    pub data_i: usize,
}

impl BoundedGraph {
    /// Cursors never pass their buffers' ends.
    pub open spec fn wf(&self) -> bool {
        self.ops_i <= self.ops@.len() && self.data_i <= self.data@.len()
    }

    /// A bounded store of the given op and data capacities, empty.
    pub fn new(op_capacity: usize, data_capacity: usize) -> (r: Self)
        ensures
            r.wf(),
            r.ops_view() == Seq::<u16>::empty(),
            r.data_view() == Seq::<u8>::empty(),
            r.spec_ops_room() == op_capacity,
            r.spec_data_room() == data_capacity,
    {
        let backing = VecGraph::new_with_size(op_capacity, data_capacity);
        BoundedGraph { ops: backing.ops, ops_i: 0, data: backing.data, data_i: 0 }
    }
}

impl GraphStorage for BoundedGraph {
    open spec fn ops_view(&self) -> Seq<u16> {
        if self.ops_i <= self.ops@.len() {
            self.ops@.take(self.ops_i as int)
        } else {
            self.ops@
        }
    }

    open spec fn data_view(&self) -> Seq<u8> {
        if self.data_i <= self.data@.len() {
            self.data@.take(self.data_i as int)
        } else {
            self.data@
        }
    }

    open spec fn spec_ops_room(&self) -> nat {
        if self.ops_i <= self.ops@.len() {
            (self.ops@.len() - self.ops_i) as nat
        } else {
            0
        }
    }

    open spec fn spec_data_room(&self) -> nat {
        if self.data_i <= self.data@.len() {
            (self.data@.len() - self.data_i) as nat
        } else {
            0
        }
    }

    fn clear(&mut self) {
        self.ops_i = 0;
        self.data_i = 0;
    }

    fn truncate_to(&mut self, ops_i: usize, data_i: usize) {
        proof {
            assert(old(self).ops_view().take(ops_i as int) =~= self.ops@.take(ops_i as int));
            assert(old(self).data_view().take(data_i as int) =~= self.data@.take(data_i as int));
        }
        self.ops_i = ops_i;
        self.data_i = data_i;
    }

    fn append_op(&mut self, op: u16) -> (r: Option<()>) {
        if self.ops_i < self.ops.len() {
            self.ops.set(self.ops_i, op);
            self.ops_i = self.ops_i + 1;
            proof {
                assert(self.ops@.take(self.ops_i as int) =~= old(self).ops@.take(
                    old(self).ops_i as int,
                ).push(op));
                assert(self.data@.take(self.data_i as int) =~= old(self).data@.take(
                    old(self).data_i as int,
                ));
            }
            Some(())
        } else {
            None
        }
    }

    fn append_data(&mut self, data: &[u8]) -> (r: Option<()>) {
        if data.len() == 0 {
            proof {
                assert(self.data_view() + data@ =~= self.data_view());
            }
            return Some(());
        }
        if self.data_i <= self.data.len() && data.len() <= self.data.len() - self.data_i {
            let mut i: usize = 0;
            while i < data.len()
                invariant
                    i <= data@.len(),
                    self.data_i == old(self).data_i,
                    self.data_i + data@.len() <= self.data@.len(),
                    self.data@.len() <= usize::MAX,
                    self.data@.len() == old(self).data@.len(),
                    self.ops@ == old(self).ops@,
                    self.ops_i == old(self).ops_i,
                    self.data@ =~= old(self).data@.map(
                        |j: int, b: u8|
                            if old(self).data_i <= j < old(self).data_i + i {
                                data@[j - old(self).data_i]
                            } else {
                                b
                            },
                    ),
                decreases data@.len() - i,
            {
                self.data.set(self.data_i + i, data[i]);
                proof {
                    assert(self.data@ =~= old(self).data@.map(
                        |j: int, b: u8|
                            if old(self).data_i <= j < old(self).data_i + (i + 1) {
                                data@[j - old(self).data_i]
                            } else {
                                b
                            },
                    ));
                }
                i = i + 1;
            }
            self.data_i = self.data_i + data.len();
            proof {
                assert(self.data@.take(self.data_i as int) =~= old(self).data@.take(
                    old(self).data_i as int,
                ) + data@);
                assert(self.ops@.take(self.ops_i as int) =~= old(self).ops@.take(
                    old(self).ops_i as int,
                ));
            }
            Some(())
        } else {
            None
        }
    }

    fn data_available(&self) -> (r: usize) {
        if self.data_i <= self.data.len() {
            self.data.len() - self.data_i
        } else {
            0
        }
    }

    fn ops_available(&self) -> (r: usize) {
        if self.ops_i <= self.ops.len() {
            self.ops.len() - self.ops_i
        } else {
            0
        }
    }

    fn can_append(&self, node: &GraphNode) -> (r: bool) {
        let data_room = if self.data_i <= self.data.len() {
            self.data.len() - self.data_i
        } else {
            0
        };
        let ops_room = if self.ops_i <= self.ops.len() {
            self.ops.len() - self.ops_i
        } else {
            0
        };
        node.data.len() < data_room && node.ops.len() <= ops_room
    }

    fn op_len(&self) -> (r: usize) {
        if self.ops_i <= self.ops.len() {
            self.ops_i
        } else {
            self.ops.len()
        }
    }

    fn data_len(&self) -> (r: usize) {
        if self.data_i <= self.data.len() {
            self.data_i
        } else {
            self.data.len()
        }
    }

    fn is_empty(&self) -> (r: bool) {
        self.op_len() == 0
    }

    fn ops_as_slice(&self) -> (r: &[u16]) {
        let end = if self.ops_i <= self.ops.len() {
            self.ops_i
        } else {
            self.ops.len()
        };
        vstd::slice::slice_subrange(self.ops.as_slice(), 0, end)
    }

    fn data_as_slice(&self) -> (r: &[u8]) {
        let end = if self.data_i <= self.data.len() {
            self.data_i
        } else {
            self.data.len()
        };
        vstd::slice::slice_subrange(self.data.as_slice(), 0, end)
    }

    fn node_len(&self, sp: &GraphSpec) -> (r: usize) {
        crate::nodes::count_nodes(sp, self.ops_as_slice(), self.data_as_slice())
    }

    fn as_vec_graph(&self) -> (r: VecGraph) {
        let mut ops: Vec<u16> = Vec::new();
        let end_ops = if self.ops_i <= self.ops.len() {
            self.ops_i
        } else {
            self.ops.len()
        };
        let mut i: usize = 0;
        while i < end_ops
            invariant
                i <= end_ops,
                end_ops <= self.ops@.len(),
                ops@ =~= self.ops@.subrange(0, i as int),
            decreases end_ops - i,
        {
            ops.push(self.ops[i]);
            i = i + 1;
        }
        let mut data: Vec<u8> = Vec::new();
        let end_data = if self.data_i <= self.data.len() {
            self.data_i
        } else {
            self.data.len()
        };
        let mut i: usize = 0;
        while i < end_data
            invariant
                i <= end_data,
                end_data <= self.data@.len(),
                data@ =~= self.data@.subrange(0, i as int),
            decreases end_data - i,
        {
            data.push(self.data[i]);
            i = i + 1;
        }
        proof {
            assert(ops@ =~= self.ops_view());
            assert(data@ =~= self.data_view());
        }
        VecGraph { ops, data }
    }
}

/// Two lengths of truncation compose: cutting to `a` twice is cutting once.
/// Since `truncate_to` leaves exactly the first `a` ops and `b` data bytes,
/// repeating it with the same arguments changes nothing.
pub proof fn lemma_truncate_idempotent(ops: Seq<u16>, data: Seq<u8>, a: int, b: int)
    requires
        0 <= a <= ops.len(),
        0 <= b <= data.len(),
    ensures
        ops.take(a).take(a) == ops.take(a),
        data.take(b).take(b) == data.take(b),
{
    assert(ops.take(a).take(a) =~= ops.take(a));
    assert(data.take(b).take(b) =~= data.take(b));
}

/// Rebuild `dst` as a copy of `graph`.
pub fn copy_from<S: GraphStorage>(dst: &mut S, graph: &VecGraph)
    requires
        old(dst).spec_ops_room() >= graph.ops@.len(),
        old(dst).spec_data_room() >= graph.data@.len(),
    ensures
        final(dst).ops_view() == graph.ops@,
        final(dst).data_view() == graph.data@,
{
    dst.clear();
    let mut i: usize = 0;
    while i < graph.ops.len()
        invariant
            i <= graph.ops@.len(),
            dst.ops_view() =~= graph.ops@.take(i as int),
            dst.data_view() == Seq::<u8>::empty(),
            dst.spec_ops_room() >= graph.ops@.len() - i,
            dst.spec_data_room() >= graph.data@.len(),
        decreases graph.ops@.len() - i,
    {
        let r = dst.append_op(graph.ops[i]);
        proof {
            assert(r is Some);
            assert(graph.ops@.take(i as int).push(graph.ops@[i as int]) =~= graph.ops@.take(i + 1));
        }
        i = i + 1;
    }
    proof {
        assert(graph.ops@.take(graph.ops@.len() as int) =~= graph.ops@);
    }
    let r = dst.append_data(graph.data.as_slice());
    proof {
        assert(r is Some);
        assert(Seq::<u8>::empty() + graph.data@ =~= graph.data@);
    }
}

/// Rebuild `dst` as the first `cutoff` nodes of `graph`, both streams
/// copied verbatim.  With a stream that does not decompose, `dst` is left
/// cleared.
#[verifier::loop_isolation(false)]
pub fn copy_from_cutoff<S: GraphStorage>(
    dst: &mut S,
    graph: &VecGraph,
    cutoff: usize,
    sp: &GraphSpec,
)
    requires
        sp.wf(),
        old(dst).spec_ops_room() >= graph.ops@.len(),
        old(dst).spec_data_room() >= graph.data@.len(),
    ensures
        decompose(sp, graph.ops@, graph.data@) is Some && cutoff <= decompose(
            sp,
            graph.ops@,
            graph.data@,
        )->0.len() ==> final(dst).ops_view() == crate::nodes::concat_node_ops(
            decompose(sp, graph.ops@, graph.data@)->0.take(cutoff as int),
        ) && final(dst).data_view() == crate::nodes::concat_node_data(
            decompose(sp, graph.ops@, graph.data@)->0.take(cutoff as int),
        ),
        decompose(sp, graph.ops@, graph.data@) is None ==> final(dst).ops_view() == Seq::<
            u16,
        >::empty() && final(dst).data_view() == Seq::<u8>::empty(),
{
    dst.clear();
    let nodes = match graph.nodes(sp) {
        Some(nodes) => nodes,
        None => {
            return ;
        },
    };
    let ghost views = decompose(sp, graph.ops@, graph.data@)->0;
    proof {
        crate::nodes::lemma_decompose_concat(sp, graph.ops@, graph.data@, 0);
        assert(views.take(0) =~= Seq::<crate::nodes::NodeView>::empty());
    }
    let stop = if cutoff < nodes.len() {
        cutoff
    } else {
        nodes.len()
    };
    let mut i: usize = 0;
    while i < stop
        invariant
            dst.ops_view() == crate::nodes::concat_node_ops(views.take(i as int)),
            dst.data_view() == crate::nodes::concat_node_data(views.take(i as int)),
            dst.spec_ops_room() + dst.ops_view().len() >= graph.ops@.len(),
            dst.spec_data_room() + dst.data_view().len() >= graph.data@.len(),
            i <= stop,
        decreases stop - i,
    {
        proof {
            crate::nodes::lemma_concat_take_step(views, i as int);
            crate::nodes::lemma_concat_split_ops(views, i + 1);
            assert(crate::nodes::concat_node_ops(views.take(i + 1)).len() <= graph.ops@.len());
            assert(crate::nodes::concat_node_data(views.take(i + 1)).len() <= graph.data@.len());
        }
        let node = &nodes[i];
        let ghost mid_ops = dst.ops_view();
        let mut j: usize = 0;
        while j < node.ops.len()
            invariant
                dst.ops_view() =~= mid_ops + node.ops@.take(j as int),
                dst.data_view() == crate::nodes::concat_node_data(views.take(i as int)),
                dst.spec_ops_room() + dst.ops_view().len() >= graph.ops@.len(),
                dst.spec_data_room() + dst.data_view().len() >= graph.data@.len(),
                j <= node.ops@.len(),
                mid_ops.len() + node.ops@.len() <= graph.ops@.len(),
            decreases node.ops@.len() - j,
        {
            let r = dst.append_op(node.ops[j]);
            proof {
                assert(r is Some);
                assert(dst.ops_view() =~= mid_ops + node.ops@.take(j + 1));
            }
            j = j + 1;
        }
        proof {
            assert(node.ops@.take(node.ops@.len() as int) =~= node.ops@);
        }
        let rd = dst.append_data(node.data.as_slice());
        proof {
            assert(rd is Some);
        }
        i = i + 1;
    }
}

/// Reconstruct the graph's connectivity: one `(source, destination)` pair
/// per `Get` or `Pass` operand, naming the producing node's op position and
/// output port and the reading node's op position and port.  Every edge
/// flows forward: a value is produced no later than it is read.  Operands
/// whose producer cannot be found (a stream not built by a renaming
/// builder) contribute no edge.
#[verifier::loop_isolation(false)]
pub fn calc_edges<S: GraphStorage>(graph: &S, sp: &GraphSpec) -> (r: Vec<
    (crate::newtypes::SrcVal, crate::newtypes::DstVal),
>)
    requires
        sp.wf(),
    ensures
        forall|e: int| 0 <= e < r@.len() ==> (#[trigger] r@[e]).0.id.0 <= r@[e].1.id.0,
{
    let mut edges: Vec<(crate::newtypes::SrcVal, crate::newtypes::DstVal)> = Vec::new();
    let mut sources: Vec<((u16, u16), crate::newtypes::SrcVal)> = Vec::new();
    let nodes = match crate::nodes::parse_nodes(sp, graph.ops_as_slice(), graph.data_as_slice()) {
        Some(nodes) => nodes,
        None => {
            return edges;
        },
    };
    let mut pos: usize = 0;
    let mut i: usize = 0;
    while i < nodes.len()
        invariant
            sp.wf(),
            forall|t: int| 0 <= t < sources@.len() ==> (#[trigger] sources@[t]).1.id.0 <= pos,
            forall|e: int| 0 <= e < edges@.len() ==> (#[trigger] edges@[e]).0.id.0 <= edges@[e].1.id.0,
        decreases nodes@.len() - i,
    {
        let node = &nodes[i];
        if (node.id.0 as usize) >= sp.node_specs.len() {
            return edges;
        }
        let nspec = &sp.node_specs[node.id.0 as usize];
        let n_in = nspec.inputs.len();
        let n_pass = nspec.passthroughs.len();
        let n_out = nspec.outputs.len();
        if node.ops.len() != 1 + nspec.size() {
            return edges;
        }
        let here = crate::newtypes::OpIndex::new(pos);
        let mut k: usize = 0;
        while k < n_in
            invariant
                sp.wf(),
                n_in <= nspec.inputs@.len(),
                node.ops@.len() >= 1 + n_in,
                here.0 == pos,
                forall|t: int| 0 <= t < sources@.len() ==> (#[trigger] sources@[t]).1.id.0 <= pos,
                forall|e: int|
                    0 <= e < edges@.len() ==> (#[trigger] edges@[e]).0.id.0 <= edges@[e].1.id.0,
            decreases n_in - k,
        {
            let vt = nspec.inputs[k].0;
            let id = node.ops[1 + k];
            match source_take(&mut sources, vt, id) {
                Some(src) => {
                    edges.push((src, crate::newtypes::DstVal::new(here, crate::newtypes::PortID::new(k))));
                },
                None => {},
            }
            k = k + 1;
        }
        let mut k: usize = 0;
        while k < n_pass
            invariant
                sp.wf(),
                n_pass <= nspec.passthroughs@.len(),
                node.ops@.len() >= 1 + n_in + n_pass,
                here.0 == pos,
                forall|t: int| 0 <= t < sources@.len() ==> (#[trigger] sources@[t]).1.id.0 <= pos,
                forall|e: int|
                    0 <= e < edges@.len() ==> (#[trigger] edges@[e]).0.id.0 <= edges@[e].1.id.0,
            decreases n_pass - k,
        {
            let vt = nspec.passthroughs[k].0;
            let id = node.ops[1 + n_in + k];
            match source_peek(&sources, vt, id) {
                Some(src) => {
                    edges.push((src, crate::newtypes::DstVal::new(here, crate::newtypes::PortID::new(k))));
                },
                None => {},
            }
            k = k + 1;
        }
        let mut k: usize = 0;
        while k < n_out
            invariant
                sp.wf(),
                n_out <= nspec.outputs@.len(),
                node.ops@.len() >= 1 + n_in + n_pass + n_out,
                here.0 == pos,
                forall|t: int| 0 <= t < sources@.len() ==> (#[trigger] sources@[t]).1.id.0 <= pos,
                forall|e: int|
                    0 <= e < edges@.len() ==> (#[trigger] edges@[e]).0.id.0 <= edges@[e].1.id.0,
            decreases n_out - k,
        {
            let vt = nspec.outputs[k].0;
            let id = node.ops[1 + n_in + n_pass + k];
            sources.push(
                ((vt, id), crate::newtypes::SrcVal::new(here, crate::newtypes::PortID::new(k))),
            );
            k = k + 1;
        }
        if pos > usize::MAX - node.ops.len() {
            return edges;
        }
        pos = pos + node.ops.len();
        proof {
            assert forall|t: int|
                0 <= t < sources@.len() implies (#[trigger] sources@[t]).1.id.0 <= pos by {}
        }
        i = i + 1;
    }
    edges
}

/// Remove and return the recorded producer of operand `(vt, id)`.
fn source_take(
    sources: &mut Vec<((u16, u16), crate::newtypes::SrcVal)>,
    vt: u16,
    id: u16,
) -> (r: Option<crate::newtypes::SrcVal>)
    ensures
        final(sources)@.len() <= old(sources)@.len(),
        forall|t: int|
            0 <= t < final(sources)@.len() ==> old(sources)@.contains(
                #[trigger] final(sources)@[t],
            ),
        r matches Some(src) ==> exists|u: int|
            0 <= u < old(sources)@.len() && (#[trigger] old(sources)@[u]).1 == src,
{
    let mut k: usize = 0;
    let n = sources.len();
    while k < n && !(sources[k].0 .0 == vt && sources[k].0 .1 == id)
        invariant
            k <= n,
            n == sources@.len(),
        decreases n - k,
    {
        k = k + 1;
    }
    if k < n {
        let found = sources[k].1;
        let last = sources[n - 1];
        let ghost pre = sources@;
        sources.set(k, last);
        sources.pop();
        proof {
            assert(pre == old(sources)@);
            assert forall|t: int|
                0 <= t < sources@.len() implies old(sources)@.contains(
                #[trigger] sources@[t],
            ) by {
                if t == k {
                    assert(old(sources)@[pre.len() - 1] == sources@[t]);
                } else {
                    assert(old(sources)@[t] == sources@[t]);
                }
            }
        }
        Some(found)
    } else {
        proof {
            assert forall|t: int|
                0 <= t < sources@.len() implies old(sources)@.contains(
                #[trigger] sources@[t],
            ) by {
                assert(old(sources)@[t] == sources@[t]);
            }
        }
        None
    }
}

/// Return the recorded producer of operand `(vt, id)` without removing it.
fn source_peek(
    sources: &Vec<((u16, u16), crate::newtypes::SrcVal)>,
    vt: u16,
    id: u16,
) -> (r: Option<crate::newtypes::SrcVal>)
    ensures
        r matches Some(src) ==> exists|u: int|
            0 <= u < sources@.len() && (#[trigger] sources@[u]).1 == src,
{
    let mut k: usize = 0;
    while k < sources.len()
        invariant
            k <= sources@.len(),
        decreases sources@.len() - k,
    {
        if sources[k].0 .0 == vt && sources[k].0 .1 == id {
            return Some(sources[k].1);
        }
        k = k + 1;
    }
    None
}

} // verus!
