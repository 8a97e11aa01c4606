//! Stateless decomposition of a graph's flat streams into nodes.
//!
//! The op stream, read left to right under a spec, splits deterministically
//! into nodes: a node-type tag, its operand tags, and its span of the data
//! stream.  Nothing caches this decomposition; it is re-derived on demand.

use vstd::prelude::*;

use crate::newtypes::NodeTypeID;
use crate::spec::GraphSpec;

verus! {

/// One decomposed node: its type, the ops that encode it (tag first), and
/// its span of the data stream.
#[derive(Clone, Debug)]
pub struct GraphNode {
    pub id: NodeTypeID,
    /// Index into the op stream where this node's tag sits.
    pub op_i: usize,
    /// The node tag followed by its operand tags.
    pub ops: Vec<u16>,
    /// The node's data span (empty for nodes without a data type).
    pub data: Vec<u8>,
}

/// Ghost image of one decomposed node.
pub struct NodeView {
    pub id: u16,
    pub op_i: nat,
    pub ops: Seq<u16>,
    pub data: Seq<u8>,
}

impl GraphNode {
    pub open spec fn view(&self) -> NodeView {
        NodeView { id: self.id.0, op_i: self.op_i as nat, ops: self.ops@, data: self.data@ }
    }
}

/// The byte span the node type `nt` occupies at the front of `data`, under
/// `sp`: zero for nodes without a data type, the data type's span otherwise.
pub open spec fn node_data_span(sp: &GraphSpec, nt: u16, data: Seq<u8>) -> Option<nat> {
    match sp.node_specs@[nt as int].data {
        Some(d) => sp.data_specs@[d.0 as int].atomic_type.span_len(data),
        None => Some(0),
    }
}

/// Decompose `ops`/`data` (starting at op index `op_i` of the whole stream)
/// into nodes.  `None` when the streams do not parse: an unknown node tag, a
/// truncated operand list, a data span that does not fit, or data bytes left
/// over at the end.
pub open spec fn decompose_at(
    sp: &GraphSpec,
    ops: Seq<u16>,
    data: Seq<u8>,
    op_i: nat,
) -> Option<Seq<NodeView>>
    decreases ops.len(),
{
    if ops.len() == 0 {
        if data.len() == 0 {
            Some(Seq::empty())
        } else {
            None
        }
    } else {
        let nt = ops[0];
        if nt as int >= sp.node_specs@.len() {
            None
        } else {
            let k = sp.node_specs@[nt as int].spec_size() + 1;
            if ops.len() < k {
                None
            } else {
                match node_data_span(sp, nt, data) {
                    None => None,
                    Some(d) => match decompose_at(
                        sp,
                        ops.skip(k as int),
                        data.skip(d as int),
                        op_i + k,
                    ) {
                        None => None,
                        Some(rest) => Some(
                            Seq::empty().push(
                                NodeView {
                                    id: nt,
                                    op_i,
                                    ops: ops.take(k as int),
                                    data: data.take(d as int),
                                },
                            ) + rest,
                        ),
                    },
                }
            }
        }
    }
}

/// Decompose a whole graph.
pub open spec fn decompose(sp: &GraphSpec, ops: Seq<u16>, data: Seq<u8>) -> Option<Seq<NodeView>> {
    decompose_at(sp, ops, data, 0)
}

/// Parse the streams into their node list.  Returns `None` exactly when the
/// streams do not decompose under `sp`.
pub fn parse_nodes(sp: &GraphSpec, ops: &[u16], data: &[u8]) -> (r: Option<Vec<GraphNode>>)
    requires
        sp.wf(),
    ensures
        match r {
            Some(nodes) => {
                &&& decompose(sp, ops@, data@) matches Some(views) && nodes@.len() == views.len()
                    && (forall|i: int| 0 <= i < nodes@.len() ==> (#[trigger] nodes@[i])@ == views[i])
            },
            None => decompose(sp, ops@, data@) is None,
        },
{
    let mut nodes: Vec<GraphNode> = Vec::new();
    let mut oi: usize = 0;
    let mut di: usize = 0;
    proof {
        assert(ops@.skip(0) =~= ops@);
        assert(data@.skip(0) =~= data@);
        let all0 = decompose_at(sp, ops@, data@, 0);
        if all0 is Some {
            assert(Seq::<GraphNode>::empty().map_values(|n: GraphNode| n@) + all0->0 =~= all0->0);
        }
    }
    loop
        invariant
            sp.wf(),
            oi <= ops@.len(),
            di <= data@.len(),
            match decompose_at(sp, ops@.skip(oi as int), data@.skip(di as int), oi as nat) {
                Some(rest) => decompose(sp, ops@, data@) matches Some(all) && all =~= nodes@.map_values(
                    |n: GraphNode| n@,
                ) + rest,
                None => decompose(sp, ops@, data@) is None,
            },
        decreases ops@.len() - oi,
    {
        proof {
            assert(ops@.skip(oi as int).len() == ops@.len() - oi);
        }
        if oi == ops.len() {
            if di == data.len() {
                proof {
                    assert(data@.skip(di as int).len() == 0);
                    assert(decompose_at(sp, ops@.skip(oi as int), data@.skip(di as int), oi as nat)
                        == Some(Seq::<NodeView>::empty()));
                    assert(nodes@.map_values(|n: GraphNode| n@) + Seq::<NodeView>::empty()
                        =~= nodes@.map_values(|n: GraphNode| n@));
                }
                return Some(nodes);
            } else {
                return None;
            }
        }
        let dlen = data.len();
        let nt = ops[oi];
        if nt as usize >= sp.node_specs.len() {
            return None;
        }
        let nspec = &sp.node_specs[nt as usize];
        let k = nspec.size() + 1;
        if ops.len() - oi < k {
            return None;
        }
        let d: usize = match nspec.data {
            Some(atom_id) => {
                let atom = &sp.data_specs[atom_id.0].atomic_type;
                match *atom {
                    crate::spec::AtomicData::Int { size } => {
                        if dlen - di < size {
                            return None;
                        }
                        size
                    },
                    crate::spec::AtomicData::Bytes { .. } => {
                        if dlen - di < 2 {
                            return None;
                        }
                        let payload = crate::bytes::read_le16(data[di], data[di + 1]) as usize;
                        if dlen - di < 2 + payload {
                            return None;
                        }
                        2 + payload
                    },
                    crate::spec::AtomicData::Struct { size } => {
                        if dlen - di < size {
                            return None;
                        }
                        size
                    },
                }
            },
            None => 0,
        };
        proof {
            assert(node_data_span(sp, ops@.skip(oi as int)[0], data@.skip(di as int)) == Some(
                d as nat,
            )) by {
                assert(ops@.skip(oi as int)[0] == ops@[oi as int]);
                if nspec.data is Some {
                    let aid = nspec.data->0;
                    assert(data@.skip(di as int).len() == data@.len() - di);
                    if sp.data_specs@[aid.0 as int].atomic_type is Bytes {
                        assert(data@.skip(di as int)[0] == data@[di as int]);
                        assert(data@.skip(di as int)[1] == data@[di + 1]);
                    }
                }
            }
        }
        let mut node_ops: Vec<u16> = Vec::new();
        let mut j: usize = 0;
        while j < k
            invariant
                j <= k,
                oi + k <= ops@.len(),
                ops@.len() <= usize::MAX,
                node_ops@ =~= ops@.subrange(oi as int, oi + j),
            decreases k - j,
        {
            node_ops.push(ops[oi + j]);
            j = j + 1;
        }
        let mut node_data: Vec<u8> = Vec::new();
        let mut j: usize = 0;
        while j < d
            invariant
                j <= d,
                di + d <= data@.len(),
                data@.len() <= usize::MAX,
                node_data@ =~= data@.subrange(di as int, di + j),
            decreases d - j,
        {
            node_data.push(data[di + j]);
            j = j + 1;
        }
        let node = GraphNode { id: NodeTypeID::new(nt), op_i: oi, ops: node_ops, data: node_data };
        proof {
            assert(node@.ops =~= ops@.skip(oi as int).take(k as int));
            assert(node@.data =~= data@.skip(di as int).take(d as int));
            assert(ops@.skip(oi as int).skip(k as int) =~= ops@.skip(oi + k));
            assert(data@.skip(di as int).skip(d as int) =~= data@.skip(di + d));
        }
        let ghost pre_nodes = nodes@;
        nodes.push(node);
        proof {
            assert(nodes@.map_values(|n: GraphNode| n@) =~= pre_nodes.map_values(
                |n: GraphNode| n@,
            ).push(node@));
            let rem = decompose_at(sp, ops@.skip(oi + k), data@.skip(di + d), (oi + k) as nat);
            if rem is Some {
                let rest = rem->0;
                assert(pre_nodes.map_values(|n: GraphNode| n@) + (Seq::empty().push(node@) + rest)
                    =~= nodes@.map_values(|n: GraphNode| n@) + rest);
            }
        }
        oi = oi + k;
        di = di + d;
    }
}

/// The number of nodes the streams decompose into; zero when they do not
/// decompose.
pub fn count_nodes(sp: &GraphSpec, ops: &[u16], data: &[u8]) -> (r: usize)
    requires
        sp.wf(),
    ensures
        decompose(sp, ops@, data@) matches Some(views) ==> r == views.len(),
        decompose(sp, ops@, data@) is None ==> r == 0,
{
    match parse_nodes(sp, ops, data) {
        Some(nodes) => nodes.len(),
        None => 0,
    }
}

/// The op streams of a node list, concatenated in order.
pub open spec fn concat_node_ops(views: Seq<NodeView>) -> Seq<u16>
    decreases views.len(),
{
    if views.len() == 0 {
        Seq::empty()
    } else {
        views.first().ops + concat_node_ops(views.drop_first())
    }
}

/// The data spans of a node list, concatenated in order.
pub open spec fn concat_node_data(views: Seq<NodeView>) -> Seq<u8>
    decreases views.len(),
{
    if views.len() == 0 {
        Seq::empty()
    } else {
        views.first().data + concat_node_data(views.drop_first())
    }
}

/// Decomposition partitions the streams: concatenating the nodes' ops and
/// data spans in order gives back exactly the original streams.
pub proof fn lemma_decompose_concat(sp: &GraphSpec, ops: Seq<u16>, data: Seq<u8>, op_i: nat)
    requires
        decompose_at(sp, ops, data, op_i) is Some,
    ensures
        concat_node_ops(decompose_at(sp, ops, data, op_i)->0) == ops,
        concat_node_data(decompose_at(sp, ops, data, op_i)->0) == data,
    decreases ops.len(),
{
    let views = decompose_at(sp, ops, data, op_i)->0;
    if ops.len() == 0 {
        assert(concat_node_ops(views) =~= ops);
        assert(concat_node_data(views) =~= data);
    } else {
        let nt = ops[0];
        let k = sp.node_specs@[nt as int].spec_size() + 1;
        let d = node_data_span(sp, nt, data)->0;
        lemma_decompose_concat(sp, ops.skip(k as int), data.skip(d as int), op_i + k);
        let rest = decompose_at(sp, ops.skip(k as int), data.skip(d as int), op_i + k)->0;
        assert(views.first() == NodeView {
            id: nt,
            op_i,
            ops: ops.take(k as int),
            data: data.take(d as int),
        });
        assert(views.drop_first() =~= rest);
        assert(concat_node_ops(views) =~= ops.take(k as int) + ops.skip(k as int));
        assert(ops.take(k as int) + ops.skip(k as int) =~= ops);
        assert(concat_node_data(views) =~= data.take(d as int) + data.skip(d as int));
        assert(data.take(d as int) + data.skip(d as int) =~= data);
    }
}

/// A concatenation splits at any node boundary.
pub proof fn lemma_concat_split_ops(views: Seq<NodeView>, i: int)
    requires
        0 <= i <= views.len(),
    ensures
        concat_node_ops(views) == concat_node_ops(views.take(i)) + concat_node_ops(views.skip(i)),
        concat_node_data(views) == concat_node_data(views.take(i)) + concat_node_data(
            views.skip(i),
        ),
    decreases i,
{
    if i == 0 {
        assert(views.take(0) =~= Seq::<NodeView>::empty());
        assert(views.skip(0) =~= views);
        assert(concat_node_ops(views.take(0)) + concat_node_ops(views) =~= concat_node_ops(views));
        assert(concat_node_data(views.take(0)) + concat_node_data(views) =~= concat_node_data(
            views,
        ));
    } else {
        assert(views.len() > 0);
        lemma_concat_split_ops(views.drop_first(), i - 1);
        assert(views.take(i).first() == views.first());
        assert(views.take(i).drop_first() =~= views.drop_first().take(i - 1));
        assert(views.skip(i) =~= views.drop_first().skip(i - 1));
        assert(concat_node_ops(views) == views.first().ops + concat_node_ops(views.drop_first()));
        assert(concat_node_ops(views.take(i)) =~= views.first().ops + concat_node_ops(
            views.drop_first().take(i - 1),
        ));
        assert(concat_node_ops(views.take(i)) + concat_node_ops(views.skip(i)) =~= views.first().ops
            + (concat_node_ops(views.drop_first().take(i - 1)) + concat_node_ops(
            views.drop_first().skip(i - 1),
        )));
        assert(concat_node_data(views.take(i)) =~= views.first().data + concat_node_data(
            views.drop_first().take(i - 1),
        ));
        assert(concat_node_data(views.take(i)) + concat_node_data(views.skip(i))
            =~= views.first().data + (concat_node_data(views.drop_first().take(i - 1))
            + concat_node_data(views.drop_first().skip(i - 1))));
    }
}

/// A one-node extension of a concatenation.
pub proof fn lemma_concat_take_step(views: Seq<NodeView>, i: int)
    requires
        0 <= i < views.len(),
    ensures
        concat_node_ops(views.take(i + 1)) == concat_node_ops(views.take(i)) + views[i].ops,
        concat_node_data(views.take(i + 1)) == concat_node_data(views.take(i)) + views[i].data,
    decreases i,
{
    if i == 0 {
        assert(views.take(1).first() == views[0]);
        assert(views.take(1).drop_first() =~= Seq::<NodeView>::empty());
        assert(views.take(0) =~= Seq::<NodeView>::empty());
        assert(concat_node_ops(views.take(1)) =~= concat_node_ops(views.take(0)) + views[0].ops);
        assert(concat_node_data(views.take(1)) =~= concat_node_data(views.take(0)) + views[0].data);
    } else {
        lemma_concat_take_step(views.drop_first(), i - 1);
        assert(views.take(i + 1).first() == views.first());
        assert(views.take(i + 1).drop_first() =~= views.drop_first().take(i));
        assert(views.take(i).first() == views.first());
        assert(views.take(i).drop_first() =~= views.drop_first().take(i - 1));
        assert(views.drop_first()[i - 1] == views[i]);
        assert(concat_node_ops(views.take(i + 1)) =~= views.first().ops + concat_node_ops(
            views.drop_first().take(i),
        ));
        assert(concat_node_ops(views.take(i)) =~= views.first().ops + concat_node_ops(
            views.drop_first().take(i - 1),
        ));
        assert(views.first().ops + (concat_node_ops(views.drop_first().take(i - 1))
            + views.drop_first()[i - 1].ops) =~= (views.first().ops + concat_node_ops(
            views.drop_first().take(i - 1),
        )) + views[i].ops);
        assert(concat_node_data(views.take(i + 1)) =~= views.first().data + concat_node_data(
            views.drop_first().take(i),
        ));
        assert(concat_node_data(views.take(i)) =~= views.first().data + concat_node_data(
            views.drop_first().take(i - 1),
        ));
        assert(views.first().data + (concat_node_data(views.drop_first().take(i - 1))
            + views.drop_first()[i - 1].data) =~= (views.first().data + concat_node_data(
            views.drop_first().take(i - 1),
        )) + views[i].data);
    }
}

} // verus!
