//! High-level mutation strategies over one source graph.

use vstd::prelude::*;

verus! {

/// Parameters of the tail-generation strategy: how many trailing nodes of
/// the surviving source are dropped, and how many fresh nodes are appended.
#[derive(Clone, Copy, Debug, PartialEq, Eq, Structural, Hash)]
pub struct GenerateTail {
    pub drop_last: usize,
    pub generate: usize,
}

/// The strategy applied in one mutation attempt.
#[derive(Clone, Copy, Debug, PartialEq, Eq, Structural, Hash)]
pub enum MutationStrategy {
    GenerateTail(GenerateTail),
    SpliceRandom,
    Splice,
    DataOnly,
    Generate,
    Repeat,
    Minimize,
    MinimizeSplit,
    Import,
    SeedImport,
}

impl MutationStrategy {
    /// The strategy's log name.
    pub fn name(&self) -> (r: &'static str)
        ensures
            r@ == self.spec_name(),
    {
        match *self {
            MutationStrategy::GenerateTail(_) => "generate_tail",
            MutationStrategy::SpliceRandom => "splice_random",
            MutationStrategy::Splice => "splice",
            MutationStrategy::DataOnly => "data_only",
            MutationStrategy::Generate => "generate",
            MutationStrategy::Repeat => "repeat",
            MutationStrategy::Minimize => "minimize",
            MutationStrategy::MinimizeSplit => "minimize_split",
            MutationStrategy::Import => "import",
            MutationStrategy::SeedImport => "seed_import",
        }
    }

    pub open spec fn spec_name(&self) -> Seq<char> {
        match *self {
            MutationStrategy::GenerateTail(_) => "generate_tail"@,
            MutationStrategy::SpliceRandom => "splice_random"@,
            MutationStrategy::Splice => "splice"@,
            MutationStrategy::DataOnly => "data_only"@,
            MutationStrategy::Generate => "generate"@,
            MutationStrategy::Repeat => "repeat"@,
            MutationStrategy::Minimize => "minimize"@,
            MutationStrategy::MinimizeSplit => "minimize_split"@,
            MutationStrategy::Import => "import"@,
            MutationStrategy::SeedImport => "seed_import"@,
        }
    }
}

/// What the splice-random walk does with one source node.
#[derive(Clone, Copy, Debug, PartialEq, Eq, Structural, Hash)]
pub enum NodeMutationType {
    CopyNode,
    MutateNodeData,
    DropNode,
    SkipAndGenerate,
}

/// What a calibration pass records at its cut point: how many source nodes
/// the snapshot covers, the stream lengths at the cut, and the saved
/// renaming table needed to resume construction there.
pub struct MutatorSnapshotState {
    /// Source nodes skipped (covered by the snapshot).
    pub skip_nodes: usize,
    /// Op-stream length at the cut.
    pub skip_ops: usize,
    /// Data-stream length at the cut.
    pub skip_data: usize,
    /// The renaming table as of the cut; `None` clears it instead.
    pub prefix_graph_state: Option<crate::builder::GraphState>,
}

impl MutatorSnapshotState {
    /// The trivial cut: nothing skipped, table cleared.
    pub fn none() -> (r: Self)
        ensures
            r.skip_nodes == 0,
            r.skip_ops == 0,
            r.skip_data == 0,
            r.prefix_graph_state is None,
    {
        MutatorSnapshotState { skip_nodes: 0, skip_ops: 0, skip_data: 0, prefix_graph_state: None }
    }
}


/// A corpus handle the splice strategies sample other graphs from.
pub trait InputQueue {
    /// Whether sampling can currently succeed.
    spec fn can_sample(&self) -> bool;

    /// A copy of some corpus graph.
    fn sample_for_splicing(&self, dist: &mut crate::random::Distributions) -> (r:
        crate::storage::VecGraph)
        requires
            self.can_sample(),
        ensures
            final(dist).wf() == old(dist).wf(),
            final(dist).dict == old(dist).dict,
    ;
}

impl InputQueue for Vec<crate::storage::VecGraph> {
    open spec fn can_sample(&self) -> bool {
        self@.len() > 0
    }

    fn sample_for_splicing(&self, dist: &mut crate::random::Distributions) -> (r:
        crate::storage::VecGraph) {
        let i = dist.gen_range(0, self.len());
        self[i].clone()
    }
}


/// Orchestrates one mutation attempt: picks a strategy and replays the
/// source graph through the builder accordingly.  Whatever the strategy,
/// the streams up to the snapshot cut stay byte-identical.
pub struct Mutator {
    pub builder: crate::builder::GraphBuilder,
    pub prim: crate::primitive::PrimitiveMutator,
}

impl Mutator {
    pub open spec fn wf(&self) -> bool {
        self.builder.wf()
    }

    pub fn new(spec: crate::spec::GraphSpec) -> (r: Self)
        requires
            spec.wf(),
        ensures
            r.wf(),
            r.builder.spec == spec,
    {
        Mutator {
            builder: crate::builder::GraphBuilder::new(spec),
            prim: crate::primitive::PrimitiveMutator::new(),
        }
    }

    /// The spec this mutator builds against.
    pub fn graph_spec(&self) -> (r: &crate::spec::GraphSpec)
        ensures
            r == &self.builder.spec,
    {
        &self.builder.spec
    }

    /// The ops currently in the storage.
    pub fn num_ops_used<S: crate::storage::GraphStorage>(&self, storage: &S) -> (r: usize)
        ensures
            r == storage.ops_view().len(),
    {
        storage.op_len()
    }

    /// Copy the built graph out of the storage.
    pub fn dump_graph<S: crate::storage::GraphStorage>(&self, storage: &S) -> (r:
        crate::storage::VecGraph)
        ensures
            r.ops@ == storage.ops_view(),
            r.data@ == storage.data_view(),
    {
        storage.as_vec_graph()
    }

    /// Replay the whole source graph, nothing skipped, renaming afresh.
    #[verifier::loop_isolation(false)]
    pub fn copy_all<S: crate::storage::GraphStorage>(
        &mut self,
        orig: &crate::storage::VecGraph,
        storage: &mut S,
        dist: &mut crate::random::Distributions,
    )
        requires
            old(self).wf(),
            old(dist).wf(),
        ensures
            final(self).wf(),
            final(self).builder.spec == old(self).builder.spec,
            final(dist).wf(),
    {
        storage.clear();
        self.builder.state.clear();
        match orig.nodes(&self.builder.spec) {
            Some(nodes) => {
                let mut i: usize = 0;
                while i < nodes.len()
                    invariant
                        self.wf(),
                        self.builder.spec == old(self).builder.spec,
                        dist.wf(),
                    decreases nodes@.len() - i,
                {
                    let _ = self.builder.append_node(&nodes[i], storage, dist);
                    i = i + 1;
                }
            },
            None => {},
        }
    }

    /// Replay only the first `node_k + 1` source nodes, stopping early on
    /// fullness.
    #[verifier::loop_isolation(false)]
    pub fn prune_k<S: crate::storage::GraphStorage>(
        &mut self,
        orig: &crate::storage::VecGraph,
        storage: &mut S,
        dist: &mut crate::random::Distributions,
        node_k: usize,
    )
        requires
            old(self).wf(),
            old(dist).wf(),
        ensures
            final(self).wf(),
            final(self).builder.spec == old(self).builder.spec,
            final(dist).wf(),
    {
        storage.clear();
        self.builder.state.clear();
        match orig.nodes(&self.builder.spec) {
            Some(nodes) => {
                let mut i: usize = 0;
                while i < nodes.len()
                    invariant
                        self.wf(),
                        self.builder.spec == old(self).builder.spec,
                        dist.wf(),
                    decreases nodes@.len() - i,
                {
                    if self.builder.is_full(storage) {
                        return ;
                    }
                    if i > node_k {
                        return ;
                    }
                    let _ = self.builder.append_node(&nodes[i], storage, dist);
                    i = i + 1;
                }
            },
            None => {},
        }
    }

    /// Append every node of another graph after whatever the storage
    /// already holds, without restoring any snapshot.
    #[verifier::loop_isolation(false)]
    pub fn append_input<S: crate::storage::GraphStorage>(
        &mut self,
        extra: &crate::storage::VecGraph,
        storage: &mut S,
        dist: &mut crate::random::Distributions,
    )
        requires
            old(self).wf(),
            old(dist).wf(),
        ensures
            final(self).wf(),
            final(self).builder.spec == old(self).builder.spec,
            final(dist).wf(),
            final(storage).ops_view().len() >= old(storage).ops_view().len(),
            final(storage).data_view().len() >= old(storage).data_view().len(),
            final(storage).ops_view().take(old(storage).ops_view().len() as int) == old(storage).ops_view(),
            final(storage).data_view().take(old(storage).data_view().len() as int) == old(storage).data_view(),
    {
        let ghost base_ops = storage.ops_view();
        let ghost base_data = storage.data_view();
        proof {
            assert(base_ops.take(base_ops.len() as int) =~= base_ops);
            assert(base_data.take(base_data.len() as int) =~= base_data);
        }
        match extra.nodes(&self.builder.spec) {
            Some(nodes) => {
                let mut i: usize = 0;
                while i < nodes.len()
                    invariant
                        self.wf(),
                        self.builder.spec == old(self).builder.spec,
                        dist.wf(),
                        storage.ops_view().len() >= base_ops.len(),
                        storage.data_view().len() >= base_data.len(),
                        storage.ops_view().take(base_ops.len() as int) == base_ops,
                        storage.data_view().take(base_data.len() as int) == base_data,
                    decreases nodes@.len() - i,
                {
                    let ghost mid_ops = storage.ops_view();
                    let ghost mid_data = storage.data_view();
                    let _ = self.builder.append_node(&nodes[i], storage, dist);
                    proof {
                        assert(storage.ops_view().take(mid_ops.len() as int).take(
                            base_ops.len() as int,
                        ) =~= storage.ops_view().take(base_ops.len() as int));
                        assert(storage.data_view().take(mid_data.len() as int).take(
                            base_data.len() as int,
                        ) =~= storage.data_view().take(base_data.len() as int));
                    }
                    i = i + 1;
                }
            },
            None => {},
        }
    }

    /// Replay the first `snapshot_cutoff` nodes, save the renaming table,
    /// and lay down the reserved snapshot-marker op; the returned cut
    /// state is what every later mutation against this snapshot replays
    /// from.
    #[verifier::loop_isolation(false)]
    pub fn prepare_snapshot<S: crate::storage::GraphStorage>(
        &mut self,
        snapshot_cutoff: usize,
        data: &crate::storage::VecGraph,
        storage: &mut S,
        dist: &mut crate::random::Distributions,
    ) -> (r: MutatorSnapshotState)
        requires
            old(self).wf(),
            old(dist).wf(),
            old(self).builder.spec.snapshot_node_id is Some,
        ensures
            final(self).wf(),
            final(self).builder.spec == old(self).builder.spec,
            final(dist).wf(),
            r.skip_nodes == snapshot_cutoff,
            r.prefix_graph_state is Some,
            r.skip_ops <= final(storage).ops_view().len(),
            r.skip_data == final(storage).data_view().len(),
            final(storage).ops_view().len() <= r.skip_ops + 1,
            final(storage).ops_view().len() == r.skip_ops + 1 ==> final(storage).ops_view()[r.skip_ops as int] == ({
                let m = old(self).builder.spec.snapshot_node_id->0;
                m.0
            }),
            final(storage).ops_view().len() == r.skip_ops ==> final(storage).spec_ops_room() == 0,
    {
        storage.clear();
        self.builder.state.clear();
        match data.nodes(&self.builder.spec) {
            Some(nodes) => {
                let mut i: usize = 0;
                while i < nodes.len()
                    invariant
                        self.wf(),
                        self.builder.spec == old(self).builder.spec,
                        dist.wf(),
                    decreases nodes@.len() - i,
                {
                    if i >= snapshot_cutoff {
                        break ;
                    }
                    let _ = self.builder.append_node(&nodes[i], storage, dist);
                    i = i + 1;
                }
            },
            None => {},
        }
        let prefix_graph_state = Some(self.builder.get_graph_state());
        let skip_ops = storage.op_len();
        let skip_data = storage.data_len();
        let marker = match self.builder.spec.snapshot_node_id {
            Some(m) => m,
            None => crate::newtypes::NodeTypeID::new(0),
        };
        let _ = storage.append_op(marker.as_u16());
        MutatorSnapshotState { skip_nodes: snapshot_cutoff, skip_ops, skip_data, prefix_graph_state }
    }
}


/// The snapshot cut is applicable to the storage: its recorded lengths do
/// not exceed what the storage holds, and a saved table is sound.
pub open spec fn snapshot_fits<S: crate::storage::GraphStorage>(
    snapshot: &MutatorSnapshotState,
    storage: &S,
) -> bool {
    &&& snapshot.skip_ops <= storage.ops_view().len()
    &&& snapshot.skip_data <= storage.data_view().len()
    &&& (snapshot.prefix_graph_state matches Some(st) ==> st.wf())
}

/// Everything before the cut point survives a strategy byte-identically.
pub open spec fn prefix_preserved<S: crate::storage::GraphStorage>(
    snapshot: &MutatorSnapshotState,
    pre: &S,
    post: &S,
) -> bool {
    &&& post.ops_view().len() >= snapshot.skip_ops
    &&& post.data_view().len() >= snapshot.skip_data
    &&& post.ops_view().take(snapshot.skip_ops as int) == pre.ops_view().take(
        snapshot.skip_ops as int,
    )
    &&& post.data_view().take(snapshot.skip_data as int) == pre.data_view().take(
        snapshot.skip_data as int,
    )
}

impl Mutator {
    /// Start a strategy: truncate to the cut and restore the table.
    fn begin<S: crate::storage::GraphStorage>(
        &mut self,
        snapshot: &MutatorSnapshotState,
        storage: &mut S,
    )
        requires
            old(self).wf(),
            snapshot_fits(snapshot, old(storage)),
        ensures
            final(self).wf(),
            final(self).builder.spec == old(self).builder.spec,
            final(storage).ops_view() == old(storage).ops_view().take(snapshot.skip_ops as int),
            final(storage).data_view() == old(storage).data_view().take(snapshot.skip_data as int),
            prefix_preserved(snapshot, old(storage), final(storage)),
    {
        self.builder.start(storage, snapshot);
        proof {
            assert(storage.ops_view().take(snapshot.skip_ops as int) =~= storage.ops_view());
            assert(storage.data_view().take(snapshot.skip_data as int) =~= storage.data_view());
        }
    }

    /// Generate up to `n` fresh random nodes after the cut.
    #[verifier::loop_isolation(false)]
    pub fn generate<S: crate::storage::GraphStorage>(
        &mut self,
        n: usize,
        snapshot: &MutatorSnapshotState,
        storage: &mut S,
        dist: &mut crate::random::Distributions,
    ) -> (r: Result<(), crate::newtypes::GraphError>)
        requires
            old(self).wf(),
            old(dist).wf(),
            snapshot_fits(snapshot, old(storage)),
        ensures
            final(self).wf(),
            final(self).builder.spec == old(self).builder.spec,
            final(dist).wf(),
            prefix_preserved(snapshot, old(storage), final(storage)),
    {
        self.begin(snapshot, storage);
        let ghost base_ops = storage.ops_view();
        let ghost base_data = storage.data_view();
        proof {
            assert(base_ops.take(base_ops.len() as int) =~= base_ops);
            assert(base_data.take(base_data.len() as int) =~= base_data);
        }
        let r = self.builder.append_random(n, &self.prim, storage, dist);
        proof {
            assert(storage.ops_view().take(base_ops.len() as int).take(snapshot.skip_ops as int)
                =~= storage.ops_view().take(snapshot.skip_ops as int));
            assert(storage.data_view().take(base_data.len() as int).take(snapshot.skip_data as int)
                =~= storage.data_view().take(snapshot.skip_data as int));
        }
        r
    }

    /// Replay the surviving prefix minus a dropped tail, then generate
    /// fresh nodes after it.
    #[verifier::loop_isolation(false)]
    pub fn generate_tail<S: crate::storage::GraphStorage>(
        &mut self,
        orig: &crate::storage::VecGraph,
        ops_used: usize,
        snapshot: &MutatorSnapshotState,
        args: GenerateTail,
        storage: &mut S,
        dist: &mut crate::random::Distributions,
    )
        requires
            old(self).wf(),
            old(dist).wf(),
            snapshot_fits(snapshot, old(storage)),
            snapshot.skip_nodes <= ops_used,
            args.drop_last <= ops_used - snapshot.skip_nodes,
        ensures
            final(self).wf(),
            final(self).builder.spec == old(self).builder.spec,
            final(dist).wf(),
            prefix_preserved(snapshot, old(storage), final(storage)),
    {
        let orig_len = ops_used - snapshot.skip_nodes;
        self.begin(snapshot, storage);
        let ghost base_ops = storage.ops_view();
        let ghost base_data = storage.data_view();
        proof {
            assert(base_ops.take(base_ops.len() as int) =~= base_ops);
            assert(base_data.take(base_data.len() as int) =~= base_data);
        }
        let keep = orig_len - args.drop_last;
        match orig.nodes(&self.builder.spec) {
            Some(nodes) => {
                let mut i: usize = 0;
                while i < keep
                    invariant
                        self.wf(),
                        self.builder.spec == old(self).builder.spec,
                        dist.wf(),
                        storage.ops_view().len() >= base_ops.len(),
                        storage.data_view().len() >= base_data.len(),
                        storage.ops_view().take(base_ops.len() as int) == base_ops,
                        storage.data_view().take(base_data.len() as int) == base_data,
                    decreases keep - i,
                {
                    if snapshot.skip_nodes + i >= nodes.len() {
                        break ;
                    }
                    if self.builder.is_full(storage) {
                        return ;
                    }
                    let ghost mid_ops = storage.ops_view();
                    let ghost mid_data = storage.data_view();
                    let _ = self.builder.append_node(&nodes[snapshot.skip_nodes + i], storage, dist);
                    proof {
                        assert(storage.ops_view().take(mid_ops.len() as int).take(
                            base_ops.len() as int,
                        ) =~= storage.ops_view().take(base_ops.len() as int));
                        assert(storage.data_view().take(mid_data.len() as int).take(
                            base_data.len() as int,
                        ) =~= storage.data_view().take(base_data.len() as int));
                    }
                    i = i + 1;
                }
            },
            None => {},
        }
        let ghost mid_ops = storage.ops_view();
        let ghost mid_data = storage.data_view();
        let _ = self.builder.append_random(args.generate, &self.prim, storage, dist);
        proof {
            assert(storage.ops_view().take(mid_ops.len() as int).take(base_ops.len() as int)
                =~= storage.ops_view().take(base_ops.len() as int));
            assert(storage.data_view().take(mid_data.len() as int).take(base_data.len() as int)
                =~= storage.data_view().take(base_data.len() as int));
        }
    }

    /// Replay the structure unchanged, probabilistically replacing some
    /// nodes' data by primitive mutation.
    #[verifier::loop_isolation(false)]
    pub fn mutate_data<S: crate::storage::GraphStorage>(
        &mut self,
        orig: &crate::storage::VecGraph,
        ops_used: usize,
        snapshot: &MutatorSnapshotState,
        dict: &crate::dict::CustomDict,
        storage: &mut S,
        dist: &mut crate::random::Distributions,
    )
        requires
            old(self).wf(),
            old(dist).wf(),
            snapshot_fits(snapshot, old(storage)),
            snapshot.skip_nodes <= ops_used,
            ops_used < usize::MAX,
        ensures
            final(self).wf(),
            final(self).builder.spec == old(self).builder.spec,
            final(dist).wf(),
            prefix_preserved(snapshot, old(storage), final(storage)),
    {
        self.begin(snapshot, storage);
        let ghost base_ops = storage.ops_view();
        let ghost base_data = storage.data_view();
        proof {
            assert(base_ops.take(base_ops.len() as int) =~= base_ops);
            assert(base_data.take(base_data.len() as int) =~= base_data);
        }
        match orig.nodes(&self.builder.spec) {
            Some(nodes) => {
                let mut i: usize = snapshot.skip_nodes;
                while i < nodes.len()
                    invariant
                        self.wf(),
                        self.builder.spec == old(self).builder.spec,
                        dist.wf(),
                        storage.ops_view().len() >= base_ops.len(),
                        storage.data_view().len() >= base_data.len(),
                        storage.ops_view().take(base_ops.len() as int) == base_ops,
                        storage.data_view().take(base_data.len() as int) == base_data,
                    decreases nodes@.len() - i,
                {
                    if self.builder.is_full(storage) {
                        return ;
                    }
                    let ghost mid_ops = storage.ops_view();
                    let ghost mid_data = storage.data_view();
                    if dist.should_mutate_data(ops_used - snapshot.skip_nodes) {
                        let _ = self.builder.append_node_mutated(
                            &nodes[i],
                            dict,
                            &self.prim,
                            storage,
                            dist,
                        );
                    } else {
                        let _ = self.builder.append_node(&nodes[i], storage, dist);
                    }
                    proof {
                        assert(storage.ops_view().take(mid_ops.len() as int).take(
                            base_ops.len() as int,
                        ) =~= storage.ops_view().take(base_ops.len() as int));
                        assert(storage.data_view().take(mid_data.len() as int).take(
                            base_data.len() as int,
                        ) =~= storage.data_view().take(base_data.len() as int));
                    }
                    i = i + 1;
                }
            },
            None => {},
        }
    }

    /// What the splice-random walk does with one node.
    fn pick_op(&self, dist: &mut crate::random::Distributions) -> (r: NodeMutationType)
        requires
            old(dist).wf(),
        ensures
            final(dist).wf(),
            final(dist).dict == old(dist).dict,
    {
        dist.gen_graph_mutation_type()
    }

    /// Apply one per-node decision of the splice-random walk.
    #[verifier::loop_isolation(false)]
    fn apply_graph_node<S: crate::storage::GraphStorage>(
        &mut self,
        op: NodeMutationType,
        node: &crate::nodes::GraphNode,
        dict: &crate::dict::CustomDict,
        storage: &mut S,
        dist: &mut crate::random::Distributions,
    )
        requires
            old(self).wf(),
            old(dist).wf(),
        ensures
            final(self).wf(),
            final(self).builder.spec == old(self).builder.spec,
            final(dist).wf(),
            final(storage).ops_view().len() >= old(storage).ops_view().len(),
            final(storage).data_view().len() >= old(storage).data_view().len(),
            final(storage).ops_view().take(old(storage).ops_view().len() as int) == old(storage).ops_view(),
            final(storage).data_view().take(old(storage).data_view().len() as int) == old(storage).data_view(),
    {
        proof {
            assert(old(storage).ops_view().take(old(storage).ops_view().len() as int) =~= old(storage).ops_view());
            assert(old(storage).data_view().take(old(storage).data_view().len() as int) =~= old(storage).data_view());
        }
        match op {
            NodeMutationType::CopyNode => {
                let _ = self.builder.append_node(node, storage, dist);
            },
            NodeMutationType::MutateNodeData => {
                let _ = self.builder.append_node_mutated(node, dict, &self.prim, storage, dist);
            },
            NodeMutationType::DropNode => {},
            NodeMutationType::SkipAndGenerate => {
                let len = dist.gen_number_of_random_nodes();
                let _ = self.builder.append_random(len, &self.prim, storage, dist);
            },
        }
    }

    /// Replay each node after the cut under a random per-node decision:
    /// copy, mutate its data, drop it, or burst in fresh nodes.
    #[verifier::loop_isolation(false)]
    pub fn splice_random<S: crate::storage::GraphStorage>(
        &mut self,
        orig: &crate::storage::VecGraph,
        ops_used: usize,
        snapshot: &MutatorSnapshotState,
        dict: &crate::dict::CustomDict,
        storage: &mut S,
        dist: &mut crate::random::Distributions,
    )
        requires
            old(self).wf(),
            old(dist).wf(),
            snapshot_fits(snapshot, old(storage)),
        ensures
            final(self).wf(),
            final(self).builder.spec == old(self).builder.spec,
            final(dist).wf(),
            prefix_preserved(snapshot, old(storage), final(storage)),
    {
        self.begin(snapshot, storage);
        let ghost base_ops = storage.ops_view();
        let ghost base_data = storage.data_view();
        proof {
            assert(base_ops.take(base_ops.len() as int) =~= base_ops);
            assert(base_data.take(base_data.len() as int) =~= base_data);
        }
        match orig.nodes(&self.builder.spec) {
            Some(nodes) => {
                let mut i: usize = snapshot.skip_nodes;
                let mut taken: usize = 0;
                while i < nodes.len()
                    invariant
                        self.wf(),
                        self.builder.spec == old(self).builder.spec,
                        dist.wf(),
                        storage.ops_view().len() >= base_ops.len(),
                        storage.data_view().len() >= base_data.len(),
                        storage.ops_view().take(base_ops.len() as int) == base_ops,
                        storage.data_view().take(base_data.len() as int) == base_data,
                    decreases nodes@.len() - i,
                {
                    if taken >= ops_used {
                        return ;
                    }
                    if self.builder.is_full(storage) {
                        return ;
                    }
                    let mutation = self.pick_op(dist);
                    let ghost mid_ops = storage.ops_view();
                    let ghost mid_data = storage.data_view();
                    self.apply_graph_node(mutation, &nodes[i], dict, storage, dist);
                    proof {
                        assert(storage.ops_view().take(mid_ops.len() as int).take(
                            base_ops.len() as int,
                        ) =~= storage.ops_view().take(base_ops.len() as int));
                        assert(storage.data_view().take(mid_data.len() as int).take(
                            base_data.len() as int,
                        ) =~= storage.data_view().take(base_data.len() as int));
                    }
                    i = i + 1;
                    taken = taken + 1;
                }
            },
            None => {},
        }
    }

    /// Random cut positions for the splice strategy: nonempty, strictly
    /// ascending (hence duplicate-free), all below `len`, and at most
    /// fifteen of them; the largest sits last, ready to be popped.
    #[verifier::loop_isolation(false)]
    pub fn pick_splice_points(&self, len: usize, dist: &mut crate::random::Distributions) -> (r:
        Vec<usize>)
        requires
            len > 0,
            old(dist).wf(),
        ensures
            final(dist).wf(),
            final(dist).dict == old(dist).dict,
            forall|j: int| 0 <= j < r@.len() ==> (#[trigger] r@[j]) < len,
            forall|j: int, k: int| 0 <= j < k < r@.len() ==> r@[j] < r@[k],
            1 <= r@.len() <= 15,
    {
        let num: usize = if len <= 3 {
            dist.gen_range(1, 3)
        } else if len <= 15 {
            dist.gen_range(1, 5)
        } else {
            dist.gen_range(4, 16)
        };
        let mut picks: Vec<usize> = Vec::new();
        let mut i: usize = 0;
        while i < num
            invariant
                dist.wf(),
                dist.dict == old(dist).dict,
                picks@.len() == i,
                i <= num,
                forall|j: int| 0 <= j < picks@.len() ==> (#[trigger] picks@[j]) < len,
            decreases num - i,
        {
            let p = dist.gen_range(0, len);
            picks.push(p);
            i = i + 1;
        }
        let mut sorted: Vec<usize> = Vec::new();
        let mut i: usize = 0;
        while i < picks.len()
            invariant
                forall|j: int| 0 <= j < picks@.len() ==> (#[trigger] picks@[j]) < len,
                forall|j: int| 0 <= j < sorted@.len() ==> (#[trigger] sorted@[j]) < len,
                forall|j: int, k: int| 0 <= j < k < sorted@.len() ==> sorted@[j] < sorted@[k],
                sorted@.len() <= i,
                i >= 1 ==> sorted@.len() >= 1,
                i <= picks@.len(),
            decreases picks@.len() - i,
        {
            let v = picks[i];
            let mut k: usize = 0;
            while k < sorted.len() && sorted[k] < v
                invariant
                    k <= sorted@.len(),
                    forall|j: int| 0 <= j < k ==> (#[trigger] sorted@[j]) < v,
                decreases sorted@.len() - k,
            {
                k = k + 1;
            }
            if k == sorted.len() || sorted[k] != v {
                let ghost pre = sorted@;
                sorted.insert(k, v);
                proof {
                    assert forall|j: int| 0 <= j < sorted@.len() implies (#[trigger] sorted@[j])
                        < len by {
                        if j < k {
                            assert(sorted@[j] == pre[j]);
                        } else if j == k {
                        } else {
                            assert(sorted@[j] == pre[j - 1]);
                        }
                    }
                    assert forall|j: int, m: int|
                        0 <= j < m < sorted@.len() implies sorted@[j] < sorted@[m] by {
                        let a = if j < k {
                            pre[j] as int
                        } else if j == k {
                            v as int
                        } else {
                            pre[j - 1] as int
                        };
                        assert(sorted@[j] == a);
                        let b = if m < k {
                            pre[m] as int
                        } else if m == k {
                            v as int
                        } else {
                            pre[m - 1] as int
                        };
                        assert(sorted@[m] == b);
                        if j < k && m == k {
                            assert(pre[j] < v);
                        } else if j == k && m > k {
                            assert(!(pre[k as int] < v) && pre[k as int] != v);
                        } else if j < k && m > k {
                            assert(pre[j] < v);
                            assert(!(pre[k as int] < v) && pre[k as int] != v);
                        }
                    }
                }
            }
            i = i + 1;
        }
        sorted
    }

    /// Replay the source after the cut, splicing in contiguous runs of
    /// nodes sampled from another corpus entry at the chosen cut points.
    #[verifier::loop_isolation(false)]
    pub fn splice<S: crate::storage::GraphStorage, Q: InputQueue>(
        &mut self,
        orig: &crate::storage::VecGraph,
        ops_used: usize,
        snapshot: &MutatorSnapshotState,
        queue: &Q,
        storage: &mut S,
        dist: &mut crate::random::Distributions,
    )
        requires
            old(self).wf(),
            old(dist).wf(),
            snapshot_fits(snapshot, old(storage)),
            snapshot.skip_nodes < ops_used,
            queue.can_sample(),
        ensures
            final(self).wf(),
            final(self).builder.spec == old(self).builder.spec,
            final(dist).wf(),
            prefix_preserved(snapshot, old(storage), final(storage)),
    {
        let orig_len = ops_used - snapshot.skip_nodes;
        let mut splice_points = self.pick_splice_points(orig_len, dist);
        self.begin(snapshot, storage);
        let ghost base_ops = storage.ops_view();
        let ghost base_data = storage.data_view();
        proof {
            assert(base_ops.take(base_ops.len() as int) =~= base_ops);
            assert(base_data.take(base_data.len() as int) =~= base_data);
        }
        match orig.nodes(&self.builder.spec) {
            Some(nodes) => {
                let mut i: usize = snapshot.skip_nodes;
                let mut pos: usize = 0;
                while i < nodes.len()
                    invariant
                        self.wf(),
                        self.builder.spec == old(self).builder.spec,
                        dist.wf(),
                        storage.ops_view().len() >= base_ops.len(),
                        storage.data_view().len() >= base_data.len(),
                        storage.ops_view().take(base_ops.len() as int) == base_ops,
                        storage.data_view().take(base_data.len() as int) == base_data,
                        pos <= i,
                    decreases nodes@.len() - i,
                {
                    if self.builder.is_full(storage) {
                        return ;
                    }
                    if splice_points.len() > 0 && pos == splice_points[splice_points.len() - 1] {
                        splice_points.pop();
                        let other = queue.sample_for_splicing(dist);
                        match other.nodes(&self.builder.spec) {
                            Some(other_nodes) => {
                                if other_nodes.len() > 0 {
                                    let start = dist.gen_range(0, other_nodes.len());
                                    let mut run = dist.gen_range(1, 16);
                                    if run > other_nodes.len() - start {
                                        run = other_nodes.len() - start;
                                    }
                                    let mut k: usize = 0;
                                    while k < run
                                        invariant
                                            self.wf(),
                                            self.builder.spec == old(self).builder.spec,
                                            dist.wf(),
                                            storage.ops_view().len() >= base_ops.len(),
                        storage.data_view().len() >= base_data.len(),
                        storage.ops_view().take(base_ops.len() as int) == base_ops,
                        storage.data_view().take(base_data.len() as int) == base_data,
                                            start + run <= other_nodes@.len(),
                                            k <= run,
                                        decreases run - k,
                                    {
                                        let ghost mid_ops = storage.ops_view();
                                        let ghost mid_data = storage.data_view();
                                        let _ = self.builder.append_node(
                                            &other_nodes[start + k],
                                            storage,
                                            dist,
                                        );
                                        proof {
                                            assert(storage.ops_view().take(
                                                mid_ops.len() as int,
                                            ).take(base_ops.len() as int)
                                                =~= storage.ops_view().take(
                                                base_ops.len() as int,
                                            ));
                                            assert(storage.data_view().take(
                                                mid_data.len() as int,
                                            ).take(base_data.len() as int)
                                                =~= storage.data_view().take(
                                                base_data.len() as int,
                                            ));
                                        }
                                        k = k + 1;
                                    }
                                }
                            },
                            None => {},
                        }
                    }
                    let ghost mid_ops = storage.ops_view();
                    let ghost mid_data = storage.data_view();
                    let _ = self.builder.append_node(&nodes[i], storage, dist);
                    proof {
                        assert(storage.ops_view().take(mid_ops.len() as int).take(
                            base_ops.len() as int,
                        ) =~= storage.ops_view().take(base_ops.len() as int));
                        assert(storage.data_view().take(mid_data.len() as int).take(
                            base_data.len() as int,
                        ) =~= storage.data_view().take(base_data.len() as int));
                    }
                    i = i + 1;
                    pos = pos + 1;
                }
            },
            None => {},
        }
    }

    /// Replay a prefix, repeat one random fragment several times with
    /// mutated data, then replay the remaining suffix.
    #[verifier::loop_isolation(false)]
    pub fn repeat<S: crate::storage::GraphStorage>(
        &mut self,
        orig: &crate::storage::VecGraph,
        ops_used: usize,
        snapshot: &MutatorSnapshotState,
        dict: &crate::dict::CustomDict,
        storage: &mut S,
        dist: &mut crate::random::Distributions,
    )
        requires
            old(self).wf(),
            old(dist).wf(),
            snapshot_fits(snapshot, old(storage)),
            snapshot.skip_nodes < ops_used,
            ops_used < usize::MAX - 16,
        ensures
            final(self).wf(),
            final(self).builder.spec == old(self).builder.spec,
            final(dist).wf(),
            prefix_preserved(snapshot, old(storage), final(storage)),
    {
        self.begin(snapshot, storage);
        let ghost base_ops = storage.ops_view();
        let ghost base_data = storage.data_view();
        proof {
            assert(base_ops.take(base_ops.len() as int) =~= base_ops);
            assert(base_data.take(base_data.len() as int) =~= base_data);
        }
        let fragment_nodes = dist.gen_range(2, 16);
        let repeats = dist.gen_range(2, 6);
        let insert_pos: usize = if ops_used - snapshot.skip_nodes - 1 > 0 {
            dist.gen_range(0, ops_used - snapshot.skip_nodes - 1)
        } else {
            0
        };
        match orig.nodes(&self.builder.spec) {
            Some(nodes) => {
                let mut i: usize = 0;
                while i < insert_pos
                    invariant
                        self.wf(),
                        self.builder.spec == old(self).builder.spec,
                        dist.wf(),
                        storage.ops_view().len() >= base_ops.len(),
                        storage.data_view().len() >= base_data.len(),
                        storage.ops_view().take(base_ops.len() as int) == base_ops,
                        storage.data_view().take(base_data.len() as int) == base_data,
                    decreases insert_pos - i,
                {
                    if snapshot.skip_nodes + i >= nodes.len() {
                        break ;
                    }
                    if self.builder.is_full(storage) {
                        return ;
                    }
                    let ghost mid_ops = storage.ops_view();
                    let ghost mid_data = storage.data_view();
                    let _ = self.builder.append_node(&nodes[snapshot.skip_nodes + i], storage, dist);
                    proof {
                        assert(storage.ops_view().take(mid_ops.len() as int).take(
                            base_ops.len() as int,
                        ) =~= storage.ops_view().take(base_ops.len() as int));
                        assert(storage.data_view().take(mid_data.len() as int).take(
                            base_data.len() as int,
                        ) =~= storage.data_view().take(base_data.len() as int));
                    }
                    i = i + 1;
                }
                let frag_start = snapshot.skip_nodes + insert_pos;
                let mut rep: usize = 0;
                while rep < repeats
                    invariant
                        self.wf(),
                        self.builder.spec == old(self).builder.spec,
                        dist.wf(),
                        storage.ops_view().len() >= base_ops.len(),
                        storage.data_view().len() >= base_data.len(),
                        storage.ops_view().take(base_ops.len() as int) == base_ops,
                        storage.data_view().take(base_data.len() as int) == base_data,
                    decreases repeats - rep,
                {
                    let mut k: usize = 0;
                    while k < fragment_nodes
                        invariant
                            self.wf(),
                            self.builder.spec == old(self).builder.spec,
                            dist.wf(),
                            storage.ops_view().len() >= base_ops.len(),
                        storage.data_view().len() >= base_data.len(),
                        storage.ops_view().take(base_ops.len() as int) == base_ops,
                        storage.data_view().take(base_data.len() as int) == base_data,
                        decreases fragment_nodes - k,
                    {
                        if frag_start + k >= nodes.len() {
                            break ;
                        }
                        if self.builder.is_full(storage) {
                            return ;
                        }
                        let ghost mid_ops = storage.ops_view();
                        let ghost mid_data = storage.data_view();
                        let _ = self.builder.append_node_mutated(
                            &nodes[frag_start + k],
                            dict,
                            &self.prim,
                            storage,
                            dist,
                        );
                        proof {
                            assert(storage.ops_view().take(mid_ops.len() as int).take(
                                base_ops.len() as int,
                            ) =~= storage.ops_view().take(base_ops.len() as int));
                            assert(storage.data_view().take(mid_data.len() as int).take(
                                base_data.len() as int,
                            ) =~= storage.data_view().take(base_data.len() as int));
                        }
                        k = k + 1;
                    }
                    rep = rep + 1;
                }
                let mut i: usize = frag_start;
                while i < nodes.len()
                    invariant
                        self.wf(),
                        self.builder.spec == old(self).builder.spec,
                        dist.wf(),
                        storage.ops_view().len() >= base_ops.len(),
                        storage.data_view().len() >= base_data.len(),
                        storage.ops_view().take(base_ops.len() as int) == base_ops,
                        storage.data_view().take(base_data.len() as int) == base_data,
                    decreases nodes@.len() - i,
                {
                    if self.builder.is_full(storage) {
                        return ;
                    }
                    let ghost mid_ops = storage.ops_view();
                    let ghost mid_data = storage.data_view();
                    let _ = self.builder.append_node(&nodes[i], storage, dist);
                    proof {
                        assert(storage.ops_view().take(mid_ops.len() as int).take(
                            base_ops.len() as int,
                        ) =~= storage.ops_view().take(base_ops.len() as int));
                        assert(storage.data_view().take(mid_data.len() as int).take(
                            base_data.len() as int,
                        ) =~= storage.data_view().take(base_data.len() as int));
                    }
                    i = i + 1;
                }
            },
            None => {},
        }
    }

    /// Replay all nodes except those whose index falls in the given range.
    #[verifier::loop_isolation(false)]
    pub fn drop_range<S: crate::storage::GraphStorage>(
        &mut self,
        orig: &crate::storage::VecGraph,
        range_start: usize,
        range_end: usize,
        storage: &mut S,
        dist: &mut crate::random::Distributions,
    )
        requires
            old(self).wf(),
            old(dist).wf(),
        ensures
            final(self).wf(),
            final(self).builder.spec == old(self).builder.spec,
            final(dist).wf(),
    {
        storage.clear();
        self.builder.state.clear();
        match orig.nodes(&self.builder.spec) {
            Some(nodes) => {
                let mut i: usize = 0;
                while i < nodes.len()
                    invariant
                        self.wf(),
                        self.builder.spec == old(self).builder.spec,
                        dist.wf(),
                    decreases nodes@.len() - i,
                {
                    if !(range_start <= i && i < range_end) {
                        let _ = self.builder.append_node(&nodes[i], storage, dist);
                    }
                    i = i + 1;
                }
            },
            None => {},
        }
    }

    /// Pick one strategy and run it.  A source with nothing beyond the cut
    /// (or nothing at all) always forces plain generation.
    pub fn mutate<S: crate::storage::GraphStorage, Q: InputQueue>(
        &mut self,
        orig: &crate::storage::VecGraph,
        ops_used: usize,
        dict: &crate::dict::CustomDict,
        snapshot: &MutatorSnapshotState,
        queue: &Q,
        storage: &mut S,
        dist: &mut crate::random::Distributions,
    ) -> (r: MutationStrategy)
        requires
            old(self).wf(),
            old(dist).wf(),
            snapshot_fits(snapshot, old(storage)),
            snapshot.skip_nodes <= ops_used,
            ops_used < usize::MAX - 16,
            queue.can_sample(),
        ensures
            final(self).wf(),
            final(self).builder.spec == old(self).builder.spec,
            final(dist).wf(),
            prefix_preserved(snapshot, old(storage), final(storage)),
            (orig.ops@.len() == 0 || ops_used == snapshot.skip_nodes || ops_used == 0) ==> r
                is Generate,
            r is Generate || r is GenerateTail || r is Splice || r is SpliceRandom || r
                is DataOnly || r is Repeat,
    {
        let orig_len = ops_used - snapshot.skip_nodes;
        if orig.ops.len() == 0 || orig_len == 0 || ops_used == 0 {
            let _ = self.generate(50, snapshot, storage, dist);
            return MutationStrategy::Generate;
        }
        let strategy = dist.gen_mutation_strategy(orig_len);
        match strategy {
            MutationStrategy::GenerateTail(args) => {
                self.generate_tail(orig, ops_used, snapshot, args, storage, dist);
            },
            MutationStrategy::SpliceRandom => {
                self.splice_random(orig, ops_used, snapshot, dict, storage, dist);
            },
            MutationStrategy::Splice => {
                self.splice(orig, ops_used, snapshot, queue, storage, dist);
            },
            MutationStrategy::DataOnly => {
                self.mutate_data(orig, ops_used, snapshot, dict, storage, dist);
            },
            MutationStrategy::Repeat => {
                self.repeat(orig, ops_used, snapshot, dict, storage, dist);
            },
            MutationStrategy::Generate => {
                let _ = self.generate(50, snapshot, storage, dist);
            },
            _ => {
                let _ = self.generate(50, snapshot, storage, dist);
            },
        }
        strategy
    }
}


/// Drives the deterministic calibration sweep: replays a prefix under a
/// snapshot cut and applies one fixed single-byte perturbation to the first
/// node past the cut.
pub struct DetMutator {
    pub builder: crate::builder::GraphBuilder,
    pub prim: crate::primitive::PrimitiveMutatorDefenite,
}

impl DetMutator {
    pub open spec fn wf(&self) -> bool {
        self.builder.wf()
    }

    pub fn new(spec: crate::spec::GraphSpec) -> (r: Self)
        requires
            spec.wf(),
        ensures
            r.wf(),
            r.builder.spec == spec,
    {
        DetMutator {
            builder: crate::builder::GraphBuilder::new(spec),
            prim: crate::primitive::PrimitiveMutatorDefenite::new(),
        }
    }

    /// The spec this mutator builds against.
    pub fn graph_spec(&self) -> (r: &crate::spec::GraphSpec)
        ensures
            r == &self.builder.spec,
    {
        &self.builder.spec
    }

    /// Start a det sweep: truncate to the cut and restore the table.
    fn begin<S: crate::storage::GraphStorage>(
        &mut self,
        snapshot: &MutatorSnapshotState,
        storage: &mut S,
    )
        requires
            old(self).wf(),
            snapshot_fits(snapshot, old(storage)),
        ensures
            final(self).wf(),
            final(self).builder.spec == old(self).builder.spec,
            final(storage).ops_view() == old(storage).ops_view().take(snapshot.skip_ops as int),
            final(storage).data_view() == old(storage).data_view().take(snapshot.skip_data as int),
            prefix_preserved(snapshot, old(storage), final(storage)),
    {
        self.builder.start(storage, snapshot);
        proof {
            assert(storage.ops_view().take(snapshot.skip_ops as int) =~= storage.ops_view());
            assert(storage.data_view().take(snapshot.skip_data as int) =~= storage.data_view());
        }
    }

    /// Replay the whole source graph, renaming afresh.
    #[verifier::loop_isolation(false)]
    pub fn copy_all<S: crate::storage::GraphStorage>(
        &mut self,
        orig: &crate::storage::VecGraph,
        storage: &mut S,
        dist: &mut crate::random::Distributions,
    )
        requires
            old(self).wf(),
            old(dist).wf(),
        ensures
            final(self).wf(),
            final(self).builder.spec == old(self).builder.spec,
            final(dist).wf(),
    {
        storage.clear();
        self.builder.state.clear();
        match orig.nodes(&self.builder.spec) {
            Some(nodes) => {
                let mut i: usize = 0;
                while i < nodes.len()
                    invariant
                        self.wf(),
                        self.builder.spec == old(self).builder.spec,
                        dist.wf(),
                    decreases nodes@.len() - i,
                {
                    let _ = self.builder.append_node(&nodes[i], storage, dist);
                    i = i + 1;
                }
            },
            None => {},
        }
    }

    /// Replay only the first `node_k + 1` source nodes.
    #[verifier::loop_isolation(false)]
    pub fn prune_k<S: crate::storage::GraphStorage>(
        &mut self,
        orig: &crate::storage::VecGraph,
        storage: &mut S,
        dist: &mut crate::random::Distributions,
        node_k: usize,
    )
        requires
            old(self).wf(),
            old(dist).wf(),
        ensures
            final(self).wf(),
            final(self).builder.spec == old(self).builder.spec,
            final(dist).wf(),
    {
        storage.clear();
        self.builder.state.clear();
        match orig.nodes(&self.builder.spec) {
            Some(nodes) => {
                let mut i: usize = 0;
                while i < nodes.len()
                    invariant
                        self.wf(),
                        self.builder.spec == old(self).builder.spec,
                        dist.wf(),
                    decreases nodes@.len() - i,
                {
                    if self.builder.is_full(storage) {
                        return ;
                    }
                    if i > node_k {
                        return ;
                    }
                    let _ = self.builder.append_node(&nodes[i], storage, dist);
                    i = i + 1;
                }
            },
            None => {},
        }
    }

    /// Replay the first `snapshot_cutoff` nodes, save the renaming table,
    /// and lay down the snapshot-marker op.
    #[verifier::loop_isolation(false)]
    pub fn prepare_snapshot<S: crate::storage::GraphStorage>(
        &mut self,
        snapshot_cutoff: usize,
        data: &crate::storage::VecGraph,
        storage: &mut S,
        dist: &mut crate::random::Distributions,
    ) -> (r: MutatorSnapshotState)
        requires
            old(self).wf(),
            old(dist).wf(),
            old(self).builder.spec.snapshot_node_id is Some,
        ensures
            final(self).wf(),
            final(self).builder.spec == old(self).builder.spec,
            final(dist).wf(),
            r.skip_nodes == snapshot_cutoff,
            r.prefix_graph_state is Some,
            r.skip_ops <= final(storage).ops_view().len(),
            r.skip_data == final(storage).data_view().len(),
            final(storage).ops_view().len() <= r.skip_ops + 1,
            final(storage).ops_view().len() == r.skip_ops + 1 ==> final(storage).ops_view()[r.skip_ops as int] == ({
                let m = old(self).builder.spec.snapshot_node_id->0;
                m.0
            }),
            final(storage).ops_view().len() == r.skip_ops ==> final(storage).spec_ops_room() == 0,
    {
        storage.clear();
        self.builder.state.clear();
        match data.nodes(&self.builder.spec) {
            Some(nodes) => {
                let mut i: usize = 0;
                while i < nodes.len()
                    invariant
                        self.wf(),
                        self.builder.spec == old(self).builder.spec,
                        dist.wf(),
                    decreases nodes@.len() - i,
                {
                    if i >= snapshot_cutoff {
                        break ;
                    }
                    let _ = self.builder.append_node(&nodes[i], storage, dist);
                    i = i + 1;
                }
            },
            None => {},
        }
        let prefix_graph_state = Some(self.builder.get_graph_state());
        let skip_ops = storage.op_len();
        let skip_data = storage.data_len();
        let marker = match self.builder.spec.snapshot_node_id {
            Some(m) => m,
            None => crate::newtypes::NodeTypeID::new(0),
        };
        let _ = storage.append_op(marker.as_u16());
        MutatorSnapshotState { skip_nodes: snapshot_cutoff, skip_ops, skip_data, prefix_graph_state }
    }

    /// Replay the first node past the cut verbatim: the unmutated baseline
    /// measurement.
    pub fn append_unmutate<S: crate::storage::GraphStorage>(
        &mut self,
        orig: &crate::storage::VecGraph,
        snapshot: &MutatorSnapshotState,
        storage: &mut S,
        dist: &mut crate::random::Distributions,
    )
        requires
            old(self).wf(),
            old(dist).wf(),
            snapshot_fits(snapshot, old(storage)),
        ensures
            final(self).wf(),
            final(self).builder.spec == old(self).builder.spec,
            final(dist).wf(),
            prefix_preserved(snapshot, old(storage), final(storage)),
            ({
                let parsed = crate::nodes::decompose(
                    &old(self).builder.spec,
                    orig.ops@,
                    orig.data@,
                );
                &&& (parsed is Some && snapshot.skip_nodes < parsed->0.len() ==> ({
                    let v = parsed->0[snapshot.skip_nodes as int];
                    ||| (final(storage).ops_view().len() == snapshot.skip_ops && final(storage).data_view() == old(storage).data_view().take(snapshot.skip_data as int))
                    ||| (final(storage).ops_view().len() == snapshot.skip_ops + v.ops.len()
                        && final(storage).data_view() == old(storage).data_view().take(
                        snapshot.skip_data as int,
                    ) + v.data)
                }))
                &&& (!(parsed is Some && snapshot.skip_nodes < parsed->0.len()) ==> final(storage).ops_view().len() == snapshot.skip_ops && final(storage).data_view() == old(storage).data_view().take(snapshot.skip_data as int))
            }),
    {
        self.begin(snapshot, storage);
        let ghost base_ops = storage.ops_view();
        let ghost base_data = storage.data_view();
        proof {
            assert(base_ops.take(base_ops.len() as int) =~= base_ops);
            assert(base_data.take(base_data.len() as int) =~= base_data);
        }
        match orig.nodes(&self.builder.spec) {
            Some(nodes) => {
                proof {
                    if snapshot.skip_nodes < nodes@.len() {
                        assert(nodes@[snapshot.skip_nodes as int]@ == crate::nodes::decompose(
                            &self.builder.spec,
                            orig.ops@,
                            orig.data@,
                        )->0[snapshot.skip_nodes as int]);
                    }
                }
                if snapshot.skip_nodes < nodes.len() {
                    if !self.builder.is_full(storage) {
                        let _ = self.builder.append_node(&nodes[snapshot.skip_nodes], storage, dist);
                        proof {
                            assert(storage.ops_view().take(base_ops.len() as int).take(
                                snapshot.skip_ops as int,
                            ) =~= storage.ops_view().take(snapshot.skip_ops as int));
                            assert(storage.data_view().take(base_data.len() as int).take(
                                snapshot.skip_data as int,
                            ) =~= storage.data_view().take(snapshot.skip_data as int));
                        }
                    }
                }
            },
            None => {},
        }
        proof {
            assert(storage.ops_view().len() >= snapshot.skip_ops);
            assert(storage.data_view().len() >= snapshot.skip_data);
            assert(storage.ops_view().take(snapshot.skip_ops as int) == old(storage).ops_view().take(snapshot.skip_ops as int));
            assert(storage.data_view().take(snapshot.skip_data as int) == old(storage).data_view().take(snapshot.skip_data as int));
        }
    }

    /// Replay the first node past the cut with every bit of its data byte
    /// at `off` flipped.
    pub fn mutate_data_full_bit_flip<S: crate::storage::GraphStorage>(
        &mut self,
        orig: &crate::storage::VecGraph,
        snapshot: &MutatorSnapshotState,
        storage: &mut S,
        dist: &mut crate::random::Distributions,
        off: usize,
    )
        requires
            old(self).wf(),
            old(dist).wf(),
            snapshot_fits(snapshot, old(storage)),
        ensures
            final(self).wf(),
            final(self).builder.spec == old(self).builder.spec,
            final(dist).wf(),
            prefix_preserved(snapshot, old(storage), final(storage)),
            ({
                let parsed = crate::nodes::decompose(
                    &old(self).builder.spec,
                    orig.ops@,
                    orig.data@,
                );
                &&& (parsed is Some && snapshot.skip_nodes < parsed->0.len() ==> ({
                    let v = parsed->0[snapshot.skip_nodes as int];
                    ||| (final(storage).ops_view().len() == snapshot.skip_ops && final(storage).data_view() == old(storage).data_view().take(snapshot.skip_data as int))
                    ||| (final(storage).ops_view().len() == snapshot.skip_ops + v.ops.len()
                        && final(storage).data_view() == old(storage).data_view().take(
                        snapshot.skip_data as int,
                    ) + (if (off as int) < v.data.len() { v.data.update(off as int, (v.data[off as int] ^ 0xff) as u8) } else { v.data }))
                }))
                &&& (!(parsed is Some && snapshot.skip_nodes < parsed->0.len()) ==> final(storage).ops_view().len() == snapshot.skip_ops && final(storage).data_view() == old(storage).data_view().take(snapshot.skip_data as int))
            }),
    {
        self.begin(snapshot, storage);
        let ghost base_ops = storage.ops_view();
        let ghost base_data = storage.data_view();
        proof {
            assert(base_ops.take(base_ops.len() as int) =~= base_ops);
            assert(base_data.take(base_data.len() as int) =~= base_data);
        }
        match orig.nodes(&self.builder.spec) {
            Some(nodes) => {
                proof {
                    if snapshot.skip_nodes < nodes@.len() {
                        assert(nodes@[snapshot.skip_nodes as int]@ == crate::nodes::decompose(
                            &self.builder.spec,
                            orig.ops@,
                            orig.data@,
                        )->0[snapshot.skip_nodes as int]);
                    }
                }
                if snapshot.skip_nodes < nodes.len() {
                    if !self.builder.is_full(storage) {
                        let _ = self.builder.append_node_mutated_full_bit_flip(
                            &nodes[snapshot.skip_nodes],
                            off,
                            &self.prim,
                            storage,
                            dist,
                        );
                        proof {
                            assert(storage.ops_view().take(base_ops.len() as int).take(
                                snapshot.skip_ops as int,
                            ) =~= storage.ops_view().take(snapshot.skip_ops as int));
                            assert(storage.data_view().take(base_data.len() as int).take(
                                snapshot.skip_data as int,
                            ) =~= storage.data_view().take(snapshot.skip_data as int));
                        }
                    }
                }
            },
            None => {},
        }
        proof {
            assert(storage.ops_view().len() >= snapshot.skip_ops);
            assert(storage.data_view().len() >= snapshot.skip_data);
            assert(storage.ops_view().take(snapshot.skip_ops as int) == old(storage).ops_view().take(snapshot.skip_ops as int));
            assert(storage.data_view().take(snapshot.skip_data as int) == old(storage).data_view().take(snapshot.skip_data as int));
        }
    }

    /// Replay the first node past the cut with the lowest bit of its data
    /// byte at `off` flipped.
    pub fn mutate_data_lowest_bit_flip<S: crate::storage::GraphStorage>(
        &mut self,
        orig: &crate::storage::VecGraph,
        snapshot: &MutatorSnapshotState,
        storage: &mut S,
        dist: &mut crate::random::Distributions,
        off: usize,
    )
        requires
            old(self).wf(),
            old(dist).wf(),
            snapshot_fits(snapshot, old(storage)),
        ensures
            final(self).wf(),
            final(self).builder.spec == old(self).builder.spec,
            final(dist).wf(),
            prefix_preserved(snapshot, old(storage), final(storage)),
            ({
                let parsed = crate::nodes::decompose(
                    &old(self).builder.spec,
                    orig.ops@,
                    orig.data@,
                );
                &&& (parsed is Some && snapshot.skip_nodes < parsed->0.len() ==> ({
                    let v = parsed->0[snapshot.skip_nodes as int];
                    ||| (final(storage).ops_view().len() == snapshot.skip_ops && final(storage).data_view() == old(storage).data_view().take(snapshot.skip_data as int))
                    ||| (final(storage).ops_view().len() == snapshot.skip_ops + v.ops.len()
                        && final(storage).data_view() == old(storage).data_view().take(
                        snapshot.skip_data as int,
                    ) + (if (off as int) < v.data.len() { v.data.update(off as int, (v.data[off as int] ^ 0x01) as u8) } else { v.data }))
                }))
                &&& (!(parsed is Some && snapshot.skip_nodes < parsed->0.len()) ==> final(storage).ops_view().len() == snapshot.skip_ops && final(storage).data_view() == old(storage).data_view().take(snapshot.skip_data as int))
            }),
    {
        self.begin(snapshot, storage);
        let ghost base_ops = storage.ops_view();
        let ghost base_data = storage.data_view();
        proof {
            assert(base_ops.take(base_ops.len() as int) =~= base_ops);
            assert(base_data.take(base_data.len() as int) =~= base_data);
        }
        match orig.nodes(&self.builder.spec) {
            Some(nodes) => {
                proof {
                    if snapshot.skip_nodes < nodes@.len() {
                        assert(nodes@[snapshot.skip_nodes as int]@ == crate::nodes::decompose(
                            &self.builder.spec,
                            orig.ops@,
                            orig.data@,
                        )->0[snapshot.skip_nodes as int]);
                    }
                }
                if snapshot.skip_nodes < nodes.len() {
                    if !self.builder.is_full(storage) {
                        let _ = self.builder.append_node_mutated_lowest_bit_flip(
                            &nodes[snapshot.skip_nodes],
                            off,
                            &self.prim,
                            storage,
                            dist,
                        );
                        proof {
                            assert(storage.ops_view().take(base_ops.len() as int).take(
                                snapshot.skip_ops as int,
                            ) =~= storage.ops_view().take(snapshot.skip_ops as int));
                            assert(storage.data_view().take(base_data.len() as int).take(
                                snapshot.skip_data as int,
                            ) =~= storage.data_view().take(snapshot.skip_data as int));
                        }
                    }
                }
            },
            None => {},
        }
        proof {
            assert(storage.ops_view().len() >= snapshot.skip_ops);
            assert(storage.data_view().len() >= snapshot.skip_data);
            assert(storage.ops_view().take(snapshot.skip_ops as int) == old(storage).ops_view().take(snapshot.skip_ops as int));
            assert(storage.data_view().take(snapshot.skip_data as int) == old(storage).data_view().take(snapshot.skip_data as int));
        }
    }

    /// Replay the first node past the cut with a fixed constant
    /// wrapping-added to its data byte at `off`.
    pub fn mutate_data_addition<S: crate::storage::GraphStorage>(
        &mut self,
        orig: &crate::storage::VecGraph,
        snapshot: &MutatorSnapshotState,
        storage: &mut S,
        dist: &mut crate::random::Distributions,
        off: usize,
    )
        requires
            old(self).wf(),
            old(dist).wf(),
            snapshot_fits(snapshot, old(storage)),
        ensures
            final(self).wf(),
            final(self).builder.spec == old(self).builder.spec,
            final(dist).wf(),
            prefix_preserved(snapshot, old(storage), final(storage)),
            ({
                let parsed = crate::nodes::decompose(
                    &old(self).builder.spec,
                    orig.ops@,
                    orig.data@,
                );
                &&& (parsed is Some && snapshot.skip_nodes < parsed->0.len() ==> ({
                    let v = parsed->0[snapshot.skip_nodes as int];
                    ||| (final(storage).ops_view().len() == snapshot.skip_ops && final(storage).data_view() == old(storage).data_view().take(snapshot.skip_data as int))
                    ||| (final(storage).ops_view().len() == snapshot.skip_ops + v.ops.len()
                        && final(storage).data_view() == old(storage).data_view().take(
                        snapshot.skip_data as int,
                    ) + (if (off as int) < v.data.len() { v.data.update(off as int, v.data[off as int].wrapping_add(0x10)) } else { v.data }))
                }))
                &&& (!(parsed is Some && snapshot.skip_nodes < parsed->0.len()) ==> final(storage).ops_view().len() == snapshot.skip_ops && final(storage).data_view() == old(storage).data_view().take(snapshot.skip_data as int))
            }),
    {
        self.begin(snapshot, storage);
        let ghost base_ops = storage.ops_view();
        let ghost base_data = storage.data_view();
        proof {
            assert(base_ops.take(base_ops.len() as int) =~= base_ops);
            assert(base_data.take(base_data.len() as int) =~= base_data);
        }
        match orig.nodes(&self.builder.spec) {
            Some(nodes) => {
                proof {
                    if snapshot.skip_nodes < nodes@.len() {
                        assert(nodes@[snapshot.skip_nodes as int]@ == crate::nodes::decompose(
                            &self.builder.spec,
                            orig.ops@,
                            orig.data@,
                        )->0[snapshot.skip_nodes as int]);
                    }
                }
                if snapshot.skip_nodes < nodes.len() {
                    if !self.builder.is_full(storage) {
                        let _ = self.builder.append_node_mutated_addition(
                            &nodes[snapshot.skip_nodes],
                            off,
                            &self.prim,
                            storage,
                            dist,
                        );
                        proof {
                            assert(storage.ops_view().take(base_ops.len() as int).take(
                                snapshot.skip_ops as int,
                            ) =~= storage.ops_view().take(snapshot.skip_ops as int));
                            assert(storage.data_view().take(base_data.len() as int).take(
                                snapshot.skip_data as int,
                            ) =~= storage.data_view().take(snapshot.skip_data as int));
                        }
                    }
                }
            },
            None => {},
        }
        proof {
            assert(storage.ops_view().len() >= snapshot.skip_ops);
            assert(storage.data_view().len() >= snapshot.skip_data);
            assert(storage.ops_view().take(snapshot.skip_ops as int) == old(storage).ops_view().take(snapshot.skip_ops as int));
            assert(storage.data_view().take(snapshot.skip_data as int) == old(storage).data_view().take(snapshot.skip_data as int));
        }
    }

    /// Replay the first node past the cut with a fixed constant
    /// wrapping-subtracted from its data byte at `off`.
    pub fn mutate_data_subtraction<S: crate::storage::GraphStorage>(
        &mut self,
        orig: &crate::storage::VecGraph,
        snapshot: &MutatorSnapshotState,
        storage: &mut S,
        dist: &mut crate::random::Distributions,
        off: usize,
    )
        requires
            old(self).wf(),
            old(dist).wf(),
            snapshot_fits(snapshot, old(storage)),
        ensures
            final(self).wf(),
            final(self).builder.spec == old(self).builder.spec,
            final(dist).wf(),
            prefix_preserved(snapshot, old(storage), final(storage)),
            ({
                let parsed = crate::nodes::decompose(
                    &old(self).builder.spec,
                    orig.ops@,
                    orig.data@,
                );
                &&& (parsed is Some && snapshot.skip_nodes < parsed->0.len() ==> ({
                    let v = parsed->0[snapshot.skip_nodes as int];
                    ||| (final(storage).ops_view().len() == snapshot.skip_ops && final(storage).data_view() == old(storage).data_view().take(snapshot.skip_data as int))
                    ||| (final(storage).ops_view().len() == snapshot.skip_ops + v.ops.len()
                        && final(storage).data_view() == old(storage).data_view().take(
                        snapshot.skip_data as int,
                    ) + (if (off as int) < v.data.len() { v.data.update(off as int, v.data[off as int].wrapping_sub(0x10)) } else { v.data }))
                }))
                &&& (!(parsed is Some && snapshot.skip_nodes < parsed->0.len()) ==> final(storage).ops_view().len() == snapshot.skip_ops && final(storage).data_view() == old(storage).data_view().take(snapshot.skip_data as int))
            }),
    {
        self.begin(snapshot, storage);
        let ghost base_ops = storage.ops_view();
        let ghost base_data = storage.data_view();
        proof {
            assert(base_ops.take(base_ops.len() as int) =~= base_ops);
            assert(base_data.take(base_data.len() as int) =~= base_data);
        }
        match orig.nodes(&self.builder.spec) {
            Some(nodes) => {
                proof {
                    if snapshot.skip_nodes < nodes@.len() {
                        assert(nodes@[snapshot.skip_nodes as int]@ == crate::nodes::decompose(
                            &self.builder.spec,
                            orig.ops@,
                            orig.data@,
                        )->0[snapshot.skip_nodes as int]);
                    }
                }
                if snapshot.skip_nodes < nodes.len() {
                    if !self.builder.is_full(storage) {
                        let _ = self.builder.append_node_mutated_subtraction(
                            &nodes[snapshot.skip_nodes],
                            off,
                            &self.prim,
                            storage,
                            dist,
                        );
                        proof {
                            assert(storage.ops_view().take(base_ops.len() as int).take(
                                snapshot.skip_ops as int,
                            ) =~= storage.ops_view().take(snapshot.skip_ops as int));
                            assert(storage.data_view().take(base_data.len() as int).take(
                                snapshot.skip_data as int,
                            ) =~= storage.data_view().take(snapshot.skip_data as int));
                        }
                    }
                }
            },
            None => {},
        }
        proof {
            assert(storage.ops_view().len() >= snapshot.skip_ops);
            assert(storage.data_view().len() >= snapshot.skip_data);
            assert(storage.ops_view().take(snapshot.skip_ops as int) == old(storage).ops_view().take(snapshot.skip_ops as int));
            assert(storage.data_view().take(snapshot.skip_data as int) == old(storage).data_view().take(snapshot.skip_data as int));
        }
    }
}

} // verus!
