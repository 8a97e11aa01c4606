use specfuzz::analyzer::{StabilityTracker, MAX_ATTEMPTS, MIN_STABLE_RUNS};
use specfuzz::bitmap::{Bitmap, BitmapStorageReason, StorageReason};
use specfuzz::builder::GraphBuilder;
use specfuzz::codec::{parse_graph, serialize_graph};
use specfuzz::dict::CustomDict;
use specfuzz::exitreason::ExitReason;
use specfuzz::input::Input;
use specfuzz::localhash::LocalHashmap;
use specfuzz::mutator::{MutationStrategy, Mutator, MutatorSnapshotState};
use specfuzz::newtypes::{GraphError, NodeTypeID};
use specfuzz::primitive::PrimitiveMutator;
use specfuzz::queue::Queue;
use specfuzz::random::Distributions;
use specfuzz::spec::GraphSpec;
use specfuzz::spec_loader::{AtomLoader, EdgeLoader, NodeLoader, SpecLoader};
use specfuzz::storage::{copy_from_cutoff, BoundedGraph, GraphStorage, VecGraph};

#[test]
fn it_works() {}

/// A two-node-type spec: `A` produces one wire and `B` consumes one.
fn ab_spec() -> (GraphSpec, NodeTypeID, NodeTypeID) {
    let mut spec = GraphSpec::new();
    spec.checksum = 0x1234_5678_9abc_def0;
    let wire = spec.value_type("u32_wire");
    let a = spec.node_type("A", None, vec![], vec![], vec![wire]);
    let b = spec.node_type("B", None, vec![wire], vec![], vec![]);
    (spec, a, b)
}

#[test]
fn append_b_first_is_a_skip() {
    let (spec, a, b) = ab_spec();
    let prim = PrimitiveMutator::new();
    let mut dist = Distributions::new_seeded(Vec::new(), 7);

    // With no operand available, generating `B` first contributes nothing.
    let mut builder = GraphBuilder::new(spec.clone());
    let mut storage = VecGraph::empty();
    builder
        .append_random_node(b, &prim, &mut storage, &mut dist)
        .unwrap();
    assert_eq!(storage.op_len(), 0);

    // After `A` installs a wire, `B` can consume it.
    let mut builder = GraphBuilder::new(spec.clone());
    let mut storage = VecGraph::empty();
    builder
        .append_random_node(a, &prim, &mut storage, &mut dist)
        .unwrap();
    assert_eq!(storage.op_len(), 2);
    builder
        .append_random_node(b, &prim, &mut storage, &mut dist)
        .unwrap();
    assert_eq!(storage.op_len(), 4);
    assert_eq!(storage.node_len(&spec), 2);
}

fn three_node_graph(spec: &GraphSpec, a: NodeTypeID, b: NodeTypeID) -> VecGraph {
    let prim = PrimitiveMutator::new();
    let mut dist = Distributions::new_seeded(Vec::new(), 11);
    let mut builder = GraphBuilder::new(spec.clone());
    let mut storage = VecGraph::empty();
    builder
        .append_random_node(a, &prim, &mut storage, &mut dist)
        .unwrap();
    builder
        .append_random_node(a, &prim, &mut storage, &mut dist)
        .unwrap();
    builder
        .append_random_node(b, &prim, &mut storage, &mut dist)
        .unwrap();
    assert_eq!(storage.node_len(spec), 3);
    storage
}

#[test]
fn file_round_trip_three_nodes() {
    let (spec, a, b) = ab_spec();
    let g = three_node_graph(&spec, a, b);
    let bytes = serialize_graph(&g, spec.checksum);
    let back = parse_graph(&bytes, spec.checksum).unwrap();
    assert_eq!(back.ops, g.ops);
    assert_eq!(back.data, g.data);
    assert_eq!(back.node_len(&spec), 3);
}

#[test]
fn file_rejects_wrong_checksum() {
    let (spec, a, b) = ab_spec();
    let g = three_node_graph(&spec, a, b);
    let bytes = serialize_graph(&g, spec.checksum);
    assert!(matches!(
        parse_graph(&bytes, spec.checksum ^ 1),
        Err(GraphError::ChecksumMismatch)
    ));
}

#[test]
fn file_rejects_truncated_header() {
    let short = vec![0u8; 12];
    assert!(matches!(parse_graph(&short, 0), Err(GraphError::MalformedFile)));
}

#[test]
fn copy_from_cutoff_keeps_prefix_nodes() {
    let mut spec = GraphSpec::new();
    spec.checksum = 5;
    let wire = spec.value_type("w");
    let payload = spec.data_type("int3", specfuzz::spec::AtomicData::Int { size: 3 });
    let a = spec.node_type("A", Some(payload), vec![], vec![], vec![wire]);
    let prim = PrimitiveMutator::new();
    let mut dist = Distributions::new_seeded(Vec::new(), 3);
    let mut builder = GraphBuilder::new(spec.clone());
    let mut storage = VecGraph::empty();
    for _ in 0..5 {
        builder
            .append_random_node(a, &prim, &mut storage, &mut dist)
            .unwrap();
    }
    assert_eq!(storage.node_len(&spec), 5);
    let mut cut = VecGraph::empty();
    copy_from_cutoff(&mut cut, &storage, 2, &spec);
    assert_eq!(cut.node_len(&spec), 2);
    // Each node is two ops (tag + output) and three data bytes.
    assert_eq!(cut.ops.as_slice(), &storage.ops[..4]);
    assert_eq!(cut.data.as_slice(), &storage.data[..6]);
}

#[test]
fn queue_keeps_minimal_example_per_bit() {
    let (spec, a, b) = ab_spec();
    let mut queue = Queue::new(8);

    let reason = || {
        vec![StorageReason::Bitmap(BitmapStorageReason {
            index: 3,
            old: 0,
            new: 1,
        })]
    };
    let bitmap = || Bitmap::new_from_buffer(&[0, 0, 0, 1, 0, 0, 0, 0]);

    let g3 = three_node_graph(&spec, a, b);
    let first = Input::new(
        g3,
        MutationStrategy::Generate,
        reason(),
        bitmap(),
        ExitReason::Normal(0),
        3,
        0,
    );
    let id1 = queue.add(first, &spec).unwrap();
    assert_eq!(queue.bitmap_index_to_min_example.get(&3), Some(&id1));

    // A strictly smaller input takes the bit over.
    let prim = PrimitiveMutator::new();
    let mut dist = Distributions::new_seeded(Vec::new(), 17);
    let mut builder = GraphBuilder::new(spec.clone());
    let mut small = VecGraph::empty();
    builder
        .append_random_node(a, &prim, &mut small, &mut dist)
        .unwrap();
    let second = Input::new(
        small,
        MutationStrategy::Generate,
        reason(),
        bitmap(),
        ExitReason::Normal(0),
        1,
        0,
    );
    let id2 = queue.add(second, &spec).unwrap();
    assert_eq!(queue.bitmap_index_to_min_example.get(&3), Some(&id2));

    // An equally large or larger one does not.
    let g3b = three_node_graph(&spec, a, b);
    let third = Input::new(
        g3b,
        MutationStrategy::Generate,
        reason(),
        bitmap(),
        ExitReason::Normal(0),
        3,
        0,
    );
    queue.add(third, &spec).unwrap();
    assert_eq!(queue.bitmap_index_to_min_example.get(&3), Some(&id2));
}

#[test]
fn queue_rejects_empty_and_error_inputs() {
    let (spec, _a, _b) = ab_spec();
    let mut queue = Queue::new(8);
    let empty = Input::new(
        VecGraph::empty(),
        MutationStrategy::Generate,
        vec![],
        Bitmap::new(8),
        ExitReason::Normal(0),
        0,
        0,
    );
    assert!(queue.add(empty, &spec).is_none());
    assert_eq!(queue.len(), 0);
}

#[test]
fn mutate_forces_generate_on_empty_source() {
    let mut spec = GraphSpec::new();
    spec.checksum = 9;
    let wire = spec.value_type("w");
    let _a = spec.node_type("A", None, vec![], vec![], vec![wire]);
    let mut mutator = Mutator::new(spec);
    let mut dist = Distributions::new_seeded(Vec::new(), 23);
    let dict = CustomDict::new();
    let corpus: Vec<VecGraph> = vec![VecGraph::empty()];
    let snapshot = MutatorSnapshotState::none();
    let mut storage = VecGraph::empty();
    let orig = VecGraph::empty();
    let strategy = mutator.mutate(&orig, 0, &dict, &snapshot, &corpus, &mut storage, &mut dist);
    assert_eq!(strategy, MutationStrategy::Generate);
    assert!(storage.op_len() > 0);
}

#[test]
fn truncate_is_idempotent() {
    let (spec, a, b) = ab_spec();
    let mut g = three_node_graph(&spec, a, b);
    g.truncate_to(2, 0);
    let ops_once = g.ops.clone();
    let data_once = g.data.clone();
    g.truncate_to(2, 0);
    assert_eq!(g.ops, ops_once);
    assert_eq!(g.data, data_once);
}

#[test]
fn bounded_storage_respects_capacity() {
    let mut b = BoundedGraph::new(2, 4);
    assert_eq!(b.append_op(7), Some(()));
    assert_eq!(b.append_op(8), Some(()));
    assert_eq!(b.append_op(9), None);
    assert_eq!(b.op_len(), 2);
    assert_eq!(b.append_data(&[1, 2, 3]), Some(()));
    assert_eq!(b.append_data(&[4, 5]), None);
    assert_eq!(b.data_len(), 3);
    b.truncate_to(1, 1);
    assert_eq!(b.op_len(), 1);
    assert_eq!(b.data_len(), 1);
    assert_eq!(b.ops_as_slice(), &[7]);
    assert_eq!(b.data_as_slice(), &[1]);
}

#[test]
fn bounded_can_append_never_lies() {
    let (spec, a, _b) = ab_spec();
    let prim = PrimitiveMutator::new();
    let mut dist = Distributions::new_seeded(Vec::new(), 31);
    let mut builder = GraphBuilder::new(spec.clone());
    let mut source = VecGraph::empty();
    builder
        .append_random_node(a, &prim, &mut source, &mut dist)
        .unwrap();
    let nodes = source.nodes(&spec).unwrap();
    let node = &nodes[0];

    let mut roomy = BoundedGraph::new(8, 8);
    let mut tight = BoundedGraph::new(1, 0);
    let mut builder2 = GraphBuilder::new(spec.clone());
    assert!(builder2.can_append_node(node, &roomy));
    assert!(builder2.append_node(node, &mut roomy, &mut dist));
    let mut builder3 = GraphBuilder::new(spec);
    assert!(!builder3.can_append_node(node, &tight));
    assert!(!builder3.append_node(node, &mut tight, &mut dist));
    assert_eq!(tight.op_len(), 0);
}

#[test]
fn stability_needs_exactly_the_threshold() {
    let mut tracker = StabilityTracker::new();
    let mut attempts = 0;
    let mut stable = false;
    while tracker.attempts_left() && !stable {
        stable = tracker.observe(0xfeed);
        attempts += 1;
    }
    assert!(stable);
    assert_eq!(attempts, MIN_STABLE_RUNS);

    // A digest that keeps changing never stabilizes within the budget.
    let mut tracker = StabilityTracker::new();
    let mut stable = false;
    let mut n: u64 = 0;
    while tracker.attempts_left() && !stable {
        stable = tracker.observe(n);
        n += 1;
    }
    assert!(!stable);
    assert_eq!(n as usize, MAX_ATTEMPTS);
}

#[test]
fn unknown_node_type_is_an_error() {
    let (spec, _a, _b) = ab_spec();
    let prim = PrimitiveMutator::new();
    let mut dist = Distributions::new_seeded(Vec::new(), 41);
    let mut builder = GraphBuilder::new(spec);
    let mut storage = VecGraph::empty();
    let bogus = NodeTypeID::new(99);
    assert_eq!(
        builder.append_random_node(bogus, &prim, &mut storage, &mut dist),
        Err(GraphError::UnknownNodeType(bogus))
    );
}

#[test]
fn no_constructible_type_is_invalid_specs() {
    // A spec whose only node type needs an input no one produces.
    let mut spec = GraphSpec::new();
    let wire = spec.value_type("w");
    let _b = spec.node_type("B", None, vec![wire], vec![], vec![]);
    let prim = PrimitiveMutator::new();
    let mut dist = Distributions::new_seeded(Vec::new(), 43);
    let mut builder = GraphBuilder::new(spec);
    let mut storage = VecGraph::empty();
    assert_eq!(
        builder.append_random(4, &prim, &mut storage, &mut dist),
        Err(GraphError::InvalidSpecs)
    );
}

#[test]
fn le64_round_trips_through_the_header() {
    let g = VecGraph::new(vec![0xabcd, 0x0102], vec![9, 8, 7]);
    let bytes = serialize_graph(&g, 0x1122_3344_5566_7788);
    let back = parse_graph(&bytes, 0x1122_3344_5566_7788).unwrap();
    assert_eq!(back.ops, vec![0xabcd, 0x0102]);
    assert_eq!(back.data, vec![9, 8, 7]);
}

#[test]
fn loader_builds_a_spec_in_order() {
    let loader = SpecLoader {
        checksum: 77,
        atomics: vec![
            AtomLoader::Int {
                name: "byte4".to_string(),
                size: 4,
            },
            AtomLoader::Vec {
                name: "blob".to_string(),
                size_min: 0,
                size_max: 16,
                dtype: 0,
            },
        ],
        edges: vec![EdgeLoader {
            name: "w".to_string(),
        }],
        nodes: vec![NodeLoader {
            name: "A".to_string(),
            atom_id: Some(0),
            inputs: vec![],
            borrows: vec![],
            outputs: vec![0],
            is_interactive: true,
        }],
    };
    let spec = loader.to_graph_spec().unwrap();
    assert_eq!(spec.checksum, 77);
    assert_eq!(spec.node_specs.len(), 1);
    assert_eq!(spec.value_specs.len(), 1);
    assert_eq!(spec.data_specs.len(), 2);
}

#[test]
fn loader_rejects_bad_value_reference() {
    let loader = SpecLoader {
        checksum: 1,
        atomics: vec![],
        edges: vec![EdgeLoader {
            name: "w".to_string(),
        }],
        nodes: vec![NodeLoader {
            name: "A".to_string(),
            atom_id: None,
            inputs: vec![5],
            borrows: vec![],
            outputs: vec![],
            is_interactive: true,
        }],
    };
    assert!(loader.to_graph_spec().is_err());
}

#[test]
fn snapshot_prefix_survives_every_strategy() {
    // Replaying under a cut keeps the streams up to the cut byte-identical.
    let mut spec = GraphSpec::new();
    spec.checksum = 13;
    let wire = spec.value_type("w");
    let payload = spec.data_type("int2", specfuzz::spec::AtomicData::Int { size: 2 });
    let _a = spec.node_type("A", Some(payload), vec![], vec![], vec![wire]);
    let _marker = spec.node_type("create_tmp_snapshot", None, vec![], vec![], vec![]);
    let mut mutator = Mutator::new(spec.clone());
    let prim = PrimitiveMutator::new();
    let mut dist = Distributions::new_seeded(Vec::new(), 53);
    let mut builder = GraphBuilder::new(spec.clone());
    let mut source = VecGraph::empty();
    for _ in 0..4 {
        builder
            .append_random_node(_a, &prim, &mut source, &mut dist)
            .unwrap();
    }
    let mut storage = VecGraph::empty();
    let snapshot = mutator.prepare_snapshot(2, &source, &mut storage, &mut dist);
    assert_eq!(snapshot.skip_nodes, 2);
    let prefix_ops: Vec<u16> = storage.ops[..snapshot.skip_ops].to_vec();
    let prefix_data: Vec<u8> = storage.data[..snapshot.skip_data].to_vec();
    let dict = CustomDict::new();
    let corpus: Vec<VecGraph> = vec![source.clone()];
    for round in 0..8u64 {
        let mut dist2 = Distributions::new_seeded(Vec::new(), 1000 + round);
        mutator.mutate(
            &source,
            4,
            &dict,
            &snapshot,
            &corpus,
            &mut storage,
            &mut dist2,
        );
        assert_eq!(&storage.ops[..snapshot.skip_ops], prefix_ops.as_slice());
        assert_eq!(&storage.data[..snapshot.skip_data], prefix_data.as_slice());
    }
}

#[test]
fn a_consumed_operand_cannot_be_consumed_again() {
    // One producer, two consumers: the second `B` finds no operand left.
    let (spec, a, b) = ab_spec();
    let prim = PrimitiveMutator::new();
    let mut dist = Distributions::new_seeded(Vec::new(), 61);
    let mut builder = GraphBuilder::new(spec.clone());
    let mut storage = VecGraph::empty();
    builder
        .append_random_node(a, &prim, &mut storage, &mut dist)
        .unwrap();
    builder
        .append_random_node(b, &prim, &mut storage, &mut dist)
        .unwrap();
    assert_eq!(storage.op_len(), 4);
    builder
        .append_random_node(b, &prim, &mut storage, &mut dist)
        .unwrap();
    assert_eq!(storage.op_len(), 4);
    assert_eq!(storage.node_len(&spec), 2);
}

#[test]
fn dedup_indices_follow_the_digest() {
    let mut table = LocalHashmap::new();
    let first = table.handle_run_bitmap(&[0, 0, 1, 0]);
    let second = table.handle_run_bitmap(&[0, 1, 0, 0]);
    let again = table.handle_run_bitmap(&[0, 0, 1, 0]);
    assert_eq!(first, 0);
    assert_eq!(second, 1);
    assert_eq!(again, first);
    // The coverage-only table collapses hit counts to presence.
    let c1 = table.handle_cov_bitmap(&[0, 0, 7, 0]);
    let c2 = table.handle_cov_bitmap(&[0, 0, 200, 0]);
    assert_eq!(c1, c2);
}

#[test]
fn loader_rejects_bad_data_reference() {
    let loader = SpecLoader {
        checksum: 2,
        atomics: vec![AtomLoader::Vec {
            name: "blob".to_string(),
            size_min: 0,
            size_max: 4,
            dtype: 7,
        }],
        edges: vec![],
        nodes: vec![],
    };
    assert!(matches!(
        loader.to_graph_spec(),
        Err(GraphError::UnknownDataType(_))
    ));
}
