//! The immutable description of a graph's node, value and data types.
//!
//! A `GraphSpec` is built once (by registering data types, then value types,
//! then node types) and is afterwards only read.  Graphs are meaningful only
//! relative to the spec they were built against, identified by `checksum`.

use vstd::prelude::*;

use crate::newtypes::{AtomicTypeID, GraphError, NodeTypeID, ValueTypeID};

verus! {

/// Name of the reserved node type that anchors an incremental VM snapshot.
/// It is the only node type that the random generator never emits.
pub open spec fn snapshot_marker_name() -> Seq<char> {
    "create_tmp_snapshot"@
}

/// A data ("atomic") type: the shape of one node's raw byte payload.
#[derive(Clone, Copy, Debug, PartialEq, Eq, Structural)]
pub enum AtomicData {
    /// A fixed-width integer of `size` bytes.
    Int { size: usize },
    /// A variable-length vector of `min..=max` elements of `elem_size` bytes
    /// each; its byte span carries a two-byte little-endian length prefix.
    Bytes { min: usize, max: usize, elem_size: usize },
    /// A struct of sub-fields with a fixed total byte size.
    Struct { size: usize },
}

impl AtomicData {
    /// A payload shape is sane when its sizes are small enough that every
    /// span length fits a `u16` length prefix.
    pub open spec fn wf(&self) -> bool {
        match *self {
            AtomicData::Int { size } => 0 < size <= 0xffff,
            AtomicData::Bytes { min, max, elem_size } => 0 < elem_size && min <= max && max
                * elem_size <= 0xffff,
            AtomicData::Struct { size } => 0 < size <= 0xffff,
        }
    }

    /// Whether every value of this type occupies the same number of bytes.
    pub open spec fn is_fixed(&self) -> bool {
        !(self is Bytes)
    }

    /// The smallest byte span a value of this type can occupy.
    pub open spec fn spec_min_data_size(&self) -> nat {
        match *self {
            AtomicData::Int { size } => size as nat,
            AtomicData::Bytes { min, elem_size, .. } => (2 + min * elem_size) as nat,
            AtomicData::Struct { size } => size as nat,
        }
    }

    /// The smallest byte span a value of this type can occupy.
    pub fn min_data_size(&self) -> (r: usize)
        requires
            self.wf(),
        ensures
            r == self.spec_min_data_size(),
    {
        proof {
            self.lemma_min_data_size_bound();
        }
        match *self {
            AtomicData::Int { size } => size,
            AtomicData::Bytes { min, elem_size, .. } => 2 + min * elem_size,
            AtomicData::Struct { size } => size,
        }
    }

    /// The smallest footprint of a sane payload shape fits the format's
    /// two-byte length prefix plus payload.
    pub proof fn lemma_min_data_size_bound(&self)
        requires
            self.wf(),
        ensures
            self.spec_min_data_size() <= 0xffff + 2,
    {
        if let AtomicData::Bytes { min, max, elem_size } = *self {
            assert(min * elem_size <= max * elem_size) by (nonlinear_arith)
                requires
                    min <= max,
                    elem_size >= 0,
            ;
        }
    }

    /// The length of the byte span that a value of this type occupies at the
    /// front of `data`, or `None` when `data` is too short to hold one.
    /// Variable-length values store their payload length in a two-byte
    /// little-endian prefix.
    pub open spec fn span_len(&self, data: Seq<u8>) -> Option<nat> {
        match *self {
            AtomicData::Int { size } => if data.len() >= size {
                Some(size as nat)
            } else {
                None
            },
            AtomicData::Bytes { .. } => if data.len() >= 2 {
                let payload = crate::bytes::le16_val(data[0], data[1]) as nat;
                if data.len() >= 2 + payload {
                    Some((2 + payload) as nat)
                } else {
                    None
                }
            } else {
                None
            },
            AtomicData::Struct { size } => if data.len() >= size {
                Some(size as nat)
            } else {
                None
            },
        }
    }
}

/// A named value ("wire") type.
#[derive(Clone, Debug)]
pub struct ValueSpec {
    pub id: ValueTypeID,
    pub name: String,
}

impl ValueSpec {
    pub fn new(name: &str, id: ValueTypeID) -> (r: Self)
        ensures
            r.id == id,
            r.name@ == name@,
    {
        ValueSpec { id, name: name.to_owned() }
    }
}

/// A named data type.
#[derive(Clone, Debug)]
pub struct AtomicSpec {
    pub name: String,
    pub id: AtomicTypeID,
    pub atomic_type: AtomicData,
}

impl AtomicSpec {
    pub fn new(name: &str, id: AtomicTypeID, atomic_type: AtomicData) -> (r: Self)
        ensures
            r.id == id,
            r.name@ == name@,
            r.atomic_type == atomic_type,
    {
        AtomicSpec { name: name.to_owned(), id, atomic_type }
    }
}

/// How many operands of type `t` appear in `s`.
pub open spec fn count_vt(s: Seq<ValueTypeID>, t: ValueTypeID) -> nat
    decreases s.len(),
{
    if s.len() == 0 {
        0
    } else {
        count_vt(s.drop_last(), t) + if s.last() == t {
            1nat
        } else {
            0nat
        }
    }
}

/// The number of available operands of type `t` that a node consuming
/// `inputs` and reading `passthroughs` needs before it can be appended: one
/// per consumed input, plus one shared by all passthrough reads.
pub open spec fn required_count(
    inputs: Seq<ValueTypeID>,
    passthroughs: Seq<ValueTypeID>,
    t: ValueTypeID,
) -> nat {
    count_vt(inputs, t) + if passthroughs.contains(t) {
        1nat
    } else {
        0nat
    }
}

/// Extending a prefix by one element raises the count of exactly that
/// element's type.
pub proof fn lemma_count_vt_take_step(s: Seq<ValueTypeID>, i: int)
    requires
        0 <= i < s.len(),
    ensures
        forall|t: ValueTypeID|
            count_vt(s.take(i + 1), t) == count_vt(s.take(i), t) + if s[i] == t {
                1nat
            } else {
                0nat
            },
{
    assert(s.take(i + 1).drop_last() =~= s.take(i));
    assert(s.take(i + 1).last() == s[i]);
}

/// Extending a prefix by one element makes it contain exactly the types it
/// contained before plus that element's type.
pub proof fn lemma_take_contains(s: Seq<ValueTypeID>, i: int)
    requires
        0 <= i < s.len(),
    ensures
        forall|t: ValueTypeID| #[trigger]
            s.take(i + 1).contains(t) <==> (s.take(i).contains(t) || s[i] == t),
{
    assert forall|t: ValueTypeID| #[trigger]
        s.take(i + 1).contains(t) implies (s.take(i).contains(t) || s[i] == t) by {
        let k = choose|k: int| 0 <= k < s.take(i + 1).len() && #[trigger] s.take(i + 1)[k] == t;
        if k < i {
            assert(s.take(i)[k] == t);
        }
    }
    assert forall|t: ValueTypeID| (s.take(i).contains(t) || s[i] == t) implies #[trigger]
        s.take(i + 1).contains(t) by {
        if s.take(i).contains(t) {
            let k = choose|k: int| 0 <= k < s.take(i).len() && #[trigger] s.take(i)[k] == t;
            assert(s.take(i + 1)[k] == t);
        } else {
            assert(s.take(i + 1)[i] == t);
        }
    }
}

/// The value of key `t` in an association list, or zero.
pub open spec fn assoc_count(entries: Seq<(ValueTypeID, usize)>, t: ValueTypeID) -> nat
    decreases entries.len(),
{
    if entries.len() == 0 {
        0
    } else if entries.last().0 == t {
        entries.last().1 as nat
    } else {
        assoc_count(entries.drop_last(), t)
    }
}

/// With pairwise-distinct keys, a key that appears nowhere counts zero.
pub proof fn lemma_assoc_absent(entries: Seq<(ValueTypeID, usize)>, t: ValueTypeID)
    requires
        forall|j: int| 0 <= j < entries.len() ==> (#[trigger] entries[j]).0 != t,
    ensures
        assoc_count(entries, t) == 0,
    decreases entries.len(),
{
    if entries.len() > 0 {
        lemma_assoc_absent(entries.drop_last(), t);
    }
}

/// With pairwise-distinct keys, the count of a present key is its entry.
pub proof fn lemma_assoc_present(entries: Seq<(ValueTypeID, usize)>, i: int)
    requires
        0 <= i < entries.len(),
        forall|j: int, k: int|
            0 <= j < k < entries.len() ==> (#[trigger] entries[j]).0 != (#[trigger] entries[k]).0,
    ensures
        assoc_count(entries, entries[i].0) == entries[i].1,
    decreases entries.len(),
{
    if i < entries.len() - 1 {
        assert(entries.last().0 != entries[i].0);
        assert(entries.drop_last()[i] == entries[i]);
        lemma_assoc_present(entries.drop_last(), i);
    }
}

/// Overwriting entry `i` changes only the count of its key.
pub proof fn lemma_assoc_update(entries: Seq<(ValueTypeID, usize)>, i: int, c: usize)
    requires
        0 <= i < entries.len(),
        forall|j: int, k: int|
            0 <= j < k < entries.len() ==> (#[trigger] entries[j]).0 != (#[trigger] entries[k]).0,
    ensures
        assoc_count(entries.update(i, (entries[i].0, c)), entries[i].0) == c,
        forall|t: ValueTypeID|
            t != entries[i].0 ==> assoc_count(entries.update(i, (entries[i].0, c)), t)
                == assoc_count(entries, t),
    decreases entries.len(),
{
    let u = entries.update(i, (entries[i].0, c));
    if i == entries.len() - 1 {
        assert(u.last() == (entries[i].0, c));
        assert(u.drop_last() =~= entries.drop_last());
        assert forall|t: ValueTypeID| t != entries[i].0 implies assoc_count(u, t) == assoc_count(
            entries,
            t,
        ) by {
            assert(assoc_count(u, t) == assoc_count(u.drop_last(), t));
            assert(assoc_count(entries, t) == assoc_count(entries.drop_last(), t));
        }
    } else {
        assert(u.last() == entries.last());
        assert(u.drop_last() =~= entries.drop_last().update(i, (entries[i].0, c)));
        assert(entries.drop_last()[i] == entries[i]);
        lemma_assoc_update(entries.drop_last(), i, c);
        assert forall|t: ValueTypeID| t != entries[i].0 implies assoc_count(u, t) == assoc_count(
            entries,
            t,
        ) by {
            if u.last().0 != t {
                assert(assoc_count(u, t) == assoc_count(u.drop_last(), t));
                assert(assoc_count(entries, t) == assoc_count(entries.drop_last(), t));
            }
        }
    }
}

/// Linear scan for a key in an association list.
fn assoc_index(entries: &Vec<(ValueTypeID, usize)>, t: ValueTypeID) -> (r: Option<usize>)
    ensures
        match r {
            Some(i) => i < entries@.len() && entries@[i as int].0 == t,
            None => forall|j: int| 0 <= j < entries@.len() ==> (#[trigger] entries@[j]).0 != t,
        },
{
    let mut i: usize = 0;
    while i < entries.len()
        invariant
            i <= entries@.len(),
            forall|j: int| 0 <= j < i ==> (#[trigger] entries@[j]).0 != t,
        decreases entries@.len() - i,
    {
        if entries[i].0 == t {
            return Some(i);
        }
        i = i + 1;
    }
    None
}

/// Linear membership scan.
fn contains_vt(v: &Vec<ValueTypeID>, t: ValueTypeID) -> (r: bool)
    ensures
        r == v@.contains(t),
{
    let mut i: usize = 0;
    while i < v.len()
        invariant
            i <= v@.len(),
            forall|j: int| 0 <= j < i ==> (#[trigger] v@[j]) != t,
        decreases v@.len() - i,
    {
        if v[i] == t {
            return true;
        }
        i = i + 1;
    }
    false
}

/// A count never exceeds the sequence's length.
pub proof fn lemma_count_vt_le_len(s: Seq<ValueTypeID>, t: ValueTypeID)
    ensures
        count_vt(s, t) <= s.len(),
    decreases s.len(),
{
    if s.len() > 0 {
        lemma_count_vt_le_len(s.drop_last(), t);
    }
}

/// A type that does not occur counts zero.
pub proof fn lemma_count_vt_absent(s: Seq<ValueTypeID>, t: ValueTypeID)
    requires
        !s.contains(t),
    ensures
        count_vt(s, t) == 0,
    decreases s.len(),
{
    if s.len() > 0 {
        assert(s.last() != t);
        assert(!s.drop_last().contains(t)) by {
            if s.drop_last().contains(t) {
                let k = choose|k: int| 0 <= k < s.drop_last().len() && #[trigger] s.drop_last()[k] == t;
                assert(s[k] == t);
            }
        }
        lemma_count_vt_absent(s.drop_last(), t);
    }
}

/// Count how often `t` occurs in `v`.
fn count_matching(v: &Vec<ValueTypeID>, t: ValueTypeID) -> (r: usize)
    ensures
        r == count_vt(v@, t),
{
    let mut i: usize = 0;
    let mut count: usize = 0;
    while i < v.len()
        invariant
            i <= v@.len(),
            count == count_vt(v@.take(i as int), t),
            count <= i,
        decreases v@.len() - i,
    {
        proof {
            lemma_count_vt_take_step(v@, i as int);
        }
        if v[i] == t {
            count = count + 1;
        }
        i = i + 1;
    }
    proof {
        assert(v@.take(v@.len() as int) =~= v@);
    }
    count
}

/// Whether `name` is the reserved snapshot-marker name.
pub fn str_eq_marker(name: &str) -> (r: bool)
    ensures
        r == (name@ == snapshot_marker_name()),
{
    let n: String = name.to_owned();
    let m: String = "create_tmp_snapshot".to_owned();
    n == m
}

/// One node type: its operand signature and optional data type.
#[derive(Clone, Debug)]
pub struct NodeSpec {
    pub name: String,
    pub id: NodeTypeID,
    pub inputs: Vec<ValueTypeID>,
    pub outputs: Vec<ValueTypeID>,
    pub passthroughs: Vec<ValueTypeID>,
    /// Per value type, how many available operands the node requires;
    /// derived from `inputs` and `passthroughs` at registration.
    pub required_values: Vec<(ValueTypeID, usize)>,
    pub data: Option<AtomicTypeID>,
    pub generatable: bool,
}

impl NodeSpec {
    /// The derived requirement table is faithful to the signature: distinct
    /// keys, one entry per mentioned type, counts as `required_count`.
    pub open spec fn required_values_wf(&self) -> bool {
        &&& forall|i: int, j: int|
            0 <= i < j < self.required_values@.len() ==> self.required_values@[i].0
                != self.required_values@[j].0
        &&& forall|t: ValueTypeID|
            assoc_count(self.required_values@, t) == required_count(
                self.inputs@,
                self.passthroughs@,
                t,
            )
    }

    /// Number of operand slots (excluding the node tag itself).
    pub open spec fn spec_size(&self) -> nat {
        self.inputs@.len() + self.passthroughs@.len() + self.outputs@.len()
    }

    /// Number of operand slots (excluding the node tag itself).
    pub fn size(&self) -> (r: usize)
        requires
            self.spec_size() < 0xffff,
        ensures
            r == self.spec_size(),
    {
        self.inputs.len() + self.passthroughs.len() + self.outputs.len()
    }
}

/// The immutable spec a graph is interpreted against.
#[derive(Clone, Debug)]
pub struct GraphSpec {
    /// Version tag; a serialized graph is only trusted when its stored
    /// checksum equals this one.
    pub checksum: u64,
    pub node_specs: Vec<NodeSpec>,
    pub value_specs: Vec<ValueSpec>,
    pub data_specs: Vec<AtomicSpec>,
    /// The reserved snapshot-marker node type, if registered.
    pub snapshot_node_id: Option<NodeTypeID>,
    /// Largest single-node data footprint over all registered data types.
    pub max_data: usize,
    /// Largest single-node op footprint over all registered node types.
    pub max_ops: usize,
}

impl GraphSpec {
    /// Internal consistency: ids are positions, operand references stay in
    /// range, requirement tables are faithful, and the derived maxima bound
    /// every registered type.
    pub open spec fn wf(&self) -> bool {
        &&& self.node_specs@.len() <= 0xffff
        &&& self.value_specs@.len() <= 0xffff
        &&& forall|i: int|
            0 <= i < self.node_specs@.len() ==> (#[trigger] self.node_specs@[i]).id.0 == i
        &&& forall|i: int|
            0 <= i < self.value_specs@.len() ==> (#[trigger] self.value_specs@[i]).id.0 == i
        &&& forall|i: int|
            0 <= i < self.data_specs@.len() ==> (#[trigger] self.data_specs@[i]).id.0 == i
        &&& forall|i: int|
            0 <= i < self.data_specs@.len() ==> (#[trigger] self.data_specs@[i]).atomic_type.wf()
        &&& forall|i: int|
            0 <= i < self.node_specs@.len() ==> (#[trigger] self.node_specs@[i]).spec_size() + 1
                <= 0xffff
        &&& forall|i: int|
            0 <= i < self.node_specs@.len() ==> (#[trigger] self.node_specs@[i]).spec_size() + 1
                <= self.max_ops
        &&& forall|i: int|
            0 <= i < self.node_specs@.len() ==> (#[trigger] self.node_specs@[i]).required_values_wf()
        &&& forall|i: int|
            0 <= i < self.node_specs@.len() ==> match (#[trigger] self.node_specs@[i]).data {
                Some(d) => d.0 < self.data_specs@.len(),
                None => true,
            }
        &&& forall|i: int|
            0 <= i < self.data_specs@.len() ==> (
            #[trigger] self.data_specs@[i]).atomic_type.spec_min_data_size() <= self.max_data
        &&& self.max_data <= 0xffff + 2
        &&& match self.snapshot_node_id {
            Some(n) => n.0 < self.node_specs@.len() && self.node_specs@[n.0 as int].spec_size() == 0
                && self.node_specs@[n.0 as int].data is None,
            None => true,
        }
    }

    /// An empty spec with checksum zero.
    pub fn new() -> (r: Self)
        ensures
            r.wf(),
            r.checksum == 0,
            r.node_specs@.len() == 0,
            r.value_specs@.len() == 0,
            r.data_specs@.len() == 0,
            r.snapshot_node_id is None,
            r.max_data == 0,
            r.max_ops == 0,
    {
        GraphSpec {
            checksum: 0,
            node_specs: Vec::new(),
            value_specs: Vec::new(),
            data_specs: Vec::new(),
            snapshot_node_id: None,
            max_data: 0,
            max_ops: 0,
        }
    }

    /// The largest single-node data footprint.
    pub fn biggest_data(&self) -> (r: usize)
        ensures
            r == self.max_data,
    {
        self.max_data
    }

    /// The largest single-node op footprint.
    pub fn biggest_ops(&self) -> (r: usize)
        ensures
            r == self.max_ops,
    {
        self.max_ops
    }

    /// Look up a node type; fails exactly on out-of-range ids.
    pub fn get_node(&self, n: NodeTypeID) -> (r: Result<&NodeSpec, GraphError>)
        ensures
            n.0 < self.node_specs@.len() ==> r == Result::<&NodeSpec, GraphError>::Ok(
                &self.node_specs@[n.0 as int],
            ),
            n.0 >= self.node_specs@.len() ==> r == Result::<&NodeSpec, GraphError>::Err(
                GraphError::UnknownNodeType(n),
            ),
    {
        if (n.0 as usize) < self.node_specs.len() {
            Ok(&self.node_specs[n.0 as usize])
        } else {
            Err(GraphError::UnknownNodeType(n))
        }
    }

    /// Look up a value type; fails exactly on out-of-range ids.
    pub fn get_value(&self, v: ValueTypeID) -> (r: Result<&ValueSpec, GraphError>)
        ensures
            v.0 < self.value_specs@.len() ==> r == Result::<&ValueSpec, GraphError>::Ok(
                &self.value_specs@[v.0 as int],
            ),
            v.0 >= self.value_specs@.len() ==> r == Result::<&ValueSpec, GraphError>::Err(
                GraphError::UnknownValueType(v),
            ),
    {
        if (v.0 as usize) < self.value_specs.len() {
            Ok(&self.value_specs[v.0 as usize])
        } else {
            Err(GraphError::UnknownValueType(v))
        }
    }

    /// Look up a data type; fails exactly on out-of-range ids.
    pub fn get_data(&self, v: AtomicTypeID) -> (r: Result<&AtomicSpec, GraphError>)
        ensures
            v.0 < self.data_specs@.len() ==> r == Result::<&AtomicSpec, GraphError>::Ok(
                &self.data_specs@[v.0 as int],
            ),
            v.0 >= self.data_specs@.len() ==> r == Result::<&AtomicSpec, GraphError>::Err(
                GraphError::UnknownDataType(v),
            ),
    {
        if v.0 < self.data_specs.len() {
            Ok(&self.data_specs[v.0])
        } else {
            Err(GraphError::UnknownDataType(v))
        }
    }

    /// The operand-slot count of node type `n`.
    pub fn get_node_size(&self, n: NodeTypeID) -> (r: Result<usize, GraphError>)
        requires
            self.wf(),
        ensures
            n.0 < self.node_specs@.len() ==> r == Result::<usize, GraphError>::Ok(
                self.node_specs@[n.0 as int].spec_size() as usize,
            ),
            n.0 >= self.node_specs@.len() ==> r == Result::<usize, GraphError>::Err(
                GraphError::UnknownNodeType(n),
            ),
    {
        match self.get_node(n) {
            Ok(spec) => Ok(spec.size()),
            Err(e) => Err(e),
        }
    }

    /// Register a new value type; its id is its position.
    pub fn value_type(&mut self, name: &str) -> (r: ValueTypeID)
        requires
            old(self).wf(),
            old(self).value_specs@.len() < 0xffff,
        ensures
            final(self).wf(),
            r.0 == old(self).value_specs@.len(),
            final(self).value_specs@.len() == old(self).value_specs@.len() + 1,
            final(self).value_specs@[r.0 as int].name@ == name@,
            final(self).node_specs == old(self).node_specs,
            final(self).data_specs == old(self).data_specs,
            final(self).checksum == old(self).checksum,
            final(self).snapshot_node_id == old(self).snapshot_node_id,
            final(self).max_data == old(self).max_data,
            final(self).max_ops == old(self).max_ops,
    {
        let new_id = ValueTypeID::new(self.value_specs.len() as u16);
        self.value_specs.push(ValueSpec::new(name, new_id));
        new_id
    }

    /// Register a new data type; its id is its position.  Grows `max_data`
    /// when this type's smallest footprint exceeds it.
    pub fn data_type(&mut self, name: &str, atom: AtomicData) -> (r: AtomicTypeID)
        requires
            old(self).wf(),
            atom.wf(),
        ensures
            final(self).wf(),
            r.0 == old(self).data_specs@.len(),
            final(self).data_specs@.len() == old(self).data_specs@.len() + 1,
            final(self).data_specs@[r.0 as int].name@ == name@,
            final(self).data_specs@[r.0 as int].atomic_type == atom,
            forall|j: int|
                0 <= j < old(self).data_specs@.len() ==> final(self).data_specs@[j] == old(self).data_specs@[j],
            final(self).max_data == if atom.spec_min_data_size() > old(self).max_data {
                atom.spec_min_data_size() as usize
            } else {
                old(self).max_data
            },
            final(self).node_specs == old(self).node_specs,
            final(self).value_specs == old(self).value_specs,
            final(self).checksum == old(self).checksum,
            final(self).snapshot_node_id == old(self).snapshot_node_id,
            final(self).max_ops == old(self).max_ops,
    {
        proof {
            atom.lemma_min_data_size_bound();
        }
        let new_id = AtomicTypeID::new(self.data_specs.len());
        let min = atom.min_data_size();
        if self.max_data < min {
            self.max_data = min;
        }
        self.data_specs.push(AtomicSpec::new(name, new_id, atom));
        new_id
    }

    /// Register a new node type; its id is its position.  Grows `max_ops`
    /// when this node's op footprint exceeds it.  The reserved
    /// snapshot-marker name registers the (sole) non-generatable node type
    /// and records its id.
    #[verifier::loop_isolation(false)]
    pub fn node_type(
        &mut self,
        name: &str,
        data: Option<AtomicTypeID>,
        inputs: Vec<ValueTypeID>,
        passthrough: Vec<ValueTypeID>,
        outputs: Vec<ValueTypeID>,
    ) -> (r: NodeTypeID)
        requires
            old(self).wf(),
            old(self).node_specs@.len() < 0xffff,
            inputs@.len() + passthrough@.len() + outputs@.len() + 1 <= 0xffff,
            data matches Some(d) ==> d.0 < old(self).data_specs@.len(),
            name@ == snapshot_marker_name() ==> inputs@.len() == 0 && passthrough@.len() == 0
                && outputs@.len() == 0 && data is None,
        ensures
            final(self).wf(),
            r.0 == old(self).node_specs@.len(),
            final(self).node_specs@.len() == old(self).node_specs@.len() + 1,
            final(self).node_specs@[r.0 as int].name@ == name@,
            final(self).node_specs@[r.0 as int].id == r,
            final(self).node_specs@[r.0 as int].inputs@ == inputs@,
            final(self).node_specs@[r.0 as int].passthroughs@ == passthrough@,
            final(self).node_specs@[r.0 as int].outputs@ == outputs@,
            final(self).node_specs@[r.0 as int].data == data,
            final(self).node_specs@[r.0 as int].generatable == (name@ != snapshot_marker_name()),
            final(self).snapshot_node_id == if name@ == snapshot_marker_name() {
                Some(r)
            } else {
                old(self).snapshot_node_id
            },
            final(self).max_ops == if old(self).max_ops < inputs@.len() + passthrough@.len()
                + outputs@.len() + 1 {
                (inputs@.len() + passthrough@.len() + outputs@.len() + 1) as usize
            } else {
                old(self).max_ops
            },
            final(self).value_specs == old(self).value_specs,
            final(self).data_specs == old(self).data_specs,
            final(self).checksum == old(self).checksum,
            final(self).max_data == old(self).max_data,
    {
        let new_id = NodeTypeID::new(self.node_specs.len() as u16);
        let ops_len = inputs.len() + passthrough.len() + outputs.len() + 1;
        if self.max_ops < ops_len {
            self.max_ops = ops_len;
        }
        let mut keys: Vec<ValueTypeID> = Vec::new();
        let mut i: usize = 0;
        while i < passthrough.len()
            invariant
                forall|j: int, k: int|
                    0 <= j < k < keys@.len() ==> (#[trigger] keys@[j]) != (#[trigger] keys@[k]),
                forall|t: ValueTypeID| #[trigger]
                    keys@.contains(t) <==> passthrough@.take(i as int).contains(t),
                i <= passthrough@.len(),
            decreases passthrough@.len() - i,
        {
            let t = passthrough[i];
            proof {
                lemma_take_contains(passthrough@, i as int);
            }
            if !contains_vt(&keys, t) {
                let ghost pre = keys@;
                keys.push(t);
                proof {
                    assert forall|u: ValueTypeID| #[trigger] keys@.contains(u) <==> (pre.contains(u)
                        || u == t) by {
                        if keys@.contains(u) {
                            let k = choose|k: int|
                                0 <= k < keys@.len() && #[trigger] keys@[k] == u;
                            if k < pre.len() {
                                assert(pre[k] == u);
                            }
                        }
                        if pre.contains(u) {
                            let k = choose|k: int| 0 <= k < pre.len() && #[trigger] pre[k] == u;
                            assert(keys@[k] == u);
                        }
                        if u == t {
                            assert(keys@[keys@.len() - 1] == u);
                        }
                    }
                }
            }
            i = i + 1;
        }
        proof {
            assert(passthrough@.take(passthrough@.len() as int) =~= passthrough@);
        }
        let mut i: usize = 0;
        while i < inputs.len()
            invariant
                forall|j: int, k: int|
                    0 <= j < k < keys@.len() ==> (#[trigger] keys@[j]) != (#[trigger] keys@[k]),
                forall|t: ValueTypeID| #[trigger]
                    keys@.contains(t) <==> (passthrough@.contains(t) || inputs@.take(
                        i as int,
                    ).contains(t)),
                i <= inputs@.len(),
            decreases inputs@.len() - i,
        {
            let t = inputs[i];
            proof {
                lemma_take_contains(inputs@, i as int);
            }
            if !contains_vt(&keys, t) {
                let ghost pre = keys@;
                keys.push(t);
                proof {
                    assert forall|u: ValueTypeID| #[trigger] keys@.contains(u) <==> (pre.contains(u)
                        || u == t) by {
                        if keys@.contains(u) {
                            let k = choose|k: int|
                                0 <= k < keys@.len() && #[trigger] keys@[k] == u;
                            if k < pre.len() {
                                assert(pre[k] == u);
                            }
                        }
                        if pre.contains(u) {
                            let k = choose|k: int| 0 <= k < pre.len() && #[trigger] pre[k] == u;
                            assert(keys@[k] == u);
                        }
                        if u == t {
                            assert(keys@[keys@.len() - 1] == u);
                        }
                    }
                }
            }
            i = i + 1;
        }
        proof {
            assert(inputs@.take(inputs@.len() as int) =~= inputs@);
        }
        let mut required: Vec<(ValueTypeID, usize)> = Vec::new();
        let mut i: usize = 0;
        while i < keys.len()
            invariant
                required@.len() == i,
                i <= keys@.len(),
                inputs@.len() <= 0xffff,
                forall|j: int, k: int|
                    0 <= j < k < keys@.len() ==> (#[trigger] keys@[j]) != (#[trigger] keys@[k]),
                forall|j: int|
                    0 <= j < i ==> (#[trigger] required@[j]) == (
                        keys@[j],
                        required_count(inputs@, passthrough@, keys@[j]) as usize,
                    ),
            decreases keys@.len() - i,
        {
            let t = keys[i];
            let mut count = count_matching(&inputs, t);
            proof {
                lemma_count_vt_le_len(inputs@, t);
            }
            if contains_vt(&passthrough, t) {
                count = count + 1;
            }
            required.push((t, count));
            i = i + 1;
        }
        proof {
            assert forall|t: ValueTypeID|
                assoc_count(required@, t) == required_count(inputs@, passthrough@, t) by {
                if keys@.contains(t) {
                    let k = choose|k: int| 0 <= k < keys@.len() && #[trigger] keys@[k] == t;
                    lemma_count_vt_le_len(inputs@, t);
                    assert(required_count(inputs@, passthrough@, t) <= inputs@.len() + 1);
                    assert(required@[k] == (t, required_count(inputs@, passthrough@, t) as usize));
                    assert forall|j: int, l: int|
                        0 <= j < l < required@.len() implies (#[trigger] required@[j]).0 != (
                    #[trigger] required@[l]).0 by {
                        assert(required@[j].0 == keys@[j]);
                        assert(required@[l].0 == keys@[l]);
                    }
                    lemma_assoc_present(required@, k);
                } else {
                    assert(!passthrough@.contains(t));
                    assert(!inputs@.contains(t));
                    lemma_count_vt_absent(inputs@, t);
                    assert forall|j: int|
                        0 <= j < required@.len() implies (#[trigger] required@[j]).0 != t by {
                        assert(required@[j].0 == keys@[j]);
                        assert(keys@.contains(keys@[j]));
                    }
                    lemma_assoc_absent(required@, t);
                }
            }
        }
        let generatable = !str_eq_marker(name);
        let spec_node = NodeSpec {
            name: name.to_owned(),
            id: new_id,
            inputs,
            outputs,
            passthroughs: passthrough,
            required_values: required,
            data,
            generatable,
        };
        self.node_specs.push(spec_node);
        if !generatable {
            self.snapshot_node_id = Some(new_id);
        }
        new_id
    }
}

} // verus!
