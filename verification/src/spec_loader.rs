//! Building a `GraphSpec` from a deserialized schema description.
//!
//! The schema's array order is authoritative: atomics, then edges, then
//! nodes are registered in order, and each assigned id must equal its
//! position.  A schema breaking the layout rules is rejected, never
//! repaired; `loader_ok` states exactly which schemas build.

use vstd::prelude::*;

use crate::newtypes::{AtomicTypeID, GraphError, ValueTypeID};
use crate::spec::{snapshot_marker_name, AtomicData, GraphSpec};

verus! {

/// One named value type of the schema.
#[derive(Clone, Debug)]
pub struct EdgeLoader {
    pub name: String,
}

/// One node type of the schema, with value-type references by position.
#[derive(Clone, Debug)]
pub struct NodeLoader {
    pub name: String,
    pub atom_id: Option<usize>,
    pub inputs: Vec<u16>,
    pub borrows: Vec<u16>,
    pub outputs: Vec<u16>,
    pub is_interactive: bool,
}

/// One data type of the schema.
#[derive(Clone, Debug)]
pub enum AtomLoader {
    /// A struct of earlier-registered fixed-size fields, by position.
    Struct { name: String, fields: Vec<usize> },
    /// A fixed-width integer.
    Int { name: String, size: usize },
    /// A variable-length vector of a fixed-size element type.
    Vec { name: String, size_min: usize, size_max: usize, dtype: usize },
}

/// A deserialized schema, ready to be turned into a spec.
#[derive(Clone, Debug)]
pub struct SpecLoader {
    pub checksum: u64,
    pub nodes: Vec<NodeLoader>,
    pub edges: Vec<EdgeLoader>,
    pub atomics: Vec<AtomLoader>,
}

/// The byte size of struct fields `k..`, all of which must reference
/// earlier, fixed-size atoms; `None` on any violation.
pub open spec fn struct_total(
    atomics: Seq<AtomLoader>,
    fields: Seq<usize>,
    k: int,
    bound: int,
) -> Option<nat>
    decreases bound, 0int, fields.len() - k,
{
    if !(0 <= k <= fields.len()) || bound < 0 {
        None
    } else if k == fields.len() {
        Some(0)
    } else {
        let fid = fields[k];
        if fid as int >= bound {
            None
        } else {
            match atom_shape(atomics, fid as int) {
                Some(AtomicData::Int { size }) => match struct_total(
                    atomics,
                    fields,
                    k + 1,
                    bound,
                ) {
                    Some(rest) => Some((size + rest) as nat),
                    None => None,
                },
                Some(AtomicData::Struct { size }) => match struct_total(
                    atomics,
                    fields,
                    k + 1,
                    bound,
                ) {
                    Some(rest) => Some((size + rest) as nat),
                    None => None,
                },
                _ => None,
            }
        }
    }
}

/// The payload shape the schema's atom at position `i` denotes, or `None`
/// when it breaks the layout rules (an out-of-range or variable-size
/// reference, a zero or oversized footprint).
pub open spec fn atom_shape(atomics: Seq<AtomLoader>, i: int) -> Option<AtomicData>
    decreases i, 1int, 0int,
{
    if !(0 <= i < atomics.len()) {
        None
    } else {
        match atomics[i] {
            AtomLoader::Int { size, .. } => if 0 < size <= 0xffff {
                Some(AtomicData::Int { size })
            } else {
                None
            },
            AtomLoader::Struct { fields, .. } => match struct_total(atomics, fields@, 0, i) {
                Some(total) => if 0 < total <= 0xffff {
                    Some(AtomicData::Struct { size: total as usize })
                } else {
                    None
                },
                None => None,
            },
            AtomLoader::Vec { size_min, size_max, dtype, .. } => {
                if dtype as int >= i {
                    None
                } else {
                    match atom_shape(atomics, dtype as int) {
                        Some(AtomicData::Int { size: elem }) => if elem > 0 && size_min <= size_max
                            && size_max * elem <= 0xffff {
                            Some(AtomicData::Bytes { min: size_min, max: size_max, elem_size: elem })
                        } else {
                            None
                        },
                        Some(AtomicData::Struct { size: elem }) => if elem > 0 && size_min
                            <= size_max && size_max * elem <= 0xffff {
                            Some(AtomicData::Bytes { min: size_min, max: size_max, elem_size: elem })
                        } else {
                            None
                        },
                        _ => None,
                    }
                }
            },
        }
    }
}

/// What one node of the schema must satisfy: in-range data and value-type
/// references, operand lists small enough for 16-bit op streams, and the
/// reserved snapshot-marker name only on an empty signature.
pub open spec fn node_ok(
    node: NodeLoader,
    atomic_count: int,
    edge_count: int,
) -> bool {
    &&& (node.atom_id matches Some(a) ==> (a as int) < atomic_count)
    &&& forall|j: int| 0 <= j < node.inputs@.len() ==> (#[trigger] node.inputs@[j]) < edge_count
    &&& forall|j: int| 0 <= j < node.borrows@.len() ==> (#[trigger] node.borrows@[j]) < edge_count
    &&& forall|j: int| 0 <= j < node.outputs@.len() ==> (#[trigger] node.outputs@[j]) < edge_count
    &&& node.inputs@.len() <= 0x4000
    &&& node.borrows@.len() <= 0x4000
    &&& node.outputs@.len() <= 0x4000
    &&& (node.name@ == snapshot_marker_name() ==> node.inputs@.len() == 0 && node.borrows@.len()
        == 0 && node.outputs@.len() == 0 && node.atom_id is None)
}

impl SpecLoader {
    /// Exactly the schemas that build: every atom has a lawful shape,
    /// the value and node lists fit their 16-bit id spaces, and every
    /// node's references and sizes are in range.
    pub open spec fn loader_ok(&self) -> bool {
        &&& forall|i: int|
            0 <= i < self.atomics@.len() ==> (#[trigger] atom_shape(self.atomics@, i)) is Some
        &&& self.edges@.len() <= 0xffff
        &&& self.nodes@.len() <= 0xffff
        &&& forall|n: int|
            0 <= n < self.nodes@.len() ==> node_ok(
                #[trigger] self.nodes@[n],
                self.atomics@.len() as int,
                self.edges@.len() as int,
            )
    }

    /// Build the spec: atomics, then edges, then nodes, in schema order.
    /// Succeeds exactly on schemas meeting `loader_ok`; any reference to an
    /// unregistered or non-fixed type, any oversized layout, and any misuse
    /// of the reserved snapshot-marker name rejects the schema.
    #[verifier::loop_isolation(false)]
    pub fn to_graph_spec(&self) -> (r: Result<GraphSpec, GraphError>)
        ensures
            r is Ok <==> self.loader_ok(),
            r matches Ok(g) ==> g.wf() && g.checksum == self.checksum && g.node_specs@.len()
                == self.nodes@.len() && g.value_specs@.len() == self.edges@.len()
                && g.data_specs@.len() == self.atomics@.len() && (forall|i: int|
                0 <= i < g.data_specs@.len() ==> Some(
                    (#[trigger] g.data_specs@[i]).atomic_type,
                ) == atom_shape(self.atomics@, i)),
    {
        let mut g = GraphSpec::new();
        g.checksum = self.checksum;
        proof {
            assert(g.wf());
        }
        let mut i: usize = 0;
        while i < self.atomics.len()
            invariant
                g.wf(),
                g.checksum == self.checksum,
                g.data_specs@.len() == i,
                g.value_specs@.len() == 0,
                g.node_specs@.len() == 0,
                i <= self.atomics@.len(),
                forall|j: int|
                    0 <= j < i ==> Some((#[trigger] g.data_specs@[j]).atomic_type) == atom_shape(
                        self.atomics@,
                        j,
                    ),
            decreases self.atomics@.len() - i,
        {
            let atom: AtomicData = match &self.atomics[i] {
                AtomLoader::Int { size, .. } => {
                    if *size == 0 || *size > 0xffff {
                        proof {
                            assert(atom_shape(self.atomics@, i as int) is None);
                        }
                        return Err(GraphError::InvalidSpecs);
                    }
                    AtomicData::Int { size: *size }
                },
                AtomLoader::Struct { fields, .. } => {
                    let mut total: usize = 0;
                    let mut f: usize = 0;
                    while f < fields.len()
                        invariant
                            total <= 0xffff,
                            f <= fields@.len(),
                            g.data_specs@.len() == i,
                            g.wf(),
                            match struct_total(self.atomics@, fields@, f as int, i as int) {
                                Some(rest) => struct_total(self.atomics@, fields@, 0, i as int)
                                    == Some((total + rest) as nat),
                                None => struct_total(self.atomics@, fields@, 0, i as int) is None,
                            },
                        decreases fields@.len() - f,
                    {
                        let fid = fields[f];
                        if fid >= g.data_specs.len() {
                            proof {
                                assert(struct_total(self.atomics@, fields@, f as int, i as int)
                                    is None);
                                assert(atom_shape(self.atomics@, i as int) is None);
                            }
                            return Err(GraphError::UnknownDataType(AtomicTypeID::new(fid)));
                        }
                        let part = match g.data_specs[fid].atomic_type {
                            AtomicData::Int { size } => size,
                            AtomicData::Struct { size } => size,
                            AtomicData::Bytes { .. } => {
                                proof {
                                    assert(struct_total(
                                        self.atomics@,
                                        fields@,
                                        f as int,
                                        i as int,
                                    ) is None);
                                    assert(atom_shape(self.atomics@, i as int) is None);
                                }
                                return Err(GraphError::InvalidSpecs);
                            },
                        };
                        if part > 0xffff - total {
                            proof {
                                let suffix = struct_total(
                                    self.atomics@,
                                    fields@,
                                    f as int,
                                    i as int,
                                );
                                if suffix is Some {
                                    assert(suffix->0 >= part);
                                }
                                assert(atom_shape(self.atomics@, i as int) is None);
                            }
                            return Err(GraphError::InvalidSpecs);
                        }
                        total = total + part;
                        f = f + 1;
                    }
                    if total == 0 {
                        proof {
                            assert(atom_shape(self.atomics@, i as int) is None);
                        }
                        return Err(GraphError::InvalidSpecs);
                    }
                    AtomicData::Struct { size: total }
                },
                AtomLoader::Vec { size_min, size_max, dtype, .. } => {
                    if *dtype >= g.data_specs.len() {
                        proof {
                            assert(atom_shape(self.atomics@, i as int) is None);
                        }
                        return Err(GraphError::UnknownDataType(AtomicTypeID::new(*dtype)));
                    }
                    let elem = match g.data_specs[*dtype].atomic_type {
                        AtomicData::Int { size } => size,
                        AtomicData::Struct { size } => size,
                        AtomicData::Bytes { .. } => {
                            proof {
                                assert(atom_shape(self.atomics@, i as int) is None);
                            }
                            return Err(GraphError::InvalidSpecs);
                        },
                    };
                    if elem == 0 || *size_min > *size_max {
                        proof {
                            assert(atom_shape(self.atomics@, i as int) is None);
                        }
                        return Err(GraphError::InvalidSpecs);
                    }
                    match size_max.checked_mul(elem) {
                        Some(span) => {
                            if span > 0xffff {
                                proof {
                                    assert(atom_shape(self.atomics@, i as int) is None);
                                }
                                return Err(GraphError::InvalidSpecs);
                            }
                        },
                        None => {
                            proof {
                                assert(size_max * elem > 0xffff);
                                assert(atom_shape(self.atomics@, i as int) is None);
                            }
                            return Err(GraphError::InvalidSpecs);
                        },
                    }
                    AtomicData::Bytes { min: *size_min, max: *size_max, elem_size: elem }
                },
            };
            proof {
                assert(atom_shape(self.atomics@, i as int) == Some(atom));
            }
            let name: &str = match &self.atomics[i] {
                AtomLoader::Int { name, .. } => name.as_str(),
                AtomLoader::Struct { name, .. } => name.as_str(),
                AtomLoader::Vec { name, .. } => name.as_str(),
            };
            let id = g.data_type(name, atom);
            proof {
                assert(id.0 == i);
            }
            i = i + 1;
        }
        let mut i: usize = 0;
        while i < self.edges.len()
            invariant
                g.wf(),
                g.checksum == self.checksum,
                g.data_specs@.len() == self.atomics@.len(),
                g.value_specs@.len() == i,
                g.node_specs@.len() == 0,
                i <= self.edges@.len(),
                forall|j: int|
                    0 <= j < self.atomics@.len() ==> Some(
                        (#[trigger] g.data_specs@[j]).atomic_type,
                    ) == atom_shape(self.atomics@, j),
            decreases self.edges@.len() - i,
        {
            if g.value_specs.len() >= 0xffff {
                proof {
                    assert(self.edges@.len() > 0xffff);
                }
                return Err(GraphError::InvalidSpecs);
            }
            let id = g.value_type(self.edges[i].name.as_str());
            proof {
                assert(id.0 == i);
            }
            i = i + 1;
        }
        let mut i: usize = 0;
        while i < self.nodes.len()
            invariant
                g.wf(),
                g.checksum == self.checksum,
                g.data_specs@.len() == self.atomics@.len(),
                g.value_specs@.len() == self.edges@.len(),
                g.node_specs@.len() == i,
                i <= self.nodes@.len(),
                forall|j: int|
                    0 <= j < self.atomics@.len() ==> Some(
                        (#[trigger] g.data_specs@[j]).atomic_type,
                    ) == atom_shape(self.atomics@, j),
                forall|n: int|
                    0 <= n < i ==> node_ok(
                        #[trigger] self.nodes@[n],
                        self.atomics@.len() as int,
                        self.edges@.len() as int,
                    ),
            decreases self.nodes@.len() - i,
        {
            if g.node_specs.len() >= 0xffff {
                proof {
                    assert(self.nodes@.len() > 0xffff);
                }
                return Err(GraphError::InvalidSpecs);
            }
            let node = &self.nodes[i];
            let data = match node.atom_id {
                Some(a) => {
                    if a >= g.data_specs.len() {
                        proof {
                            assert(!node_ok(
                                self.nodes@[i as int],
                                self.atomics@.len() as int,
                                self.edges@.len() as int,
                            ));
                        }
                        return Err(GraphError::UnknownDataType(AtomicTypeID::new(a)));
                    }
                    Some(AtomicTypeID::new(a))
                },
                None => None,
            };
            let inputs = match convert_value_ids(&node.inputs, g.value_specs.len()) {
                Ok(v) => v,
                Err(e) => {
                    proof {
                        assert(!node_ok(
                            self.nodes@[i as int],
                            self.atomics@.len() as int,
                            self.edges@.len() as int,
                        ));
                    }
                    return Err(e);
                },
            };
            let borrows = match convert_value_ids(&node.borrows, g.value_specs.len()) {
                Ok(v) => v,
                Err(e) => {
                    proof {
                        assert(!node_ok(
                            self.nodes@[i as int],
                            self.atomics@.len() as int,
                            self.edges@.len() as int,
                        ));
                    }
                    return Err(e);
                },
            };
            let outputs = match convert_value_ids(&node.outputs, g.value_specs.len()) {
                Ok(v) => v,
                Err(e) => {
                    proof {
                        assert(!node_ok(
                            self.nodes@[i as int],
                            self.atomics@.len() as int,
                            self.edges@.len() as int,
                        ));
                    }
                    return Err(e);
                },
            };
            if inputs.len() > 0x4000 || borrows.len() > 0x4000 || outputs.len() > 0x4000 {
                proof {
                    assert(!node_ok(
                        self.nodes@[i as int],
                        self.atomics@.len() as int,
                        self.edges@.len() as int,
                    ));
                }
                return Err(GraphError::InvalidSpecs);
            }
            let is_marker = crate::spec::str_eq_marker(node.name.as_str());
            if is_marker {
                if inputs.len() != 0 || borrows.len() != 0 || outputs.len() != 0 || !matches!(
                    data,
                    Option::None,
                ) {
                    proof {
                        assert(!node_ok(
                            self.nodes@[i as int],
                            self.atomics@.len() as int,
                            self.edges@.len() as int,
                        ));
                    }
                    return Err(GraphError::InvalidSpecs);
                }
            }
            let id = g.node_type(node.name.as_str(), data, inputs, borrows, outputs);
            proof {
                assert(id.0 == i);
                assert(node_ok(
                    self.nodes@[i as int],
                    self.atomics@.len() as int,
                    self.edges@.len() as int,
                ));
            }
            i = i + 1;
        }
        proof {
            assert forall|a: int|
                0 <= a < self.atomics@.len() implies (#[trigger] atom_shape(self.atomics@, a))
                is Some by {
                assert(Some(g.data_specs@[a].atomic_type) == atom_shape(self.atomics@, a));
            }
            assert(self.edges@.len() <= 0xffff);
            assert(self.nodes@.len() <= 0xffff);
            assert(forall|n: int|
                0 <= n < self.nodes@.len() ==> node_ok(
                    #[trigger] self.nodes@[n],
                    self.atomics@.len() as int,
                    self.edges@.len() as int,
                ));
            assert(self.loader_ok());
        }
        Ok(g)
    }
}

/// Convert positional value-type references, rejecting any out of range.
fn convert_value_ids(raw: &Vec<u16>, value_count: usize) -> (r: Result<
    Vec<ValueTypeID>,
    GraphError,
>)
    ensures
        r matches Ok(v) ==> v@.len() == raw@.len() && (forall|j: int|
            0 <= j < v@.len() ==> ((#[trigger] v@[j]).0 as int) < value_count) && (forall|j: int|
            0 <= j < raw@.len() ==> (#[trigger] raw@[j]) < value_count),
        r is Err ==> exists|j: int| 0 <= j < raw@.len() && (#[trigger] raw@[j]) >= value_count,
{
    let mut out: Vec<ValueTypeID> = Vec::new();
    let mut i: usize = 0;
    while i < raw.len()
        invariant
            i <= raw@.len(),
            out@.len() == i,
            forall|j: int| 0 <= j < i ==> ((#[trigger] out@[j]).0 as int) < value_count,
            forall|j: int| 0 <= j < i ==> (#[trigger] raw@[j]) < value_count,
        decreases raw@.len() - i,
    {
        let v = raw[i];
        if v as usize >= value_count {
            return Err(GraphError::UnknownValueType(ValueTypeID::new(v)));
        }
        out.push(ValueTypeID::new(v));
        proof {
            assert(out@[i as int].0 == raw@[i as int]);
        }
        i = i + 1;
    }
    Ok(out)
}

} // verus!
