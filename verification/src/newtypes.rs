//! Identifier newtypes for the graph IR.
//!
//! A graph's operation stream interleaves node-type tags with operand tags;
//! these wrappers keep the different id spaces apart.

use vstd::prelude::*;

verus! {

/// Identifies one node type of a `GraphSpec`; its value is the index into the
/// spec's node list.
#[derive(Clone, Copy, Debug, PartialEq, Eq, Structural, Hash)]
pub struct NodeTypeID(pub u16);

impl NodeTypeID {
    pub fn new(v: u16) -> (r: Self)
        ensures
            r.0 == v,
    {
        NodeTypeID(v)
    }

    pub fn as_u16(&self) -> (r: u16)
        ensures
            r == self.0,
    {
        self.0
    }

    pub fn as_usize(&self) -> (r: usize)
        ensures
            r == self.0 as usize,
    {
        self.0 as usize
    }
}

/// Identifies one value ("wire") type of a `GraphSpec`; the value is the index
/// into the spec's value list.
#[derive(Clone, Copy, Debug, PartialEq, Eq, Structural, Hash)]
pub struct ValueTypeID(pub u16);

impl ValueTypeID {
    pub fn new(v: u16) -> (r: Self)
        ensures
            r.0 == v,
    {
        ValueTypeID(v)
    }

    pub fn as_u16(&self) -> (r: u16)
        ensures
            r == self.0,
    {
        self.0
    }

    pub fn as_usize(&self) -> (r: usize)
        ensures
            r == self.0 as usize,
    {
        self.0 as usize
    }
}

/// Identifies one data type of a `GraphSpec`; the value is the index into the
/// spec's data-type list.
#[derive(Clone, Copy, Debug, PartialEq, Eq, Structural, Hash)]
pub struct AtomicTypeID(pub usize);

impl AtomicTypeID {
    pub fn new(v: usize) -> (r: Self)
        ensures
            r.0 == v,
    {
        AtomicTypeID(v)
    }

    pub fn as_usize(&self) -> (r: usize)
        ensures
            r == self.0,
    {
        self.0
    }
}

/// An operand id as it appears in the op stream: the "wire" connecting a
/// node's output to a later node's input.
#[derive(Clone, Copy, Debug, PartialEq, Eq, Structural, Hash)]
pub struct ConnectorID(pub u16);

impl ConnectorID {
    pub fn new(v: u16) -> (r: Self)
        ensures
            r.0 == v,
    {
        ConnectorID(v)
    }

    pub fn as_u16(&self) -> (r: u16)
        ensures
            r == self.0,
    {
        self.0
    }

    /// The next fresh id.  Builders mint ids in increasing order starting
    /// from one, so zero is never handed out.
    pub fn next(&self) -> (r: Self)
        requires
            self.0 < 0xffff,
        ensures
            r.0 == self.0 + 1,
    {
        ConnectorID(self.0 + 1)
    }
}

/// Index of an operation inside the op stream.
#[derive(Clone, Copy, Debug, PartialEq, Eq, Structural, Hash)]
pub struct OpIndex(pub usize);

impl OpIndex {
    pub fn new(v: usize) -> (r: Self)
        ensures
            r.0 == v,
    {
        OpIndex(v)
    }

    pub fn as_usize(&self) -> (r: usize)
        ensures
            r == self.0,
    {
        self.0
    }
}

/// Port number on a node (separate counters for inputs, passthroughs and
/// outputs).
#[derive(Clone, Copy, Debug, PartialEq, Eq, Structural, Hash)]
pub struct PortID(pub usize);

impl PortID {
    pub fn new(v: usize) -> (r: Self)
        ensures
            r.0 == v,
    {
        PortID(v)
    }

    pub fn as_usize(&self) -> (r: usize)
        ensures
            r == self.0,
    {
        self.0
    }

    pub fn next(&self) -> (r: Self)
        requires
            self.0 < usize::MAX,
        ensures
            r.0 == self.0 + 1,
    {
        PortID(self.0 + 1)
    }
}

/// Source end of an edge: the node (by op index) and output port that
/// produced a value.
#[derive(Clone, Copy, Debug, PartialEq, Eq, Structural, Hash)]
pub struct SrcVal {
    pub id: OpIndex,
    pub port: PortID,
}

impl SrcVal {
    pub fn new(id: OpIndex, port: PortID) -> (r: Self)
        ensures
            r.id == id,
            r.port == port,
    {
        SrcVal { id, port }
    }
}

/// Destination end of an edge: the node (by op index) and input or
/// passthrough port that reads a value.
#[derive(Clone, Copy, Debug, PartialEq, Eq, Structural, Hash)]
pub struct DstVal {
    pub id: OpIndex,
    pub port: PortID,
}

impl DstVal {
    pub fn new(id: OpIndex, port: PortID) -> (r: Self)
        ensures
            r.id == id,
            r.port == port,
    {
        DstVal { id, port }
    }
}

/// Errors of the graph layer.
#[derive(Clone, Copy, Debug, PartialEq, Eq, Structural, Hash)]
pub enum GraphError {
    /// A node-type id with no entry in the spec.
    UnknownNodeType(NodeTypeID),
    /// A value-type id with no entry in the spec.
    UnknownValueType(ValueTypeID),
    /// A data-type id with no entry in the spec.
    UnknownDataType(AtomicTypeID),
    /// No node type is currently constructible.
    InvalidSpecs,
    /// A serialized graph did not match the expected layout.
    MalformedFile,
    /// A serialized graph carried a checksum other than the spec's.
    ChecksumMismatch,
}

} // verus!
