//! The constraint-system context: the allocated inputs and the emitted gates.
use vstd::prelude::*;

verus! {

/// Whether an allocation is a public input or a private witness.
#[derive(Clone, Copy, Debug, PartialEq, Eq, Structural)]
pub enum Visibility {
    Public,
    Private,
}

/// Where a value lives in the circuit: a constant known before proving, an
/// input allocation (by position), or a gate result (by position).
#[derive(Clone, Copy, Debug, PartialEq, Eq, Structural)]
pub enum Wire {
    Constant,
    Input(usize),
    Gate(usize),
}

/// A concrete value carried by an allocation or produced by a gate.
#[derive(Clone, Copy, Debug, PartialEq, Eq, Structural)]
pub enum Witness {
    Boolean(bool),
    U32(u32),
    FieldElement(u64),
}

/// The relation that a gate enforces between its operands and its output.
#[derive(Clone, Copy, Debug, PartialEq, Eq, Structural)]
pub enum GateOp {
    Add,
    Sub,
    Mul,
    Div,
    Pow,
    Eq,
    And,
    Or,
    Not,
}

/// One input allocation: `alloc_input` when public, `alloc` when private.
#[derive(Clone, Copy, Debug, PartialEq, Eq, Structural)]
pub struct Allocation {
    pub visibility: Visibility,
    pub witness: Witness,
}

/// One gadget invocation. A unary gate has `Wire::Constant` on its right.
#[derive(Clone, Copy, Debug, PartialEq, Eq, Structural)]
pub struct Gate {
    pub op: GateOp,
    pub left: Wire,
    pub right: Wire,
    pub output: Witness,
}

/// The constraint-system context of one compilation pass.
#[derive(Debug)]
pub struct Circuit {
    pub allocations: Vec<Allocation>,
    pub gates: Vec<Gate>,
}

/// The contents of a [`Circuit`], in emission order.
pub ghost struct CircuitView {
    pub allocations: Seq<Allocation>,
    pub gates: Seq<Gate>,
}

impl CircuitView {
    pub open spec fn empty() -> CircuitView {
        CircuitView { allocations: Seq::empty(), gates: Seq::empty() }
    }

    /// The wire of the next gate to be emitted.
    pub open spec fn next_gate(self) -> Wire {
        Wire::Gate(self.gates.len() as usize)
    }

    pub open spec fn with_gate(self, op: GateOp, left: Wire, right: Wire, output: Witness) -> CircuitView {
        CircuitView {
            allocations: self.allocations,
            gates: self.gates.push(Gate { op, left, right, output }),
        }
    }

    pub open spec fn with_allocation(self, visibility: Visibility, witness: Witness) -> CircuitView {
        CircuitView {
            allocations: self.allocations.push(Allocation { visibility, witness }),
            gates: self.gates,
        }
    }
}

impl View for Circuit {
    type V = CircuitView;

    open spec fn view(&self) -> CircuitView {
        CircuitView { allocations: self.allocations@, gates: self.gates@ }
    }
}

impl Circuit {
    pub fn new() -> (r: Circuit)
        ensures
            r@ == CircuitView::empty(),
    {
        Circuit { allocations: Vec::new(), gates: Vec::new() }
    }

    /// Allocates an input and returns its wire.
    pub fn allocate(&mut self, visibility: Visibility, witness: Witness) -> (w: Wire)
        ensures
            final(self)@ == old(self)@.with_allocation(visibility, witness),
            w == Wire::Input(old(self)@.allocations.len() as usize),
    {
        let index = self.allocations.len();
        self.allocations.push(Allocation { visibility, witness });
        Wire::Input(index)
    }

    /// Emits a gate and returns the wire of its output.
    pub fn emit(&mut self, op: GateOp, left: Wire, right: Wire, output: Witness) -> (w: Wire)
        ensures
            final(self)@ == old(self)@.with_gate(op, left, right, output),
            w == old(self)@.next_gate(),
    {
        let index = self.gates.len();
        self.gates.push(Gate { op, left, right, output });
        Wire::Gate(index)
    }

    pub fn num_gates(&self) -> (n: usize)
        ensures
            n == self@.gates.len(),
    {
        self.gates.len()
    }

    pub fn num_allocations(&self) -> (n: usize)
        ensures
            n == self@.allocations.len(),
    {
        self.allocations.len()
    }
}

} // verus!
