use vstd::prelude::*;

verus! {

/// The operation performed by one node of a circuit.
#[derive(Clone, Copy, Debug, PartialEq, Eq, Structural)]
pub enum Op {
    And,
    Or,
    Not,
    Input,
    Const(bool),
}

/// One signal-producing element: an operation and the positions of the
/// earlier nodes it reads.
#[derive(Clone, Debug)]
pub struct Node {
    pub op: Op,
    pub inputs: Vec<usize>,
}

/// Why a node was rejected by validation.
#[derive(Clone, Copy, Debug, PartialEq, Eq, Structural)]
pub enum Defect {
    /// The circuit has no node, so it has no output.
    Empty,
    /// The node has a number of operands other than its operation takes.
    Arity { expected: usize, found: usize },
    /// The node reads a position that is not strictly below its own.
    ForwardReference { operand: usize },
    /// An `Input` node stands after a node that is not an input.
    MisplacedInput,
}

/// The first defect of a circuit: the position of the offending node and the reason.
#[derive(Clone, Copy, Debug, PartialEq, Eq, Structural)]
pub struct MalformedCircuit {
    pub index: usize,
    pub reason: Defect,
}

/// An ordered list of nodes; the last one is the circuit's output.
#[derive(Clone, Debug)]
pub struct Circuit {
    nodes: Vec<Node>,
}

/// Number of operands that an operation takes.
pub open spec fn arity(op: Op) -> nat {
    match op {
        Op::Input | Op::Const(_) => 0,
        Op::Not => 1,
        Op::And | Op::Or => 2,
    }
}

/// The defect of the node at position `i`, if it has one.
pub open spec fn node_defect(nodes: Seq<Node>, i: int) -> Option<Defect> {
    let n = nodes[i];
    let args = n.inputs@;
    if args.len() != arity(n.op) {
        Some(Defect::Arity { expected: arity(n.op) as usize, found: args.len() as usize })
    } else if args.len() >= 1 && args[0] >= i {
        Some(Defect::ForwardReference { operand: args[0] })
    } else if args.len() >= 2 && args[1] >= i {
        Some(Defect::ForwardReference { operand: args[1] })
    } else if n.op is Input && exists|j: int| 0 <= j < i && !(nodes[j].op is Input) {
        Some(Defect::MisplacedInput)
    } else {
        None
    }
}

/// A circuit is valid when it is not empty and no node has a defect.
pub open spec fn valid(nodes: Seq<Node>) -> bool {
    &&& nodes.len() > 0
    &&& forall|i: int| 0 <= i < nodes.len() ==> (#[trigger] node_defect(nodes, i)) is None
}

/// What validation reports for an invalid circuit: the first defective node.
pub open spec fn is_first_defect(nodes: Seq<Node>, m: MalformedCircuit) -> bool {
    if nodes.len() == 0 {
        m == MalformedCircuit { index: 0, reason: Defect::Empty }
    } else {
        &&& m.index < nodes.len()
        &&& node_defect(nodes, m.index as int) == Some(m.reason)
        &&& forall|j: int| 0 <= j < m.index ==> (#[trigger] node_defect(nodes, j)) is None
    }
}

/// Number of `Input` nodes.
pub open spec fn input_count(nodes: Seq<Node>) -> nat
    decreases nodes.len(),
{
    if nodes.len() == 0 {
        0
    } else {
        input_count(nodes.drop_last()) + if nodes.last().op is Input {
            1nat
        } else {
            0nat
        }
    }
}

/// Boolean value of the node at position `i`, evaluated structurally over the
/// circuit with the given parameter values.
pub open spec fn truth(nodes: Seq<Node>, inputs: Seq<bool>, i: int) -> bool
    decreases i,
{
    if i < 0 || i >= nodes.len() {
        false
    } else {
        let args = nodes[i].inputs@;
        match nodes[i].op {
            Op::Input => i < inputs.len() && inputs[i],
            Op::Const(b) => b,
            Op::And => args.len() == 2 && 0 <= args[0] < i && 0 <= args[1] < i && truth(
                nodes,
                inputs,
                args[0] as int,
            ) && truth(nodes, inputs, args[1] as int),
            Op::Or => args.len() == 2 && 0 <= args[0] < i && 0 <= args[1] < i && (truth(
                nodes,
                inputs,
                args[0] as int,
            ) || truth(nodes, inputs, args[1] as int)),
            Op::Not => args.len() == 1 && 0 <= args[0] < i && !truth(nodes, inputs, args[0] as int),
        }
    }
}

/// The circuit's truth table: the value of its last node.
pub open spec fn truth_output(nodes: Seq<Node>, inputs: Seq<bool>) -> bool {
    truth(nodes, inputs, nodes.len() - 1)
}

/// Byte value that the generated code holds for the node at position `i`:
/// inputs are taken as they are, constants are 1 or 0, and the gates are the
/// bitwise operations on bytes.
pub open spec fn signal(nodes: Seq<Node>, inputs: Seq<u8>, i: int) -> u8
    decreases i,
{
    if i < 0 || i >= nodes.len() {
        0
    } else {
        let args = nodes[i].inputs@;
        match nodes[i].op {
            Op::Input => if i < inputs.len() {
                inputs[i]
            } else {
                0
            },
            Op::Const(b) => if b {
                1
            } else {
                0
            },
            Op::And => if args.len() == 2 && 0 <= args[0] < i && 0 <= args[1] < i {
                signal(nodes, inputs, args[0] as int) & signal(nodes, inputs, args[1] as int)
            } else {
                0
            },
            Op::Or => if args.len() == 2 && 0 <= args[0] < i && 0 <= args[1] < i {
                signal(nodes, inputs, args[0] as int) | signal(nodes, inputs, args[1] as int)
            } else {
                0
            },
            Op::Not => if args.len() == 1 && 0 <= args[0] < i {
                !signal(nodes, inputs, args[0] as int)
            } else {
                0
            },
        }
    }
}

/// What the compiled function returns: the last node's byte masked to its low bit.
pub open spec fn masked_output(nodes: Seq<Node>, inputs: Seq<u8>) -> u8 {
    signal(nodes, inputs, nodes.len() - 1) & 1
}

/// The low bit of each byte, as a boolean.
pub open spec fn low_bits(inputs: Seq<u8>) -> Seq<bool> {
    inputs.map_values(|b: u8| b & 1 == 1)
}

pub open spec fn bit(b: bool) -> u8 {
    if b {
        1
    } else {
        0
    }
}

impl View for Circuit {
    type V = Seq<Node>;

    closed spec fn view(&self) -> Seq<Node> {
        self.nodes@
    }
}


/// Byte facts behind the masking: the low bit of a bitwise AND, OR or NOT
/// depends only on the operands' low bits.
proof fn lemma_low_bit_ops(a: u8, b: u8)
    by (bit_vector)
    ensures
        ((a & b) & 1 == 1) == (a & 1 == 1 && b & 1 == 1),
        ((a | b) & 1 == 1) == (a & 1 == 1 || b & 1 == 1),
        ((!a) & 1 == 1) == !(a & 1 == 1),
        a & 1 == 0 || a & 1 == 1,
        1u8 & 1u8 == 1u8,
        0u8 & 1u8 == 0u8,
{
}

/// The low bit of every node's byte is the node's boolean value over the
/// inputs' low bits, whatever the other bits of the inputs hold.
pub proof fn lemma_signal_low_bit(nodes: Seq<Node>, inputs: Seq<u8>, i: int)
    ensures
        (signal(nodes, inputs, i) & 1 == 1) == truth(nodes, low_bits(inputs), i),
    decreases i,
{
    if 0 <= i < nodes.len() {
        let args = nodes[i].inputs@;
        match nodes[i].op {
            Op::Input => {
                if i < inputs.len() {
                    lemma_low_bit_ops(inputs[i], 0);
                }
                lemma_low_bit_ops(0, 0);
            },
            Op::Const(b) => {
                lemma_low_bit_ops(0, 0);
            },
            Op::And | Op::Or => {
                if args.len() == 2 && 0 <= args[0] < i && 0 <= args[1] < i {
                    lemma_signal_low_bit(nodes, inputs, args[0] as int);
                    lemma_signal_low_bit(nodes, inputs, args[1] as int);
                    lemma_low_bit_ops(
                        signal(nodes, inputs, args[0] as int),
                        signal(nodes, inputs, args[1] as int),
                    );
                }
                lemma_low_bit_ops(0, 0);
            },
            Op::Not => {
                if args.len() == 1 && 0 <= args[0] < i {
                    lemma_signal_low_bit(nodes, inputs, args[0] as int);
                    lemma_low_bit_ops(signal(nodes, inputs, args[0] as int), 0);
                }
                lemma_low_bit_ops(0, 0);
            },
        }
    } else {
        lemma_low_bit_ops(0, 0);
    }
}

/// The compiled function returns exactly the circuit's truth table evaluated
/// on the low bits of its input bytes: 1 where the output node is true, 0
/// where it is false.
pub proof fn lemma_output_is_truth_table(nodes: Seq<Node>, inputs: Seq<u8>)
    ensures
        masked_output(nodes, inputs) == bit(truth_output(nodes, low_bits(inputs))),
{
    let v = signal(nodes, inputs, nodes.len() - 1);
    lemma_signal_low_bit(nodes, inputs, nodes.len() - 1);
    lemma_low_bit_ops(v, 0);
}

/// If every node up to position `i` is an input, the circuit has more than `i` inputs.
proof fn lemma_input_prefix_count(nodes: Seq<Node>, i: int)
    requires
        0 <= i < nodes.len(),
        forall|j: int| 0 <= j <= i ==> (#[trigger] nodes[j]).op is Input,
    ensures
        input_count(nodes) > i,
    decreases nodes.len(),
{
    let rest = nodes.drop_last();
    if i < nodes.len() - 1 {
        assert forall|j: int| 0 <= j <= i implies (#[trigger] rest[j]).op is Input by {
            assert(rest[j] == nodes[j]);
        }
        lemma_input_prefix_count(rest, i);
    } else if i > 0 {
        assert forall|j: int| 0 <= j <= i - 1 implies (#[trigger] rest[j]).op is Input by {
            assert(rest[j] == nodes[j]);
        }
        lemma_input_prefix_count(rest, i - 1);
    }
}

/// In a valid circuit an input node's position is below the number of inputs,
/// so it names one of the function's parameters.
pub proof fn lemma_input_is_parameter(nodes: Seq<Node>, i: int)
    requires
        valid(nodes),
        0 <= i < nodes.len(),
        nodes[i].op is Input,
    ensures
        i < input_count(nodes),
{
    assert(node_defect(nodes, i) is None);
    assert forall|j: int| 0 <= j <= i implies (#[trigger] nodes[j]).op is Input by {
        if j < i && !(nodes[j].op is Input) {
            assert(exists|k: int| 0 <= k < i && !(nodes[k].op is Input));
        }
    }
    lemma_input_prefix_count(nodes, i);
}

/// Number of operands that an operation takes.
pub fn op_arity(op: Op) -> (r: usize)
    ensures
        r == arity(op),
{
    match op {
        Op::Input | Op::Const(_) => 0,
        Op::Not => 1,
        Op::And | Op::Or => 2,
    }
}

/// Checks one node, given whether a non-input node stands before it.
fn check_node(nodes: &Vec<Node>, i: usize, gate_seen: bool) -> (r: Option<Defect>)
    requires
        i < nodes@.len(),
        gate_seen == exists|j: int| 0 <= j < i && !(nodes@[j].op is Input),
    ensures
        r == node_defect(nodes@, i as int),
{
    let node = &nodes[i];
    let expected = op_arity(node.op);
    let found = node.inputs.len();
    if found != expected {
        Some(Defect::Arity { expected, found })
    } else if found >= 1 && node.inputs[0] >= i {
        Some(Defect::ForwardReference { operand: node.inputs[0] })
    } else if found >= 2 && node.inputs[1] >= i {
        Some(Defect::ForwardReference { operand: node.inputs[1] })
    } else if matches!(node.op, Op::Input) && gate_seen {
        Some(Defect::MisplacedInput)
    } else {
        None
    }
}

impl Circuit {
    /// Wraps a node list. No check is made here: see [`Circuit::validate`].
    pub fn new(nodes: Vec<Node>) -> (r: Circuit)
        ensures
            r@ == nodes@,
    {
        Circuit { nodes }
    }

    /// Number of nodes.
    pub fn len(&self) -> (r: usize)
        ensures
            r == self@.len(),
    {
        self.nodes.len()
    }

    /// The node at position `i`.
    pub fn node(&self, i: usize) -> (r: &Node)
        requires
            i < self@.len(),
        ensures
            *r == self@[i as int],
    {
        &self.nodes[i]
    }

    /// Checks the circuit: it is not empty, every node has the number of
    /// operands its operation takes, reads only earlier positions, and the
    /// inputs come first. Reports the first defective node.
    pub fn validate(&self) -> (r: Result<(), MalformedCircuit>)
        ensures
            r is Ok <==> valid(self@),
            r matches Err(m) ==> is_first_defect(self@, m),
    {
        let n = self.nodes.len();
        if n == 0 {
            return Err(MalformedCircuit { index: 0, reason: Defect::Empty });
        }
        let mut i: usize = 0;
        let mut gate_seen = false;
        while i < n
            invariant
                n == self@.len(),
                self@ == self.nodes@,
                0 <= i <= n,
                forall|j: int| 0 <= j < i ==> (#[trigger] node_defect(self@, j)) is None,
                gate_seen == exists|j: int| 0 <= j < i && !(self@[j].op is Input),
            decreases n - i,
        {
            match check_node(&self.nodes, i, gate_seen) {
                Some(reason) => {
                    return Err(MalformedCircuit { index: i, reason });
                },
                None => {},
            }
            if !matches!(self.nodes[i].op, Op::Input) {
                gate_seen = true;
            }
            i = i + 1;
        }
        Ok(())
    }

    /// Number of `Input` nodes, that is, of parameters of the compiled function.
    pub fn input_count(&self) -> (r: usize)
        ensures
            r == input_count(self@),
    {
        let n = self.nodes.len();
        let mut count: usize = 0;
        let mut i: usize = 0;
        while i < n
            invariant
                n == self@.len(),
                self@ == self.nodes@,
                0 <= i <= n,
                count == input_count(self@.take(i as int)),
                count <= i,
            decreases n - i,
        {
            assert(self@.take(i + 1).drop_last() =~= self@.take(i as int));
            if matches!(self.nodes[i].op, Op::Input) {
                count = count + 1;
            }
            i = i + 1;
        }
        assert(self@.take(n as int) =~= self@);
        count
    }
}

/// The two-input NAND circuit: `[Input a, Input b, And(a, b), Not(and)]`.
pub fn build_circuit() -> (r: Circuit)
    ensures
        r@.len() == 4,
        r@[0].op == Op::Input && r@[0].inputs@ == Seq::<usize>::empty(),
        r@[1].op == Op::Input && r@[1].inputs@ == Seq::<usize>::empty(),
        r@[2].op == Op::And && r@[2].inputs@ == seq![0usize, 1usize],
        r@[3].op == Op::Not && r@[3].inputs@ == seq![2usize],
        valid(r@),
        input_count(r@) == 2,
{
    let nodes = vec![
        Node { op: Op::Input, inputs: vec![] },
        Node { op: Op::Input, inputs: vec![] },
        Node { op: Op::And, inputs: vec![0, 1] },
        Node { op: Op::Not, inputs: vec![2] },
    ];
    let r = Circuit::new(nodes);
    proof {
        let s = r@;
        assert(s[2].inputs@ =~= seq![0usize, 1usize]);
        assert(s[3].inputs@ =~= seq![2usize]);
        assert(node_defect(s, 0) is None);
        assert(node_defect(s, 1) is None);
        assert(node_defect(s, 2) is None);
        assert(node_defect(s, 3) is None);
        let s3 = s.drop_last();
        let s2 = s3.drop_last();
        let s1 = s2.drop_last();
        let s0 = s1.drop_last();
        assert(input_count(s0) == 0);
        assert(s1.last() == s[0]);
        assert(s2.last() == s[1]);
        assert(s3.last() == s[2]);
        assert(input_count(s1) == 1);
        assert(input_count(s2) == 2);
        assert(input_count(s3) == 2);
    }
    r
}

impl Circuit {
    /// Reference interpreter: evaluates the circuit structurally on one boolean
    /// per input. `None` when the circuit is invalid or the number of values
    /// differs from the number of inputs.
    pub fn evaluate(&self, inputs: &[bool]) -> (r: Option<bool>)
        ensures
            r is Some <==> valid(self@) && inputs@.len() == input_count(self@),
            r matches Some(b) ==> b == truth_output(self@, inputs@),
    {
        if self.validate().is_err() || inputs.len() != self.input_count() {
            return None;
        }
        let n = self.nodes.len();
        let mut vals: Vec<bool> = Vec::new();
        let mut i: usize = 0;
        while i < n
            invariant
                n == self@.len(),
                self@ == self.nodes@,
                valid(self@),
                inputs@.len() == input_count(self@),
                0 <= i <= n,
                vals@.len() == i,
                forall|j: int| 0 <= j < i ==> vals@[j] == truth(self@, inputs@, j),
            decreases n - i,
        {
            assert(node_defect(self@, i as int) is None);
            let node = &self.nodes[i];
            let v = match node.op {
                Op::Input => {
                    proof {
                        lemma_input_is_parameter(self@, i as int);
                    }
                    inputs[i]
                },
                Op::Const(b) => b,
                Op::And => vals[node.inputs[0]] && vals[node.inputs[1]],
                Op::Or => vals[node.inputs[0]] || vals[node.inputs[1]],
                Op::Not => !vals[node.inputs[0]],
            };
            vals.push(v);
            i = i + 1;
        }
        Some(vals[n - 1])
    }

    /// Byte-level model of the compiled function: every gate is the bitwise
    /// operation on bytes and the last node's byte is masked to its low bit.
    /// `None` when the circuit is invalid or the number of bytes differs from
    /// the number of inputs.
    pub fn simulate(&self, inputs: &[u8]) -> (r: Option<u8>)
        ensures
            r is Some <==> valid(self@) && inputs@.len() == input_count(self@),
            r matches Some(b) ==> b == masked_output(self@, inputs@),
    {
        if self.validate().is_err() || inputs.len() != self.input_count() {
            return None;
        }
        let n = self.nodes.len();
        let mut vals: Vec<u8> = Vec::new();
        let mut i: usize = 0;
        while i < n
            invariant
                n == self@.len(),
                self@ == self.nodes@,
                valid(self@),
                inputs@.len() == input_count(self@),
                0 <= i <= n,
                vals@.len() == i,
                forall|j: int| 0 <= j < i ==> vals@[j] == signal(self@, inputs@, j),
            decreases n - i,
        {
            assert(node_defect(self@, i as int) is None);
            let node = &self.nodes[i];
            let v = match node.op {
                Op::Input => {
                    proof {
                        lemma_input_is_parameter(self@, i as int);
                    }
                    inputs[i]
                },
                Op::Const(b) => if b {
                    1u8
                } else {
                    0u8
                },
                Op::And => vals[node.inputs[0]] & vals[node.inputs[1]],
                Op::Or => vals[node.inputs[0]] | vals[node.inputs[1]],
                Op::Not => !vals[node.inputs[0]],
            };
            vals.push(v);
            i = i + 1;
        }
        Some(vals[n - 1] & 1)
    }
}

} // verus!
