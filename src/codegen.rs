//! Translation of a validated circuit into one straight-line Cranelift
//! function body: one instruction per gate, in index order.

use crate::backend::{
    append_block_to_layout, append_byte_block_param, block_index, create_block, empty_state,
    fn_state, ins_band, ins_bnot, ins_bor, ins_byte_const, ins_return, push_byte_param,
    push_byte_return, value_index, FnState, Inst,
};
use crate::circuit::{
    bit, input_count, lemma_input_is_parameter, masked_output, node_defect, signal, valid,
    Circuit, Node, Op,
};
use cranelift_codegen::ir::{Block, Value};
use cranelift_codegen::Context;
use vstd::prelude::*;

verus! {

/// The instructions for the gates among the first `m` nodes, in index order.
/// Node `i` defines value number `i`; inputs emit nothing, since they are the
/// entry block's parameters `0 .. k`.
pub open spec fn gate_insts(nodes: Seq<Node>, m: int) -> Seq<Inst>
    decreases m,
{
    if m <= 0 {
        Seq::empty()
    } else {
        let prev = gate_insts(nodes, m - 1);
        let i = (m - 1) as nat;
        let args = nodes[m - 1].inputs@;
        match nodes[m - 1].op {
            Op::Input => prev,
            Op::Const(b) => prev.push(Inst::Const { dst: i, imm: bit(b) }),
            Op::And => prev.push(Inst::Band { dst: i, a: args[0] as nat, b: args[1] as nat }),
            Op::Or => prev.push(Inst::Bor { dst: i, a: args[0] as nat, b: args[1] as nat }),
            Op::Not => prev.push(Inst::Bnot { dst: i, a: args[0] as nat }),
        }
    }
}

/// The whole function body for a circuit of `n` nodes: the gates, then the
/// mask constant 1 as value `n`, the AND of the last node with it as value
/// `n + 1`, and the return of that value.
pub open spec fn lowered(nodes: Seq<Node>) -> Seq<Inst> {
    let n = nodes.len();
    gate_insts(nodes, n as int) + seq![
        Inst::Const { dst: n, imm: 1 },
        Inst::Band { dst: n + 1, a: (n - 1) as nat, b: n },
        Inst::Return { v: n + 1 },
    ]
}

/// Values defined after running a straight-line body whose entry parameters
/// are `params`, value `j` at index `j`, with the bitwise meaning of Cranelift's
/// `iconst`, `band`, `bor` and `bnot` on bytes. `None` where an instruction
/// does not define the next number or reads an undefined value.
pub open spec fn values_after(body: Seq<Inst>, params: Seq<u8>) -> Option<Seq<u8>>
    decreases body.len(),
{
    if body.len() == 0 {
        Some(params)
    } else {
        match values_after(body.drop_last(), params) {
            None => None,
            Some(env) => {
                let n = env.len();
                match body.last() {
                    Inst::Const { dst, imm } => if dst == n {
                        Some(env.push(imm))
                    } else {
                        None
                    },
                    Inst::Band { dst, a, b } => if dst == n && a < n && b < n {
                        Some(env.push(env[a as int] & env[b as int]))
                    } else {
                        None
                    },
                    Inst::Bor { dst, a, b } => if dst == n && a < n && b < n {
                        Some(env.push(env[a as int] | env[b as int]))
                    } else {
                        None
                    },
                    Inst::Bnot { dst, a } => if dst == n && a < n {
                        Some(env.push(!env[a as int]))
                    } else {
                        None
                    },
                    Inst::Return { v } => None,
                }
            },
        }
    }
}

/// What a body ending in `return v` returns for the given parameters.
pub open spec fn run_body(body: Seq<Inst>, params: Seq<u8>) -> Option<u8> {
    if body.len() > 0 && body.last() is Return {
        match values_after(body.drop_last(), params) {
            Some(env) => if body.last()->v < env.len() {
                Some(env[body.last()->v as int])
            } else {
                None
            },
            None => None,
        }
    } else {
        None
    }
}

/// The bytes of the first `m` nodes, or of all inputs while `m` is below their number.
pub open spec fn signals_upto(nodes: Seq<Node>, params: Seq<u8>, m: int) -> Seq<u8> {
    Seq::new(if m < params.len() { params.len() } else { m as nat }, |j: int| signal(nodes, params, j))
}

proof fn lemma_gates_compute_signals(nodes: Seq<Node>, params: Seq<u8>, m: int)
    requires
        valid(nodes),
        params.len() == input_count(nodes),
        0 <= m <= nodes.len(),
    ensures
        values_after(gate_insts(nodes, m), params) == Some(signals_upto(nodes, params, m)),
    decreases m,
{
    let k = params.len();
    if m == 0 {
        assert(params =~= signals_upto(nodes, params, 0)) by {
            assert forall|j: int| 0 <= j < k implies params[j] == signal(nodes, params, j) by {
                lemma_count_at_most_len(nodes);
                assert(node_defect(nodes, j) is None);
                if !(nodes[j].op is Input) {
                    lemma_gate_after_inputs(nodes, j);
                }
            }
        }
    } else {
        lemma_gates_compute_signals(nodes, params, m - 1);
        let i = m - 1;
        assert(node_defect(nodes, i) is None);
        let prev = signals_upto(nodes, params, i);
        if nodes[i].op is Input {
            lemma_input_is_parameter(nodes, i);
            assert(signals_upto(nodes, params, m) =~= prev);
        } else {
            lemma_gate_after_inputs(nodes, i);
            let body = gate_insts(nodes, m);
            assert(body.drop_last() =~= gate_insts(nodes, i));
            assert(signals_upto(nodes, params, m) =~= prev.push(signal(nodes, params, i)));
        }
    }
}

/// The body generated for a valid circuit returns, for every tuple of
/// parameter bytes, the last node's byte masked to its low bit.
pub proof fn lemma_lowered_computes_output(nodes: Seq<Node>, params: Seq<u8>)
    requires
        valid(nodes),
        params.len() == input_count(nodes),
    ensures
        run_body(lowered(nodes), params) == Some(masked_output(nodes, params)),
{
    let n = nodes.len() as int;
    lemma_count_at_most_len(nodes);
    lemma_gates_compute_signals(nodes, params, n);
    let gates = gate_insts(nodes, n);
    let c = Inst::Const { dst: n as nat, imm: 1 };
    let b = Inst::Band { dst: (n + 1) as nat, a: (n - 1) as nat, b: n as nat };
    let body = lowered(nodes);
    assert(body.drop_last() =~= gates.push(c).push(b));
    assert(gates.push(c).push(b).drop_last() =~= gates.push(c));
    assert(gates.push(c).drop_last() =~= gates);
    let env = signals_upto(nodes, params, n);
    assert(env.len() == n);
    assert(gates.push(c).last() == c);
    assert(values_after(gates.push(c), params) == Some(env.push(1u8)));
    let env1 = env.push(1u8);
    assert(env1[n - 1] == signal(nodes, params, n - 1));
    assert(env1[n] == 1u8);
    assert(gates.push(c).push(b).last() == b);
    assert(values_after(gates.push(c).push(b), params) == Some(env1.push(env1[n - 1] & env1[n])));
    assert(body.last() == Inst::Return { v: (n + 1) as nat });
}

/// In a valid circuit no input stands after a gate, so a gate's position is at
/// least the number of inputs.
proof fn lemma_gate_after_inputs(nodes: Seq<Node>, i: int)
    requires
        valid(nodes),
        0 <= i < nodes.len(),
        !(nodes[i].op is Input),
    ensures
        input_count(nodes) <= i,
{
    assert forall|j: int| i < j < nodes.len() implies !(#[trigger] nodes[j].op is Input) by {
        assert(node_defect(nodes, j) is None);
    }
    lemma_count_bounded(nodes, i);
}

proof fn lemma_count_bounded(nodes: Seq<Node>, i: int)
    requires
        0 <= i,
        forall|j: int| i <= j < nodes.len() ==> !(#[trigger] nodes[j].op is Input),
    ensures
        input_count(nodes) <= i,
    decreases nodes.len(),
{
    if nodes.len() > 0 {
        let rest = nodes.drop_last();
        if nodes.len() - 1 >= i {
            assert forall|j: int| i <= j < rest.len() implies !(#[trigger] rest[j].op is Input) by {
                assert(rest[j] == nodes[j]);
            }
            lemma_count_bounded(rest, i);
        } else {
            lemma_count_at_most_len(rest);
        }
    }
}

proof fn lemma_count_at_most_len(nodes: Seq<Node>)
    ensures
        input_count(nodes) <= nodes.len(),
    decreases nodes.len(),
{
    if nodes.len() > 0 {
        lemma_count_at_most_len(nodes.drop_last());
    }
}

/// Emits one instruction per gate at the bottom of `block`, in index order,
/// binding the input at position `i` to `params[i]`. Node `i` gets value
/// number `i`; the result is the table from node position to value.
pub fn emit_nodes(ctx: &mut Context, block: Block, params: &Vec<Value>, circuit: &Circuit) -> (r: Vec<Value>)
    requires
        valid(circuit@),
        params@.len() == input_count(circuit@),
        forall|m: int| 0 <= m < params@.len() ==> value_index(#[trigger] params@[m]) == m,
        fn_state(*old(ctx)).values == input_count(circuit@),
        fn_state(*old(ctx)).layout.contains(block_index(block)),
    ensures
        r@.len() == circuit@.len(),
        forall|i: int| 0 <= i < r@.len() ==> value_index(#[trigger] r@[i]) == i,
        fn_state(*final(ctx)) == (FnState {
            values: circuit@.len(),
            body: fn_state(*old(ctx)).body + gate_insts(circuit@, circuit@.len() as int),
            ..fn_state(*old(ctx))
        }),
{
    let ghost start = fn_state(*ctx);
    let ghost k = input_count(circuit@);
    let n = circuit.len();
    let mut values: Vec<Value> = Vec::new();
    let mut i: usize = 0;
    while i < n
        invariant
            n == circuit@.len(),
            valid(circuit@),
            k == input_count(circuit@),
            params@.len() == k,
            forall|m: int| 0 <= m < params@.len() ==> value_index(#[trigger] params@[m]) == m,
            start.layout.contains(block_index(block)),
            0 <= i <= n,
            values@.len() == i,
            forall|j: int| 0 <= j < i ==> value_index(#[trigger] values@[j]) == j,
            fn_state(*ctx) == (FnState {
                values: if i < k { k } else { i as nat },
                body: start.body + gate_insts(circuit@, i as int),
                ..start
            }),
        decreases n - i,
    {
        assert(node_defect(circuit@, i as int) is None);
        let ghost before = fn_state(*ctx);
        let node = circuit.node(i);
        if !matches!(node.op, Op::Input) {
            proof {
                lemma_gate_after_inputs(circuit@, i as int);
            }
        }
        let v = match node.op {
            Op::Input => {
                proof {
                    lemma_input_is_parameter(circuit@, i as int);
                }
                params[i]
            },
            Op::Const(b) => ins_byte_const(ctx, block, if b { 1 } else { 0 }),
            Op::And => ins_band(ctx, block, values[node.inputs[0]], values[node.inputs[1]]),
            Op::Or => ins_bor(ctx, block, values[node.inputs[0]], values[node.inputs[1]]),
            Op::Not => ins_bnot(ctx, block, values[node.inputs[0]]),
        };
        proof {
            assert(start.body + gate_insts(circuit@, i + 1) =~= fn_state(*ctx).body);
        }
        values.push(v);
        i = i + 1;
    }
    proof {
        if n < k {
            lemma_count_at_most_len(circuit@);
        }
    }
    values
}

/// Builds the circuit's function into `ctx`: one byte parameter per input,
/// one byte result, and a single entry block whose parameters are the inputs
/// and whose body is [`lowered`]: one instruction per gate, the last node's
/// value masked to its low bit, and the return of that masked value.
pub fn generate(ctx: &mut Context, circuit: &Circuit)
    requires
        valid(circuit@),
        fn_state(*old(ctx)) == empty_state(),
        input_count(circuit@) < 65535,
    ensures
        fn_state(*final(ctx)).params == input_count(circuit@),
        fn_state(*final(ctx)).returns == 1,
        fn_state(*final(ctx)).body == lowered(circuit@),
{
    let k = circuit.input_count();
    let mut p: usize = 0;
    while p < k
        invariant
            p <= k,
            fn_state(*ctx) == (FnState { params: p as nat, ..empty_state() }),
        decreases k - p,
    {
        push_byte_param(ctx);
        p = p + 1;
    }
    push_byte_return(ctx);
    let entry = create_block(ctx);
    append_block_to_layout(ctx, entry);
    let mut params: Vec<Value> = Vec::new();
    let mut j: usize = 0;
    while j < k
        invariant
            j <= k,
            k == input_count(circuit@),
            k < 65535,
            params@.len() == j,
            forall|m: int| 0 <= m < j ==> value_index(#[trigger] params@[m]) == m,
            block_index(entry) == 0,
            fn_state(*ctx) == (FnState {
                values: j as nat,
                blocks: 1,
                layout: Set::empty().insert(0nat),
                params: k as nat,
                returns: 1,
                ..empty_state()
            }),
        decreases k - j,
    {
        let v = append_byte_block_param(ctx, entry);
        params.push(v);
        j = j + 1;
    }
    let values = emit_nodes(ctx, entry, &params, circuit);
    let out = values[values.len() - 1];
    let mask = ins_byte_const(ctx, entry, 1);
    let masked = ins_band(ctx, entry, out, mask);
    ins_return(ctx, entry, masked);
    proof {
        assert(fn_state(*ctx).body =~= lowered(circuit@));
    }
}

} // verus!
