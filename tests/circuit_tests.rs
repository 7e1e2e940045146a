use circuit_jit::circuit::{build_circuit, op_arity, Circuit, Defect, MalformedCircuit, Node, Op};
use circuit_jit::jit::{compile, CompileError};

fn node(op: Op, inputs: Vec<usize>) -> Node {
    Node { op, inputs }
}

fn nand() -> Circuit {
    Circuit::new(vec![
        node(Op::Input, vec![]),
        node(Op::Input, vec![]),
        node(Op::And, vec![0, 1]),
        node(Op::Not, vec![2]),
    ])
}

// out = sel ? b : a, over inputs [a, b, sel]
fn mux() -> Circuit {
    Circuit::new(vec![
        node(Op::Input, vec![]),
        node(Op::Input, vec![]),
        node(Op::Input, vec![]),
        node(Op::Not, vec![2]),
        node(Op::And, vec![0, 3]),
        node(Op::And, vec![1, 2]),
        node(Op::Or, vec![4, 5]),
    ])
}

#[test]
fn nand_truth_table() {
    let c = nand();
    assert_eq!(c.simulate(&[0, 0]), Some(1));
    assert_eq!(c.simulate(&[0, 1]), Some(1));
    assert_eq!(c.simulate(&[1, 0]), Some(1));
    assert_eq!(c.simulate(&[1, 1]), Some(0));
    assert_eq!(c.evaluate(&[false, false]), Some(true));
    assert_eq!(c.evaluate(&[false, true]), Some(true));
    assert_eq!(c.evaluate(&[true, false]), Some(true));
    assert_eq!(c.evaluate(&[true, true]), Some(false));
}

#[test]
fn masking_keeps_only_the_low_bit() {
    let c = nand();
    assert_eq!(c.simulate(&[1, 1]).unwrap() & 1, 0);
    assert_eq!(c.simulate(&[0, 0]).unwrap() & 1, 1);
    // NOT of 0 is 0xff before the mask; the result is exactly 1.
    assert_eq!(c.simulate(&[0, 0]), Some(1));
    // Non-canonical bytes: 3 & 2 == 2, !2 == 0xfd, masked to 1.
    assert_eq!(c.simulate(&[3, 2]), Some(1));
    // 3 & 7 == 3, !3 == 0xfc, masked to 0: the low bits 1 and 1 decide.
    assert_eq!(c.simulate(&[3, 7]), Some(0));
}

#[test]
fn forward_reference_is_rejected() {
    let c = Circuit::new(vec![
        node(Op::Input, vec![]),
        node(Op::Input, vec![]),
        node(Op::And, vec![0, 3]),
        node(Op::Not, vec![2]),
    ]);
    let expected = MalformedCircuit { index: 2, reason: Defect::ForwardReference { operand: 3 } };
    assert_eq!(c.validate(), Err(expected));
    assert_eq!(compile(&c).err(), Some(CompileError::Malformed(expected)));
}

#[test]
fn self_reference_is_rejected() {
    let c = Circuit::new(vec![node(Op::Input, vec![]), node(Op::Not, vec![1])]);
    assert_eq!(
        c.validate(),
        Err(MalformedCircuit { index: 1, reason: Defect::ForwardReference { operand: 1 } })
    );
}

#[test]
fn and_with_one_input_is_rejected() {
    let c = Circuit::new(vec![
        node(Op::Input, vec![]),
        node(Op::Input, vec![]),
        node(Op::And, vec![0]),
    ]);
    let expected = MalformedCircuit { index: 2, reason: Defect::Arity { expected: 2, found: 1 } };
    assert_eq!(c.validate(), Err(expected));
    assert_eq!(compile(&c).err(), Some(CompileError::Malformed(expected)));
    assert_eq!(c.evaluate(&[true, true]), None);
    assert_eq!(c.simulate(&[1, 1]), None);
}

#[test]
fn input_with_operands_is_rejected() {
    let c = Circuit::new(vec![node(Op::Input, vec![0])]);
    assert_eq!(
        c.validate(),
        Err(MalformedCircuit { index: 0, reason: Defect::Arity { expected: 0, found: 1 } })
    );
}

#[test]
fn empty_circuit_is_rejected() {
    let c = Circuit::new(vec![]);
    let expected = MalformedCircuit { index: 0, reason: Defect::Empty };
    assert_eq!(c.validate(), Err(expected));
    assert_eq!(compile(&c).err(), Some(CompileError::Malformed(expected)));
}

#[test]
fn input_after_gate_is_rejected() {
    let c = Circuit::new(vec![
        node(Op::Input, vec![]),
        node(Op::Const(true), vec![]),
        node(Op::Input, vec![]),
        node(Op::And, vec![0, 2]),
    ]);
    assert_eq!(c.validate(), Err(MalformedCircuit { index: 2, reason: Defect::MisplacedInput }));
}

#[test]
fn first_defect_is_reported() {
    let c = Circuit::new(vec![
        node(Op::Input, vec![]),
        node(Op::Or, vec![0, 5]),
        node(Op::Not, vec![]),
    ]);
    assert_eq!(
        c.validate(),
        Err(MalformedCircuit { index: 1, reason: Defect::ForwardReference { operand: 5 } })
    );
}

#[test]
fn wrong_input_length_gives_none() {
    let c = nand();
    assert_eq!(c.simulate(&[1]), None);
    assert_eq!(c.evaluate(&[true, false, true]), None);
}

#[test]
fn constants_and_or() {
    let c = Circuit::new(vec![
        node(Op::Input, vec![]),
        node(Op::Const(false), vec![]),
        node(Op::Or, vec![0, 1]),
    ]);
    assert_eq!(c.input_count(), 1);
    assert_eq!(c.simulate(&[0]), Some(0));
    assert_eq!(c.simulate(&[1]), Some(1));
    let t = Circuit::new(vec![node(Op::Const(true), vec![])]);
    assert_eq!(t.validate(), Ok(()));
    assert_eq!(t.input_count(), 0);
    assert_eq!(t.simulate(&[]), Some(1));
    assert_eq!(t.evaluate(&[]), Some(true));
}

#[test]
fn mux_matches_reference_over_all_inputs() {
    let c = mux();
    assert_eq!(c.input_count(), 3);
    for bits in 0u8..8 {
        let a = bits & 1;
        let b = (bits >> 1) & 1;
        let sel = (bits >> 2) & 1;
        let expected = if sel == 1 { b } else { a };
        assert_eq!(c.simulate(&[a, b, sel]), Some(expected));
        assert_eq!(c.evaluate(&[a == 1, b == 1, sel == 1]), Some(expected == 1));
    }
}

#[test]
fn simulation_is_repeatable() {
    let c = mux();
    for bits in 0u8..8 {
        let input = [bits & 1, (bits >> 1) & 1, (bits >> 2) & 1];
        assert_eq!(c.simulate(&input), c.simulate(&input));
    }
}

#[test]
fn op_arities() {
    assert_eq!(op_arity(Op::Input), 0);
    assert_eq!(op_arity(Op::Const(false)), 0);
    assert_eq!(op_arity(Op::Not), 1);
    assert_eq!(op_arity(Op::And), 2);
    assert_eq!(op_arity(Op::Or), 2);
}

#[test]
fn built_circuit_is_nand() {
    let c = build_circuit();
    assert_eq!(c.len(), 4);
    assert_eq!(c.node(2).op, Op::And);
    assert_eq!(c.node(2).inputs, vec![0, 1]);
    assert_eq!(c.node(3).op, Op::Not);
    assert_eq!(c.validate(), Ok(()));
    assert_eq!(c.input_count(), 2);
    assert_eq!(c.simulate(&[1, 1]), Some(0));
    assert_eq!(c.simulate(&[1, 0]), Some(1));
}

#[test]
fn compile_valid_circuits() {
    let f = compile(&nand()).ok().unwrap();
    assert_eq!(f.arity(), 2);
    let g = compile(&mux()).ok().unwrap();
    assert_eq!(g.arity(), 3);
    let again = compile(&nand()).ok().unwrap();
    assert_eq!(again.arity(), f.arity());
}

#[test]
fn compile_constants_and_bare_inputs() {
    let consts = Circuit::new(vec![
        node(Op::Input, vec![]),
        node(Op::Const(true), vec![]),
        node(Op::Const(false), vec![]),
        node(Op::Or, vec![1, 2]),
        node(Op::And, vec![0, 3]),
    ]);
    let f = compile(&consts).ok().unwrap();
    assert_eq!(f.arity(), 1);
    let bare = Circuit::new(vec![node(Op::Input, vec![]), node(Op::Input, vec![])]);
    let g = compile(&bare).ok().unwrap();
    assert_eq!(g.arity(), 2);
    assert_eq!(bare.simulate(&[0, 3]), Some(1));
    let only_const = Circuit::new(vec![node(Op::Const(false), vec![])]);
    assert_eq!(compile(&only_const).ok().unwrap().arity(), 0);
}
