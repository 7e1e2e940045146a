//! The JIT backend: validation, code generation and finalization in
//! sequence, yielding a compiled function that owns its executable memory.

use crate::backend::{
    clear_context, declare_export, define_function, finalize_definitions, fn_state,
    host_jit_builder, make_context, new_jit_module, Inst,
};
use crate::circuit::{
    bit, input_count, is_first_defect, lemma_output_is_truth_table, low_bits, truth_output, valid,
    Circuit, MalformedCircuit, Node,
};
use crate::codegen::{generate, lemma_lowered_computes_output, lowered, run_body};
use cranelift_jit::JITModule;
use cranelift_module::FuncId;
use vstd::prelude::*;

verus! {

/// Why a circuit could not be compiled.
#[derive(Clone, Copy, Debug, PartialEq, Eq, Structural)]
pub enum CompileError {
    /// The circuit failed validation; no code was generated.
    Malformed(MalformedCircuit),
    /// The backend could not produce or finalize machine code: the host is
    /// not supported, the function has more parameters than one block can
    /// take, or declaring, compiling or finalizing failed.
    Build,
}

/// A circuit compiled to native code. It owns the module whose executable
/// memory holds the function, so the entry point stays valid for exactly as
/// long as this value lives.
pub struct CompiledCircuit {
    module: JITModule,
    func: FuncId,
    arity: usize,
    source: Ghost<Seq<Node>>,
    program: Ghost<Seq<Inst>>,
}

impl CompiledCircuit {
    /// The nodes of the circuit this function was compiled from.
    pub closed spec fn source(&self) -> Seq<Node> {
        self.source@
    }

    /// The instructions of the function body handed to the backend, whose
    /// entry block's parameters are the values `0 .. arity`.
    pub closed spec fn program(&self) -> Seq<Inst> {
        self.program@
    }

    /// What the function body handed to the backend returns for the given
    /// parameter bytes, reading each instruction with its bitwise meaning.
    pub open spec fn computes(&self, inputs: Seq<u8>) -> Option<u8> {
        run_body(self.program(), inputs)
    }

    /// The body is the lowering of a valid source circuit, with one
    /// parameter per input of that circuit.
    pub open spec fn wf(&self) -> bool {
        &&& valid(self.source())
        &&& self.program() == lowered(self.source())
        &&& self.spec_arity() == input_count(self.source())
    }

    /// Number of byte parameters of the compiled function.
    pub closed spec fn spec_arity(&self) -> nat {
        self.arity as nat
    }

    /// Number of byte parameters of the compiled function: the circuit's inputs.
    pub fn arity(&self) -> (r: usize)
        ensures
            r == self.spec_arity(),
    {
        self.arity
    }

    /// The module that owns the function's executable memory.
    pub fn module(&self) -> &JITModule {
        &self.module
    }

    /// The finalized function's identifier within [`CompiledCircuit::module`].
    pub fn func_id(&self) -> FuncId {
        self.func
    }
}

/// Compiles a circuit: validates it, generates one function for it, and
/// defines and finalizes that function in a fresh module. The function has
/// one byte parameter per input and one byte result, and its body is
/// [`lowered`] from the circuit.
pub fn compile(circuit: &Circuit) -> (r: Result<CompiledCircuit, CompileError>)
    ensures
        !valid(circuit@) <==> r matches Err(CompileError::Malformed(_)),
        r matches Err(CompileError::Malformed(m)) ==> is_first_defect(circuit@, m),
        valid(circuit@) ==> r is Ok || r == Err::<CompiledCircuit, CompileError>(CompileError::Build),
        r matches Ok(f) ==> f.wf() && f.source() == circuit@ && f.spec_arity() == input_count(
            circuit@,
        ) && f.program() == lowered(circuit@),
{
    match circuit.validate() {
        Err(m) => {
            return Err(CompileError::Malformed(m));
        },
        Ok(()) => {},
    }
    let k = circuit.input_count();
    if k >= 65535 {
        return Err(CompileError::Build);
    }
    let builder = match host_jit_builder() {
        Some(b) => b,
        None => {
            return Err(CompileError::Build);
        },
    };
    let mut module = new_jit_module(builder);
    let mut ctx = make_context(&module);
    generate(&mut ctx, circuit);
    let ghost program = fn_state(ctx).body;
    let func = match declare_export(&mut module, "rtl", &ctx) {
        Ok(id) => id,
        Err(_) => {
            return Err(CompileError::Build);
        },
    };
    if define_function(&mut module, func, &mut ctx).is_err() {
        return Err(CompileError::Build);
    }
    clear_context(&module, &mut ctx);
    if finalize_definitions(&mut module).is_err() {
        return Err(CompileError::Build);
    }
    Ok(CompiledCircuit { module, func, arity: k, source: Ghost(circuit@), program: Ghost(program) })
}

/// A compiled circuit computes the circuit's truth table: for every tuple of
/// parameter bytes its body returns 1 where the reference interpreter, run on
/// the bytes' low bits, gives true, and 0 where it gives false. Inputs other
/// than 0 and 1 count by their low bit alone.
pub proof fn lemma_compiled_is_truth_table(f: &CompiledCircuit, inputs: Seq<u8>)
    requires
        f.wf(),
        inputs.len() == f.spec_arity(),
    ensures
        f.computes(inputs) == Some(bit(truth_output(f.source(), low_bits(inputs)))),
{
    lemma_lowered_computes_output(f.source(), inputs);
    lemma_output_is_truth_table(f.source(), inputs);
}

/// Compilation is deterministic: two functions compiled from the same circuit
/// have the same body, so they return the same byte for the same inputs, and
/// so does one function called twice.
pub proof fn lemma_same_circuit_same_mapping(f: &CompiledCircuit, g: &CompiledCircuit, inputs: Seq<u8>)
    requires
        f.wf(),
        g.wf(),
        f.source() == g.source(),
    ensures
        f.program() == g.program(),
        f.computes(inputs) == g.computes(inputs),
{
}

} // verus!
