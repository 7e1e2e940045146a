//! The code-generation backend: Cranelift's types as opaque values, a model of
//! the function under construction, and one thin trusted wrapper per Cranelift
//! call that the compiler makes.

use cranelift_codegen::cursor::{Cursor, FuncCursor};
use cranelift_codegen::ir::{types, AbiParam, Block, InstBuilder, Value};
use cranelift_codegen::{settings, Context};
use cranelift_jit::{JITBuilder, JITModule};
use cranelift_module::{FuncId, Linkage, Module, ModuleError};
use vstd::prelude::*;

verus! {

#[verifier::external_type_specification]
#[verifier::external_body]
pub struct ExValue(Value);

#[verifier::external_type_specification]
#[verifier::external_body]
pub struct ExBlock(Block);

#[verifier::external_type_specification]
#[verifier::external_body]
pub struct ExContext(Context);

#[verifier::external_type_specification]
#[verifier::external_body]
pub struct ExJITBuilder(JITBuilder);

#[verifier::external_type_specification]
#[verifier::external_body]
pub struct ExJITModule(JITModule);

#[verifier::external_type_specification]
#[verifier::external_body]
pub struct ExFuncId(FuncId);

#[verifier::external_type_specification]
#[verifier::external_body]
pub struct ExModuleError(ModuleError);

/// One instruction of the function body, over value numbers.
pub enum Inst {
    /// `dst = iconst.i8 imm`
    Const { dst: nat, imm: u8 },
    /// `dst = band a, b`
    Band { dst: nat, a: nat, b: nat },
    /// `dst = bor a, b`
    Bor { dst: nat, a: nat, b: nat },
    /// `dst = bnot a`
    Bnot { dst: nat, a: nat },
    /// `return v`
    Return { v: nat },
}

/// Model of the function held in a context: how many values and blocks its
/// data-flow graph has, which blocks are in the layout, the instructions
/// created so far in order, and the signature's parameter and result counts.
pub struct FnState {
    pub values: nat,
    pub blocks: nat,
    pub layout: Set<nat>,
    pub body: Seq<Inst>,
    pub params: nat,
    pub returns: nat,
}

/// The state of a freshly made or cleared context: an empty function.
pub open spec fn empty_state() -> FnState {
    FnState {
        values: 0,
        blocks: 0,
        layout: Set::empty(),
        body: Seq::empty(),
        params: 0,
        returns: 0,
    }
}

/// The function under construction in a context.
pub uninterp spec fn fn_state(ctx: Context) -> FnState;

/// A value's number in its function's data-flow graph.
pub uninterp spec fn value_index(v: Value) -> nat;

/// A block's number in its function's data-flow graph.
pub uninterp spec fn block_index(b: Block) -> nat;

/// Whether a function of this name has been declared in the module under `id`.
pub uninterp spec fn declares(module: JITModule, id: FuncId) -> bool;

/// A new instruction with one result: the result is the next value number.
pub open spec fn defines(old: FnState, new: FnState, r: Value, inst: Inst) -> bool {
    &&& value_index(r) == old.values
    &&& new == FnState { values: old.values + 1, body: old.body.push(inst), ..old }
}

/// Relies on `cranelift_native::builder`, `isa::Builder::finish` with default
/// `settings::Flags`, and `JITBuilder::with_isa` with
/// `cranelift_module::default_libcall_names`: a builder for the host machine,
/// or `None` where the host is not supported or its ISA cannot be built.
#[verifier::external_body]
pub(crate) fn host_jit_builder() -> (r: Option<JITBuilder>) {
    let isa_builder = cranelift_native::builder().ok()?;
    let isa = isa_builder.finish(settings::Flags::new(settings::builder())).ok()?;
    Some(JITBuilder::with_isa(isa, cranelift_module::default_libcall_names()))
}

/// Relies on `JITModule::new`: a fresh module that owns its executable memory.
/// Its one assertion asks for `is_pic` off or an x86-64 host; the builders
/// above use default flags, where `is_pic` is off.
#[verifier::external_body]
pub(crate) fn new_jit_module(builder: JITBuilder) -> (r: JITModule) {
    JITModule::new(builder)
}

/// Relies on `Module::make_context`: a context holding an empty function.
#[verifier::external_body]
pub(crate) fn make_context(module: &JITModule) -> (r: Context)
    ensures
        fn_state(r) == empty_state(),
{
    module.make_context()
}

/// Relies on `Module::clear_context`: the context holds an empty function again.
#[verifier::external_body]
pub(crate) fn clear_context(module: &JITModule, ctx: &mut Context)
    ensures
        fn_state(*final(ctx)) == empty_state(),
{
    module.clear_context(ctx)
}

/// Relies on `AbiParam::new(types::I8)` pushed onto the signature's
/// parameters: the function gains one byte-wide parameter.
#[verifier::external_body]
pub(crate) fn push_byte_param(ctx: &mut Context)
    ensures
        fn_state(*final(ctx)) == (FnState { params: fn_state(*old(ctx)).params + 1, ..fn_state(*old(ctx)) }),
{
    ctx.func.signature.params.push(AbiParam::new(types::I8))
}

/// Relies on `AbiParam::new(types::I8)` pushed onto the signature's returns:
/// the function gains one byte-wide result.
#[verifier::external_body]
pub(crate) fn push_byte_return(ctx: &mut Context)
    ensures
        fn_state(*final(ctx)) == (FnState { returns: fn_state(*old(ctx)).returns + 1, ..fn_state(*old(ctx)) }),
{
    ctx.func.signature.returns.push(AbiParam::new(types::I8))
}

/// Relies on `DataFlowGraph::make_block`: a new block, numbered next.
#[verifier::external_body]
pub(crate) fn create_block(ctx: &mut Context) -> (r: Block)
    ensures
        block_index(r) == fn_state(*old(ctx)).blocks,
        fn_state(*final(ctx)) == (FnState { blocks: fn_state(*old(ctx)).blocks + 1, ..fn_state(*old(ctx)) }),
{
    ctx.func.dfg.make_block()
}

/// Relies on `Layout::append_block`: the block becomes the last in the layout.
#[verifier::external_body]
pub(crate) fn append_block_to_layout(ctx: &mut Context, block: Block)
    requires
        block_index(block) < fn_state(*old(ctx)).blocks,
        !fn_state(*old(ctx)).layout.contains(block_index(block)),
    ensures
        fn_state(*final(ctx)) == (FnState {
            layout: fn_state(*old(ctx)).layout.insert(block_index(block)),
            ..fn_state(*old(ctx))
        }),
{
    ctx.func.layout.append_block(block)
}

/// Relies on `DataFlowGraph::append_block_param` at type `I8`: a new block
/// parameter, which is the next value number.
#[verifier::external_body]
pub(crate) fn append_byte_block_param(ctx: &mut Context, block: Block) -> (r: Value)
    requires
        block_index(block) < fn_state(*old(ctx)).blocks,
        fn_state(*old(ctx)).values < 65535,
    ensures
        value_index(r) == fn_state(*old(ctx)).values,
        fn_state(*final(ctx)) == (FnState { values: fn_state(*old(ctx)).values + 1, ..fn_state(*old(ctx)) }),
{
    ctx.func.dfg.append_block_param(block, types::I8)
}

/// Relies on `InstBuilder::iconst` at type `I8`, appended at the bottom of
/// `block` through a `FuncCursor`: loads the byte `imm`.
#[verifier::external_body]
pub(crate) fn ins_byte_const(ctx: &mut Context, block: Block, imm: u8) -> (r: Value)
    requires
        fn_state(*old(ctx)).layout.contains(block_index(block)),
        imm <= 1,
    ensures
        defines(fn_state(*old(ctx)), fn_state(*final(ctx)), r, Inst::Const { dst: value_index(r), imm }),
{
    FuncCursor::new(&mut ctx.func).at_bottom(block).ins().iconst(types::I8, imm as i64)
}

/// Relies on `InstBuilder::band`, appended at the bottom of `block` through a
/// `FuncCursor`: the bitwise AND of two values.
#[verifier::external_body]
pub(crate) fn ins_band(ctx: &mut Context, block: Block, a: Value, b: Value) -> (r: Value)
    requires
        fn_state(*old(ctx)).layout.contains(block_index(block)),
        value_index(a) < fn_state(*old(ctx)).values,
        value_index(b) < fn_state(*old(ctx)).values,
    ensures
        defines(
            fn_state(*old(ctx)),
            fn_state(*final(ctx)),
            r,
            Inst::Band { dst: value_index(r), a: value_index(a), b: value_index(b) },
        ),
{
    FuncCursor::new(&mut ctx.func).at_bottom(block).ins().band(a, b)
}

/// Relies on `InstBuilder::bor`, appended at the bottom of `block` through a
/// `FuncCursor`: the bitwise OR of two values.
#[verifier::external_body]
pub(crate) fn ins_bor(ctx: &mut Context, block: Block, a: Value, b: Value) -> (r: Value)
    requires
        fn_state(*old(ctx)).layout.contains(block_index(block)),
        value_index(a) < fn_state(*old(ctx)).values,
        value_index(b) < fn_state(*old(ctx)).values,
    ensures
        defines(
            fn_state(*old(ctx)),
            fn_state(*final(ctx)),
            r,
            Inst::Bor { dst: value_index(r), a: value_index(a), b: value_index(b) },
        ),
{
    FuncCursor::new(&mut ctx.func).at_bottom(block).ins().bor(a, b)
}

/// Relies on `InstBuilder::bnot`, appended at the bottom of `block` through a
/// `FuncCursor`: the bitwise complement of a value.
#[verifier::external_body]
pub(crate) fn ins_bnot(ctx: &mut Context, block: Block, a: Value) -> (r: Value)
    requires
        fn_state(*old(ctx)).layout.contains(block_index(block)),
        value_index(a) < fn_state(*old(ctx)).values,
    ensures
        defines(
            fn_state(*old(ctx)),
            fn_state(*final(ctx)),
            r,
            Inst::Bnot { dst: value_index(r), a: value_index(a) },
        ),
{
    FuncCursor::new(&mut ctx.func).at_bottom(block).ins().bnot(a)
}

/// Relies on `InstBuilder::return_`, appended at the bottom of `block`
/// through a `FuncCursor`: ends the block by returning `v`.
#[verifier::external_body]
pub(crate) fn ins_return(ctx: &mut Context, block: Block, v: Value)
    requires
        fn_state(*old(ctx)).layout.contains(block_index(block)),
        value_index(v) < fn_state(*old(ctx)).values,
    ensures
        fn_state(*final(ctx)) == (FnState {
            body: fn_state(*old(ctx)).body.push(Inst::Return { v: value_index(v) }),
            ..fn_state(*old(ctx))
        }),
{
    FuncCursor::new(&mut ctx.func).at_bottom(block).ins().return_(&[v]);
}

/// Relies on `Module::declare_function` with `Linkage::Export` and the
/// context's signature: the identifier of the declared function, or the error.
#[verifier::external_body]
pub(crate) fn declare_export(module: &mut JITModule, name: &str, ctx: &Context) -> (r: Result<
    FuncId,
    ModuleError,
>)
    ensures
        r matches Ok(id) ==> declares(*final(module), id),
{
    module.declare_function(name, Linkage::Export, &ctx.func.signature)
}

/// Relies on `Module::define_function`: compiles the context's function to
/// machine code under `id`, a function declared in this module, or reports
/// the error.
#[verifier::external_body]
pub(crate) fn define_function(module: &mut JITModule, id: FuncId, ctx: &mut Context) -> (r: Result<
    (),
    ModuleError,
>)
    requires
        declares(*old(module), id),
{
    module.define_function(id, ctx)
}

/// Relies on `JITModule::finalize_definitions`: applies relocations and makes
/// the defined functions executable, or reports the error.
#[verifier::external_body]
pub(crate) fn finalize_definitions(module: &mut JITModule) -> (r: Result<(), ModuleError>) {
    module.finalize_definitions()
}

} // verus!
