//! The hardware-description operation catalog: the schema table a hardware
//! dialect supplies to the generic core, and the construction of a sample
//! hardware module — macro declarations, a constant, a local parameter, a
//! clocked procedural block guarded by a conditional-compilation region, all
//! inside one module with three typed input ports.

use vstd::prelude::*;
use vstd::string::StringExecFns;

use crate::builder::{attr_names_unique, build_operation};
use crate::context::{AttrDesc, Context, Direction, IntBase, Port, TypeDesc, ctx_wf};
use crate::context::{attr_desc_ok, intern_attr_post, intern_type_post, type_desc_ok};
use crate::context::{AttrId, TypeId};
use crate::ir::{AttrBinding, Block, Location, Operation, Region, ValueId};
use crate::printer::{PrintOptions, op_text, print};
use crate::schema::{AttrKindReq, AttrReq, BlockArgReq, BlockCountReq, RegionReq, SchemaEntry};
use crate::schema::{schema_lookup, schema_lookup_from};
use crate::validate::{
    arg_ids, attr_req_met, block_args_ok, block_term_ok, block_valid, blocks_valid, find_attr,
    find_attr_from, ids_of, input_tys, input_tys_upto, op_conforms, op_valid, ops_valid,
    region_rule, region_valid, regions_valid, results_upto, sig_input_tys,
};

verus! {

/// The exact content of the hardware schema table, entry by entry: kinds,
/// required attributes, arities and region rules.
pub open spec fn hw_schema_spec(tbl: Seq<SchemaEntry>) -> bool {
    &&& tbl.len() == 8
    &&& tbl[0].kind@ == "builtin.module"@
    &&& tbl[0].attr_reqs@.len() == 0
    &&& tbl[0].num_operands == 0
    &&& tbl[0].num_results == 0
    &&& tbl[0].region_reqs@.len() == 1
    &&& tbl[0].region_reqs@[0].blocks == BlockCountReq::Exactly { count: 1 }
    &&& (tbl[0].region_reqs@[0].args matches BlockArgReq::Exactly { count } && count == 0)
    &&& tbl[0].region_reqs@[0].terminator is None
    &&& tbl[1].kind@ == "hw.module"@
    &&& tbl[1].attr_reqs@.len() == 3
    &&& tbl[1].attr_reqs@[0].name@ == "sym_name"@
    &&& tbl[1].attr_reqs@[0].req == AttrKindReq::Str
    &&& tbl[1].attr_reqs@[1].name@ == "module_type"@
    &&& tbl[1].attr_reqs@[1].req == AttrKindReq::TypeRef
    &&& tbl[1].attr_reqs@[2].name@ == "parameters"@
    &&& tbl[1].attr_reqs@[2].req == AttrKindReq::Array
    &&& tbl[1].num_operands == 0
    &&& tbl[1].num_results == 0
    &&& tbl[1].region_reqs@.len() == 1
    &&& tbl[1].region_reqs@[0].blocks == BlockCountReq::Exactly { count: 1 }
    &&& (tbl[1].region_reqs@[0].args matches BlockArgReq::FromSignature { attr } && attr@
        == "module_type"@)
    &&& (tbl[1].region_reqs@[0].terminator matches Option::Some(t) && t@ == "hw.output"@)
    &&& tbl[2].kind@ == "hw.constant"@
    &&& tbl[2].attr_reqs@.len() == 1
    &&& tbl[2].attr_reqs@[0].name@ == "value"@
    &&& tbl[2].attr_reqs@[0].req == AttrKindReq::IntOfResult { result: 0 }
    &&& tbl[2].num_operands == 0
    &&& tbl[2].num_results == 1
    &&& tbl[2].region_reqs@.len() == 0
    &&& tbl[3].kind@ == "hw.output"@
    &&& tbl[3].attr_reqs@.len() == 0
    &&& tbl[3].num_operands == 0
    &&& tbl[3].num_results == 0
    &&& tbl[3].region_reqs@.len() == 0
    &&& tbl[4].kind@ == "sv.macro.decl"@
    &&& tbl[4].attr_reqs@.len() == 1
    &&& tbl[4].attr_reqs@[0].name@ == "sym_name"@
    &&& tbl[4].attr_reqs@[0].req == AttrKindReq::Str
    &&& tbl[4].num_operands == 0
    &&& tbl[4].num_results == 0
    &&& tbl[4].region_reqs@.len() == 0
    &&& tbl[5].kind@ == "sv.localparam"@
    &&& tbl[5].attr_reqs@.len() == 2
    &&& tbl[5].attr_reqs@[0].name@ == "value"@
    &&& tbl[5].attr_reqs@[0].req == AttrKindReq::AnyInt
    &&& tbl[5].attr_reqs@[1].name@ == "name"@
    &&& tbl[5].attr_reqs@[1].req == AttrKindReq::Str
    &&& tbl[5].num_operands == 0
    &&& tbl[5].num_results == 1
    &&& tbl[5].region_reqs@.len() == 0
    &&& tbl[6].kind@ == "sv.always"@
    &&& tbl[6].attr_reqs@.len() == 1
    &&& tbl[6].attr_reqs@[0].name@ == "events"@
    &&& tbl[6].attr_reqs@[0].req == AttrKindReq::Array
    &&& tbl[6].num_operands == 1
    &&& tbl[6].num_results == 0
    &&& tbl[6].region_reqs@.len() == 1
    &&& tbl[6].region_reqs@[0].blocks == BlockCountReq::Exactly { count: 1 }
    &&& (tbl[6].region_reqs@[0].args matches BlockArgReq::Exactly { count } && count == 0)
    &&& tbl[6].region_reqs@[0].terminator is None
    &&& tbl[7].kind@ == "sv.ifdef.procedural"@
    &&& tbl[7].attr_reqs@.len() == 1
    &&& tbl[7].attr_reqs@[0].name@ == "cond"@
    &&& tbl[7].attr_reqs@[0].req == AttrKindReq::Str
    &&& tbl[7].num_operands == 0
    &&& tbl[7].num_results == 0
    &&& tbl[7].region_reqs@.len() == 2
    &&& tbl[7].region_reqs@[0].blocks == BlockCountReq::Exactly { count: 1 }
    &&& (tbl[7].region_reqs@[0].args matches BlockArgReq::Exactly { count } && count == 0)
    &&& tbl[7].region_reqs@[0].terminator is None
    &&& tbl[7].region_reqs@[1].blocks == BlockCountReq::Exactly { count: 1 }
    &&& (tbl[7].region_reqs@[1].args matches BlockArgReq::Exactly { count } && count == 0)
    &&& tbl[7].region_reqs@[1].terminator is None
}

/// The schema table of the hardware dialect: module container, module,

/// constant, output terminator, macro declaration, local parameter, clocked
/// procedural block and conditional-compilation guard.
pub fn hw_schema() -> (tbl: Vec<SchemaEntry>)
    ensures
        hw_schema_spec(tbl@),
{
    let mut tbl: Vec<SchemaEntry> = Vec::new();
    let mut module_regions: Vec<RegionReq> = Vec::new();
    module_regions.push(
        RegionReq {
            blocks: BlockCountReq::Exactly { count: 1 },
            args: BlockArgReq::Exactly { count: 0 },
            terminator: None,
        },
    );
    tbl.push(
        SchemaEntry {
            kind: String::from_str("builtin.module"),
            attr_reqs: Vec::new(),
            num_operands: 0,
            num_results: 0,
            region_reqs: module_regions,
        },
    );
    let mut hw_module_attrs: Vec<AttrReq> = Vec::new();
    hw_module_attrs.push(AttrReq { name: String::from_str("sym_name"), req: AttrKindReq::Str });
    hw_module_attrs.push(
        AttrReq { name: String::from_str("module_type"), req: AttrKindReq::TypeRef },
    );
    hw_module_attrs.push(AttrReq { name: String::from_str("parameters"), req: AttrKindReq::Array });
    let mut hw_module_regions: Vec<RegionReq> = Vec::new();
    hw_module_regions.push(
        RegionReq {
            blocks: BlockCountReq::Exactly { count: 1 },
            args: BlockArgReq::FromSignature { attr: String::from_str("module_type") },
            terminator: Some(String::from_str("hw.output")),
        },
    );
    tbl.push(
        SchemaEntry {
            kind: String::from_str("hw.module"),
            attr_reqs: hw_module_attrs,
            num_operands: 0,
            num_results: 0,
            region_reqs: hw_module_regions,
        },
    );
    let mut constant_attrs: Vec<AttrReq> = Vec::new();
    constant_attrs.push(
        AttrReq { name: String::from_str("value"), req: AttrKindReq::IntOfResult { result: 0 } },
    );
    tbl.push(
        SchemaEntry {
            kind: String::from_str("hw.constant"),
            attr_reqs: constant_attrs,
            num_operands: 0,
            num_results: 1,
            region_reqs: Vec::new(),
        },
    );
    tbl.push(
        SchemaEntry {
            kind: String::from_str("hw.output"),
            attr_reqs: Vec::new(),
            num_operands: 0,
            num_results: 0,
            region_reqs: Vec::new(),
        },
    );
    let mut macro_attrs: Vec<AttrReq> = Vec::new();
    macro_attrs.push(AttrReq { name: String::from_str("sym_name"), req: AttrKindReq::Str });
    tbl.push(
        SchemaEntry {
            kind: String::from_str("sv.macro.decl"),
            attr_reqs: macro_attrs,
            num_operands: 0,
            num_results: 0,
            region_reqs: Vec::new(),
        },
    );
    let mut param_attrs: Vec<AttrReq> = Vec::new();
    param_attrs.push(AttrReq { name: String::from_str("value"), req: AttrKindReq::AnyInt });
    param_attrs.push(AttrReq { name: String::from_str("name"), req: AttrKindReq::Str });
    tbl.push(
        SchemaEntry {
            kind: String::from_str("sv.localparam"),
            attr_reqs: param_attrs,
            num_operands: 0,
            num_results: 1,
            region_reqs: Vec::new(),
        },
    );
    let mut always_attrs: Vec<AttrReq> = Vec::new();
    always_attrs.push(AttrReq { name: String::from_str("events"), req: AttrKindReq::Array });
    let mut always_regions: Vec<RegionReq> = Vec::new();
    always_regions.push(
        RegionReq {
            blocks: BlockCountReq::Exactly { count: 1 },
            args: BlockArgReq::Exactly { count: 0 },
            terminator: None,
        },
    );
    tbl.push(
        SchemaEntry {
            kind: String::from_str("sv.always"),
            attr_reqs: always_attrs,
            num_operands: 1,
            num_results: 0,
            region_reqs: always_regions,
        },
    );
    let mut ifdef_attrs: Vec<AttrReq> = Vec::new();
    ifdef_attrs.push(AttrReq { name: String::from_str("cond"), req: AttrKindReq::Str });
    let mut ifdef_regions: Vec<RegionReq> = Vec::new();
    ifdef_regions.push(
        RegionReq {
            blocks: BlockCountReq::Exactly { count: 1 },
            args: BlockArgReq::Exactly { count: 0 },
            terminator: None,
        },
    );
    ifdef_regions.push(
        RegionReq {
            blocks: BlockCountReq::Exactly { count: 1 },
            args: BlockArgReq::Exactly { count: 0 },
            terminator: None,
        },
    );
    tbl.push(
        SchemaEntry {
            kind: String::from_str("sv.ifdef.procedural"),
            attr_reqs: ifdef_attrs,
            num_operands: 0,
            num_results: 0,
            region_reqs: ifdef_regions,
        },
    );
    tbl
}

/// Interns a type known to be acceptable.
fn intern_type_ok(ctx: &mut Context, desc: TypeDesc) -> (h: TypeId)
    requires
        ctx_wf(*old(ctx)),
        type_desc_ok(old(ctx).types@.len() as int, desc),
    ensures
        ctx_wf(*final(ctx)),
        final(ctx).attrs@ == old(ctx).attrs@,
        final(ctx).next_value == old(ctx).next_value,
        intern_type_post(old(ctx).types@, desc, final(ctx).types@, h.idx as int),
{
    match ctx.intern_type(desc) {
        Ok(h) => h,
        Err(_) => {
            proof {
                assert(false);
            }
            TypeId { idx: 0 }
        },
    }
}

/// Interns an attribute known to be acceptable.
fn intern_attr_ok(ctx: &mut Context, desc: AttrDesc) -> (h: AttrId)
    requires
        ctx_wf(*old(ctx)),
        attr_desc_ok(old(ctx).types@.len() as int, old(ctx).attrs@.len() as int, desc),
    ensures
        ctx_wf(*final(ctx)),
        final(ctx).types@ == old(ctx).types@,
        final(ctx).next_value == old(ctx).next_value,
        intern_attr_post(old(ctx).attrs@, desc, final(ctx).attrs@, h.idx as int),
{
    match ctx.intern_attr(desc) {
        Ok(h) => h,
        Err(_) => {
            proof {
                assert(false);
            }
            AttrId { idx: 0 }
        },
    }
}

/// Appends an operation whose regions are known complete.
fn append_op_ok(b: &mut Block, op: Operation)
    requires
        op.regions@.len() == op.declared_regions,
    ensures
        final(b).args@ == old(b).args@,
        final(b).ops@ == old(b).ops@.push(op),
{
    match b.append_operation(op) {
        Ok(()) => {},
        Err(_) => {
            proof {
                assert(false);
            }
        },
    }
}

/// Attaches a region into an operation known to have a free slot.
fn attach_region_ok(op: &mut Operation, r: Region)
    requires
        old(op).regions@.len() < old(op).declared_regions,
    ensures
        final(op).regions@ == old(op).regions@.push(r),
        final(op).kind == old(op).kind,
        final(op).attrs@ == old(op).attrs@,
        final(op).operands@ == old(op).operands@,
        final(op).results@ == old(op).results@,
        final(op).declared_regions == old(op).declared_regions,
        final(op).loc == old(op).loc,
{
    match op.attach_region(r) {
        Ok(()) => {},
        Err(_) => {
            proof {
                assert(false);
            }
        },
    }
}

/// Builds an operation whose inputs are known acceptable.
fn build_op_ok(
    ctx: &mut Context,
    kind: String,
    attrs: Vec<AttrBinding>,
    operands: Vec<ValueId>,
    result_types: Vec<TypeId>,
    region_count: usize,
    loc: Location,
) -> (op: Operation)
    requires
        old(ctx).next_value + result_types@.len() <= u64::MAX,
        attr_names_unique(attrs@),
        crate::builder::attr_handles_ok(attrs@, old(ctx).attrs@.len() as int),
        crate::builder::type_handles_ok(result_types@, old(ctx).types@.len() as int),
    ensures
        final(ctx).types@ == old(ctx).types@,
        final(ctx).attrs@ == old(ctx).attrs@,
        final(ctx).next_value == old(ctx).next_value + result_types@.len(),
        op.kind == kind,
        op.attrs@ == attrs@,
        op.operands@ == operands@,
        op.results@.len() == result_types@.len(),
        forall|i: int|
            0 <= i < result_types@.len() ==> (#[trigger] op.results@[i]).ty == result_types@[i]
                && op.results@[i].id.num == old(ctx).next_value + i,
        op.regions@.len() == 0,
        op.declared_regions == region_count,
        op.loc == loc,
{
    match build_operation(ctx, kind, attrs, operands, result_types, region_count, loc) {
        Ok(op) => op,
        Err(_) => {
            proof {
                assert(false);
            }
            Operation {
                kind: String::new(),
                attrs: Vec::new(),
                operands: Vec::new(),
                results: Vec::new(),
                regions: Vec::new(),
                declared_regions: 0,
                loc,
            }
        },
    }
}

/// Appends a block argument whose type handle is known to resolve.
fn add_arg_ok(b: &mut Block, ctx: &mut Context, ty: TypeId, loc: Location) -> (v: ValueId)
    requires
        old(ctx).next_value < u64::MAX,
        ty.idx < old(ctx).types@.len(),
    ensures
        final(ctx).types@ == old(ctx).types@,
        final(ctx).attrs@ == old(ctx).attrs@,
        final(ctx).next_value == old(ctx).next_value + 1,
        v.num == old(ctx).next_value,
        final(b).args@ == old(b).args@.push(crate::ir::BlockArg { ty, loc, id: v }),
        final(b).ops@ == old(b).ops@,
{
    match b.add_argument(ctx, ty, loc) {
        Ok(v) => v,
        Err(_) => {
            proof {
                assert(false);
            }
            ValueId { num: 0 }
        },
    }
}

/// The named attribute of this operation resolves to a string attribute
/// with this text.
pub open spec fn op_attr_is_str(ctx: Context, op: Operation, name: Seq<char>, text: Seq<char>) -> bool {
    &&& find_attr(op.attrs@, name) is Some
    &&& {
        let h = find_attr(op.attrs@, name)->Some_0;
        &&& h.idx < ctx.attrs@.len()
        &&& (ctx.attrs@[h.idx as int] matches AttrDesc::Str { text: t } && t@ == text)
    }
}

/// The named attribute of this operation resolves to exactly this integer
/// attribute.
pub open spec fn op_attr_is_int(
    ctx: Context,
    op: Operation,
    name: Seq<char>,
    signed: bool,
    width: u64,
    value: u64,
    base: IntBase,
) -> bool {
    &&& find_attr(op.attrs@, name) is Some
    &&& {
        let h = find_attr(op.attrs@, name)->Some_0;
        &&& h.idx < ctx.attrs@.len()
        &&& (ctx.attrs@[h.idx as int] matches AttrDesc::Int {
            signed: s,
            width: w,
            value: v,
            base: b,
        } && s == signed && w == width && v == value && b == base)
    }
}

/// This type handle resolves to an integer type of this width.
pub open spec fn type_is_int(ctx: Context, ty: TypeId, width: u64) -> bool {
    &&& ty.idx < ctx.types@.len()
    &&& (ctx.types@[ty.idx as int] matches TypeDesc::Int { width: w } && w == width)
}

/// The module's `module_type` attribute references a three-input-port
/// signature named arg0/arg1/arg8 of widths 1, 1 and 8, and the body
/// block's argument types equal those port element types, in order.
pub open spec fn demo_module_signature(ctx: Context, m: Operation, bb: Block) -> bool {
    &&& find_attr(m.attrs@, "module_type"@) is Some
    &&& {
        let h = find_attr(m.attrs@, "module_type"@)->Some_0;
        &&& h.idx < ctx.attrs@.len()
        &&& (ctx.attrs@[h.idx as int] matches AttrDesc::TypeRef { ty } && {
            &&& ty.idx < ctx.types@.len()
            &&& (ctx.types@[ty.idx as int] matches TypeDesc::ModuleSig { ports } && {
                &&& ports@.len() == 3
                &&& ports@[0].name@ == "arg0"@ && ports@[0].dir == Direction::Input
                &&& ports@[1].name@ == "arg1"@ && ports@[1].dir == Direction::Input
                &&& ports@[2].name@ == "arg8"@ && ports@[2].dir == Direction::Input
                &&& type_is_int(ctx, ports@[0].ty, 1)
                &&& type_is_int(ctx, ports@[1].ty, 1)
                &&& type_is_int(ctx, ports@[2].ty, 8)
                &&& bb.args@.len() == 3
                &&& bb.args@[0].ty == ports@[0].ty
                &&& bb.args@[1].ty == ports@[1].ty
                &&& bb.args@[2].ty == ports@[2].ty
            })
        })
    }
}

/// The clocked block's `events` attribute is an array of one entry, a
/// 32-bit unsigned zero (the positive-edge trigger) rendered decimal.
pub open spec fn demo_events(ctx: Context, aw: Operation) -> bool {
    &&& find_attr(aw.attrs@, "events"@) is Some
    &&& {
        let h = find_attr(aw.attrs@, "events"@)->Some_0;
        &&& h.idx < ctx.attrs@.len()
        &&& (ctx.attrs@[h.idx as int] matches AttrDesc::Array { elems } && {
            &&& elems@.len() == 1
            &&& elems@[0].idx < ctx.attrs@.len()
            &&& (ctx.attrs@[elems@[0].idx as int] matches AttrDesc::Int {
                signed,
                width,
                value,
                base,
            } && signed == false && width == 32 && value == 0 && base == IntBase::Dec)
        })
    }
}

/// What `build_demo` promises of the tree it assembles, in full: the
/// structure (a root module whose single block holds three macro
/// declarations and one hardware module; the module's single block binds
/// three arguments and holds a constant, a local parameter, a clocked
/// block guarding a conditional-compilation region, and the output
/// terminator), the content (every attribute value, the signature, the
/// operand binding), and that the tree passes structural verification.
pub open spec fn demo_shape(tbl: Seq<SchemaEntry>, ctx: Context, root: Operation) -> bool {
    let top = root.regions@[0].blocks@[0];
    let m = top.ops@[3];
    let bb = m.regions@[0].blocks@[0];
    let c = bb.ops@[0];
    let p = bb.ops@[1];
    let aw = bb.ops@[2];
    let guard = aw.regions@[0].blocks@[0].ops@[0];
    &&& root.kind@ == "builtin.module"@
    &&& root.declared_regions == 1
    &&& root.regions@.len() == 1
    &&& root.regions@[0].blocks@.len() == 1
    &&& top.args@.len() == 0
    &&& top.ops@.len() == 4
    &&& top.ops@[0].kind@ == "sv.macro.decl"@
    &&& top.ops@[1].kind@ == "sv.macro.decl"@
    &&& top.ops@[2].kind@ == "sv.macro.decl"@
    &&& m.kind@ == "hw.module"@
    &&& m.regions@.len() == 1
    &&& m.regions@[0].blocks@.len() == 1
    &&& bb.args@.len() == 3
    &&& bb.ops@.len() == 4
    &&& c.kind@ == "hw.constant"@
    &&& p.kind@ == "sv.localparam"@
    &&& aw.kind@ == "sv.always"@
    &&& bb.ops@[3].kind@ == "hw.output"@
    &&& aw.regions@.len() == 1
    &&& aw.regions@[0].blocks@.len() == 1
    &&& aw.regions@[0].blocks@[0].args@.len() == 0
    &&& aw.regions@[0].blocks@[0].ops@.len() == 1
    &&& guard.kind@ == "sv.ifdef.procedural"@
    &&& guard.regions@.len() == 2
    &&& guard.regions@[0].blocks@.len() == 1
    &&& guard.regions@[0].blocks@[0].args@.len() == 0
    &&& guard.regions@[0].blocks@[0].ops@.len() == 0
    &&& guard.regions@[1].blocks@.len() == 1
    &&& guard.regions@[1].blocks@[0].args@.len() == 0
    &&& guard.regions@[1].blocks@[0].ops@.len() == 0
    &&& op_attr_is_str(ctx, top.ops@[0], "sym_name"@, "RANDOM"@)
    &&& op_attr_is_str(ctx, top.ops@[1], "sym_name"@, "PRINTF_COND_"@)
    &&& op_attr_is_str(ctx, top.ops@[2], "sym_name"@, "SYNTHESIS"@)
    &&& op_attr_is_str(ctx, m, "sym_name"@, "test1"@)
    &&& demo_module_signature(ctx, m, bb)
    &&& op_attr_is_int(ctx, c, "value"@, false, 32, 0x80000002, IntBase::Hex)
    &&& c.results@.len() == 1
    &&& type_is_int(ctx, c.results@[0].ty, 32)
    &&& op_attr_is_int(ctx, p, "value"@, false, 42, 11, IntBase::Dec)
    &&& op_attr_is_str(ctx, p, "name"@, "x"@)
    &&& p.results@.len() == 1
    &&& type_is_int(ctx, p.results@[0].ty, 42)
    &&& bb.args@[0].id.num == 0
    &&& bb.args@[1].id.num == 1
    &&& bb.args@[2].id.num == 2
    &&& c.results@[0].id.num == 3
    &&& p.results@[0].id.num == 4
    &&& aw.operands@ == seq![bb.args@[0].id]
    &&& demo_events(ctx, aw)
    &&& op_attr_is_str(ctx, guard, "cond"@, "SYNTHESIS"@)
    &&& op_valid(tbl, ctx, Seq::empty(), root)
}

/// Where each demo kind stands in the table `hw_schema` delivers.
pub proof fn lemma_hw_lookups(tbl: Seq<SchemaEntry>)
    requires
        hw_schema_spec(tbl),
    ensures
        schema_lookup(tbl, "builtin.module"@) == Some(tbl[0]),
        schema_lookup(tbl, "hw.module"@) == Some(tbl[1]),
        schema_lookup(tbl, "hw.constant"@) == Some(tbl[2]),
        schema_lookup(tbl, "hw.output"@) == Some(tbl[3]),
        schema_lookup(tbl, "sv.macro.decl"@) == Some(tbl[4]),
        schema_lookup(tbl, "sv.localparam"@) == Some(tbl[5]),
        schema_lookup(tbl, "sv.always"@) == Some(tbl[6]),
        schema_lookup(tbl, "sv.ifdef.procedural"@) == Some(tbl[7]),
{
    reveal_strlit("builtin.module");
    reveal_strlit("hw.module");
    reveal_strlit("hw.constant");
    reveal_strlit("hw.output");
    reveal_strlit("sv.macro.decl");
    reveal_strlit("sv.localparam");
    reveal_strlit("sv.always");
    reveal_strlit("sv.ifdef.procedural");
    assert("builtin.module"@.len() == 14);
    assert("hw.module"@.len() == 9);
    assert("hw.constant"@.len() == 11);
    assert("hw.output"@.len() == 9);
    assert("sv.macro.decl"@.len() == 13);
    assert("sv.localparam"@.len() == 13);
    assert("sv.always"@.len() == 9);
    assert("sv.ifdef.procedural"@.len() == 19);
    assert("hw.module"@[3] == 'm' && "hw.output"@[3] == 'o');
    assert("hw.module"@ != "hw.output"@);
    assert("hw.module"@[0] == 'h' && "sv.always"@[0] == 's');
    assert("hw.module"@ != "sv.always"@);
    assert("hw.output"@[0] == 'h');
    assert("hw.output"@ != "sv.always"@);
    assert("sv.macro.decl"@[3] == 'm' && "sv.localparam"@[3] == 'l');
    assert("sv.macro.decl"@ != "sv.localparam"@);
    assert(schema_lookup_from(tbl, "builtin.module"@, 0) == Some(tbl[0]));
    crate::schema::lemma_schema_lookup_skip(tbl, "hw.module"@, 1);
    assert(schema_lookup_from(tbl, "hw.module"@, 1) == Some(tbl[1]));
    crate::schema::lemma_schema_lookup_skip(tbl, "hw.constant"@, 2);
    assert(schema_lookup_from(tbl, "hw.constant"@, 2) == Some(tbl[2]));
    crate::schema::lemma_schema_lookup_skip(tbl, "hw.output"@, 3);
    assert(schema_lookup_from(tbl, "hw.output"@, 3) == Some(tbl[3]));
    crate::schema::lemma_schema_lookup_skip(tbl, "sv.macro.decl"@, 4);
    assert(schema_lookup_from(tbl, "sv.macro.decl"@, 4) == Some(tbl[4]));
    crate::schema::lemma_schema_lookup_skip(tbl, "sv.localparam"@, 5);
    assert(schema_lookup_from(tbl, "sv.localparam"@, 5) == Some(tbl[5]));
    crate::schema::lemma_schema_lookup_skip(tbl, "sv.always"@, 6);
    assert(schema_lookup_from(tbl, "sv.always"@, 6) == Some(tbl[6]));
    crate::schema::lemma_schema_lookup_skip(tbl, "sv.ifdef.procedural"@, 7);
    assert(schema_lookup_from(tbl, "sv.ifdef.procedural"@, 7) == Some(tbl[7]));
}

/// A conforming operation with no regions is valid outright.
pub proof fn lemma_leaf_valid(tbl: Seq<SchemaEntry>, ctx: Context, scope: Seq<ValueId>, op: Operation)
    requires
        op_conforms(tbl, ctx, scope, op),
        op.regions@.len() == 0,
    ensures
        op_valid(tbl, ctx, scope, op),
{
    assert(regions_valid(
        tbl,
        ctx,
        scope,
        schema_lookup(tbl, op.kind@),
        op.attrs@,
        op.regions@,
        0,
    ));
}


/// A macro declaration of the demo form is valid under any scope.
proof fn lemma_demo_macro_valid(
    tbl: Seq<SchemaEntry>,
    ctx: Context,
    scope: Seq<ValueId>,
    op: Operation,
    h: AttrId,
)
    requires
        hw_schema_spec(tbl),
        op.kind@ == "sv.macro.decl"@,
        op.operands@.len() == 0,
        op.results@.len() == 0,
        op.regions@.len() == 0,
        op.attrs@.len() == 1,
        op.attrs@[0].name@ == "sym_name"@,
        op.attrs@[0].attr == h,
        h.idx < ctx.attrs@.len(),
        ctx.attrs@[h.idx as int] is Str,
    ensures
        op_valid(tbl, ctx, scope, op),
{
    lemma_hw_lookups(tbl);
    assert(find_attr(op.attrs@, "sym_name"@) == Some(h));
    assert(op_conforms(tbl, ctx, scope, op));
    lemma_leaf_valid(tbl, ctx, scope, op);
}

/// A constant of the demo form (32-bit integer attribute against a 32-bit
/// integer result type) is valid under any scope.
proof fn lemma_demo_constant_valid(
    tbl: Seq<SchemaEntry>,
    ctx: Context,
    scope: Seq<ValueId>,
    op: Operation,
    h: AttrId,
)
    requires
        hw_schema_spec(tbl),
        op.kind@ == "hw.constant"@,
        op.operands@.len() == 0,
        op.results@.len() == 1,
        op.regions@.len() == 0,
        op.attrs@.len() == 1,
        op.attrs@[0].name@ == "value"@,
        op.attrs@[0].attr == h,
        h.idx < ctx.attrs@.len(),
        (ctx.attrs@[h.idx as int] matches AttrDesc::Int { width, .. } && width == 32),
        type_is_int(ctx, op.results@[0].ty, 32),
    ensures
        op_valid(tbl, ctx, scope, op),
{
    lemma_hw_lookups(tbl);
    assert(find_attr(op.attrs@, "value"@) == Some(h));
    assert(attr_req_met(ctx, op, AttrKindReq::IntOfResult { result: 0 }, h));
    assert(op_conforms(tbl, ctx, scope, op));
    lemma_leaf_valid(tbl, ctx, scope, op);
}

/// A local parameter of the demo form is valid under any scope.
proof fn lemma_demo_param_valid(
    tbl: Seq<SchemaEntry>,
    ctx: Context,
    scope: Seq<ValueId>,
    op: Operation,
    hv: AttrId,
    hn: AttrId,
)
    requires
        hw_schema_spec(tbl),
        op.kind@ == "sv.localparam"@,
        op.operands@.len() == 0,
        op.results@.len() == 1,
        op.regions@.len() == 0,
        op.attrs@.len() == 2,
        op.attrs@[0].name@ == "value"@,
        op.attrs@[0].attr == hv,
        op.attrs@[1].name@ == "name"@,
        op.attrs@[1].attr == hn,
        hv.idx < ctx.attrs@.len(),
        ctx.attrs@[hv.idx as int] is Int,
        hn.idx < ctx.attrs@.len(),
        ctx.attrs@[hn.idx as int] is Str,
    ensures
        op_valid(tbl, ctx, scope, op),
{
    lemma_hw_lookups(tbl);
    reveal_strlit("value");
    reveal_strlit("name");
    assert(find_attr(op.attrs@, "value"@) == Some(hv));
    assert("value"@.len() == 5 && "name"@.len() == 4);
    assert("value"@ != "name"@);
    assert(find_attr_from(op.attrs@, "name"@, 0) == find_attr_from(op.attrs@, "name"@, 1));
    assert(find_attr(op.attrs@, "name"@) == Some(hn));
    assert(op_conforms(tbl, ctx, scope, op));
    lemma_leaf_valid(tbl, ctx, scope, op);
}

/// An output terminator is valid under any scope.
proof fn lemma_demo_output_valid(
    tbl: Seq<SchemaEntry>,
    ctx: Context,
    scope: Seq<ValueId>,
    op: Operation,
)
    requires
        hw_schema_spec(tbl),
        op.kind@ == "hw.output"@,
        op.operands@.len() == 0,
        op.results@.len() == 0,
        op.regions@.len() == 0,
        op.attrs@.len() == 0,
    ensures
        op_valid(tbl, ctx, scope, op),
{
    lemma_hw_lookups(tbl);
    assert(op_conforms(tbl, ctx, scope, op));
    lemma_leaf_valid(tbl, ctx, scope, op);
}

/// A conditional-compilation guard of the demo form (string condition, two
/// regions each holding one empty, argument-free block) is valid under any
/// scope.
proof fn lemma_demo_guard_valid(
    tbl: Seq<SchemaEntry>,
    ctx: Context,
    scope: Seq<ValueId>,
    op: Operation,
    h: AttrId,
)
    requires
        hw_schema_spec(tbl),
        op.kind@ == "sv.ifdef.procedural"@,
        op.operands@.len() == 0,
        op.results@.len() == 0,
        op.attrs@.len() == 1,
        op.attrs@[0].name@ == "cond"@,
        op.attrs@[0].attr == h,
        h.idx < ctx.attrs@.len(),
        ctx.attrs@[h.idx as int] is Str,
        op.regions@.len() == 2,
        op.regions@[0].blocks@.len() == 1,
        op.regions@[0].blocks@[0].args@.len() == 0,
        op.regions@[0].blocks@[0].ops@.len() == 0,
        op.regions@[1].blocks@.len() == 1,
        op.regions@[1].blocks@[0].args@.len() == 0,
        op.regions@[1].blocks@[0].ops@.len() == 0,
    ensures
        op_valid(tbl, ctx, scope, op),
{
    lemma_hw_lookups(tbl);
    assert(find_attr(op.attrs@, "cond"@) == Some(h));
    assert(op_conforms(tbl, ctx, scope, op));
    let entry = Some(tbl[7]);
    assert(region_rule(entry, 0) == Some(tbl[7].region_reqs@[0]));
    assert(region_rule(entry, 1) == Some(tbl[7].region_reqs@[1]));
    let b0 = op.regions@[0].blocks@[0];
    let b1 = op.regions@[1].blocks@[0];
    assert(ops_valid(tbl, ctx, scope + arg_ids(b0.args@), b0.ops@, 0));
    assert(ops_valid(tbl, ctx, scope + arg_ids(b1.args@), b1.ops@, 0));
    assert(block_valid(tbl, ctx, scope, Some(tbl[7].region_reqs@[0]), op.attrs@, b0));
    assert(block_valid(tbl, ctx, scope, Some(tbl[7].region_reqs@[1]), op.attrs@, b1));
    assert(blocks_valid(tbl, ctx, scope, Some(tbl[7].region_reqs@[0]), op.attrs@, op.regions@[0].blocks@, 0));
    assert(blocks_valid(tbl, ctx, scope, Some(tbl[7].region_reqs@[0]), op.attrs@, op.regions@[0].blocks@, 1));
    assert(blocks_valid(tbl, ctx, scope, Some(tbl[7].region_reqs@[1]), op.attrs@, op.regions@[1].blocks@, 0));
    assert(blocks_valid(tbl, ctx, scope, Some(tbl[7].region_reqs@[1]), op.attrs@, op.regions@[1].blocks@, 1));
    assert(region_valid(tbl, ctx, scope, Some(tbl[7].region_reqs@[0]), op.attrs@, op.regions@[0]));
    assert(region_valid(tbl, ctx, scope, Some(tbl[7].region_reqs@[1]), op.attrs@, op.regions@[1]));
    assert(regions_valid(tbl, ctx, scope, entry, op.attrs@, op.regions@, 0));
    assert(regions_valid(tbl, ctx, scope, entry, op.attrs@, op.regions@, 1));
    assert(regions_valid(tbl, ctx, scope, entry, op.attrs@, op.regions@, 2));
    assert(op_valid(tbl, ctx, scope, op));
}

/// A clocked block of the demo form — one in-scope operand, an array
/// `events` attribute, one region holding one argument-free block whose
/// single operation is already known valid — is valid.
proof fn lemma_demo_always_valid(
    tbl: Seq<SchemaEntry>,
    ctx: Context,
    scope: Seq<ValueId>,
    op: Operation,
    h: AttrId,
)
    requires
        hw_schema_spec(tbl),
        op.kind@ == "sv.always"@,
        op.operands@.len() == 1,
        scope.contains(op.operands@[0]),
        op.results@.len() == 0,
        op.attrs@.len() == 1,
        op.attrs@[0].name@ == "events"@,
        op.attrs@[0].attr == h,
        h.idx < ctx.attrs@.len(),
        ctx.attrs@[h.idx as int] is Array,
        op.regions@.len() == 1,
        op.regions@[0].blocks@.len() == 1,
        op.regions@[0].blocks@[0].args@.len() == 0,
        op.regions@[0].blocks@[0].ops@.len() == 1,
        op_valid(
            tbl,
            ctx,
            (scope + arg_ids(op.regions@[0].blocks@[0].args@)) + results_upto(
                op.regions@[0].blocks@[0].ops@,
                0,
            ),
            op.regions@[0].blocks@[0].ops@[0],
        ),
    ensures
        op_valid(tbl, ctx, scope, op),
{
    lemma_hw_lookups(tbl);
    assert(find_attr(op.attrs@, "events"@) == Some(h));
    assert(op_conforms(tbl, ctx, scope, op));
    let b = op.regions@[0].blocks@[0];
    assert(ops_valid(tbl, ctx, scope + arg_ids(b.args@), b.ops@, 0));
    assert(ops_valid(tbl, ctx, scope + arg_ids(b.args@), b.ops@, 1));
    assert(block_valid(tbl, ctx, scope, Some(tbl[6].region_reqs@[0]), op.attrs@, b));
    assert(region_rule(Some(tbl[6]), 0) == Some(tbl[6].region_reqs@[0]));
    assert(blocks_valid(tbl, ctx, scope, Some(tbl[6].region_reqs@[0]), op.attrs@, op.regions@[0].blocks@, 0));
    assert(blocks_valid(tbl, ctx, scope, Some(tbl[6].region_reqs@[0]), op.attrs@, op.regions@[0].blocks@, 1));
    assert(region_valid(tbl, ctx, scope, Some(tbl[6].region_reqs@[0]), op.attrs@, op.regions@[0]));
    assert(regions_valid(tbl, ctx, scope, Some(tbl[6]), op.attrs@, op.regions@, 0));
    assert(regions_valid(tbl, ctx, scope, Some(tbl[6]), op.attrs@, op.regions@, 1));
    assert(op_valid(tbl, ctx, scope, op));
}

/// Assembles the sample hardware module bottom-up: three macro
/// declarations, then a module holding a 32-bit constant, a 42-bit local
/// parameter, a clocked procedural block (whose body is a
/// conditional-compilation guard with two empty branches) and the output
/// terminator, under one root module. Returns the context, the schema table
/// and the root operation; the contract pins the tree's full content and
/// that it passes structural verification.
#[verifier::rlimit(100)]
#[verifier::spinoff_prover]
pub fn build_demo() -> (r: (Context, Vec<SchemaEntry>, Operation))
    ensures
        hw_schema_spec(r.1@),
        ctx_wf(r.0),
        demo_shape(r.1@, r.0, r.2),
{
    let tbl = hw_schema();
    let mut ctx = Context::new();
    let i1 = intern_type_ok(&mut ctx, TypeDesc::Int { width: 1 });
    let i8t = intern_type_ok(&mut ctx, TypeDesc::Int { width: 8 });
    let i32t = intern_type_ok(&mut ctx, TypeDesc::Int { width: 32 });
    let i42t = intern_type_ok(&mut ctx, TypeDesc::Int { width: 42 });
    let mut ports: Vec<Port> = Vec::new();
    ports.push(Port { name: String::from_str("arg0"), ty: i1, dir: Direction::Input });
    ports.push(Port { name: String::from_str("arg1"), ty: i1, dir: Direction::Input });
    ports.push(Port { name: String::from_str("arg8"), ty: i8t, dir: Direction::Input });
    let sig = intern_type_ok(&mut ctx, TypeDesc::ModuleSig { ports });
    let a_random = intern_attr_ok(&mut ctx, AttrDesc::Str { text: String::from_str("RANDOM") });
    let a_printf = intern_attr_ok(
        &mut ctx,
        AttrDesc::Str { text: String::from_str("PRINTF_COND_") },
    );
    let a_synth = intern_attr_ok(&mut ctx, AttrDesc::Str { text: String::from_str("SYNTHESIS") });
    let a_cval = intern_attr_ok(
        &mut ctx,
        AttrDesc::Int { signed: false, width: 32, value: 0x80000002, base: IntBase::Hex },
    );
    let a_pval = intern_attr_ok(
        &mut ctx,
        AttrDesc::Int { signed: false, width: 42, value: 11, base: IntBase::Dec },
    );
    let a_pname = intern_attr_ok(&mut ctx, AttrDesc::Str { text: String::from_str("x") });
    let a_posedge = intern_attr_ok(
        &mut ctx,
        AttrDesc::Int { signed: false, width: 32, value: 0, base: IntBase::Dec },
    );
    let mut event_elems: Vec<AttrId> = Vec::new();
    event_elems.push(a_posedge);
    let a_events = intern_attr_ok(&mut ctx, AttrDesc::Array { elems: event_elems });
    let a_modty = intern_attr_ok(&mut ctx, AttrDesc::TypeRef { ty: sig });
    let a_params = intern_attr_ok(&mut ctx, AttrDesc::Array { elems: Vec::new() });
    let a_test1 = intern_attr_ok(&mut ctx, AttrDesc::Str { text: String::from_str("test1") });
    proof {
        assert(ctx.attrs@[a_random.idx as int] matches AttrDesc::Str { text } && text@
            == "RANDOM"@);
        assert(ctx.attrs@[a_printf.idx as int] matches AttrDesc::Str { text } && text@
            == "PRINTF_COND_"@);
        assert(ctx.attrs@[a_synth.idx as int] matches AttrDesc::Str { text } && text@
            == "SYNTHESIS"@);
        assert(ctx.attrs@[a_pname.idx as int] matches AttrDesc::Str { text } && text@ == "x"@);
        assert(ctx.attrs@[a_test1.idx as int] matches AttrDesc::Str { text } && text@
            == "test1"@);
        assert(ctx.attrs@[a_cval.idx as int] matches AttrDesc::Int { signed, width, value, base }
            && signed == false && width == 32 && value == 0x80000002 && base == IntBase::Hex);
        assert(ctx.attrs@[a_pval.idx as int] matches AttrDesc::Int { signed, width, value, base }
            && signed == false && width == 42 && value == 11 && base == IntBase::Dec);
        assert(ctx.attrs@[a_posedge.idx as int] matches AttrDesc::Int {
            signed,
            width,
            value,
            base,
        } && signed == false && width == 32 && value == 0 && base == IntBase::Dec);
        assert(ctx.attrs@[a_events.idx as int] matches AttrDesc::Array { elems } && elems@
            =~= seq![a_posedge]);
        assert(ctx.attrs@[a_modty.idx as int] matches AttrDesc::TypeRef { ty } && ty == sig);
        assert(ctx.attrs@[a_params.idx as int] matches AttrDesc::Array { elems } && elems@.len()
            == 0);
        assert(type_is_int(ctx, i1, 1));
        assert(type_is_int(ctx, i8t, 8));
        assert(type_is_int(ctx, i32t, 32));
        assert(type_is_int(ctx, i42t, 42));
        assert(sig.idx < ctx.types@.len());
        assert(ctx.types@[sig.idx as int] matches TypeDesc::ModuleSig { ports: ps } && {
            &&& ps@.len() == 3
            &&& ps@[0].name@ == "arg0"@ && ps@[0].ty == i1 && ps@[0].dir == Direction::Input
            &&& ps@[1].name@ == "arg1"@ && ps@[1].ty == i1 && ps@[1].dir == Direction::Input
            &&& ps@[2].name@ == "arg8"@ && ps@[2].ty == i8t && ps@[2].dir == Direction::Input
        });
    }

    let mut top_block = Block::new();
    let mut m_attrs: Vec<AttrBinding> = Vec::new();
    m_attrs.push(AttrBinding { name: String::from_str("sym_name"), attr: a_random });
    let m1 = build_op_ok(
        &mut ctx,
        String::from_str("sv.macro.decl"),
        m_attrs,
        Vec::new(),
        Vec::new(),
        0,
        Location { line: 10, col: 1 },
    );
    append_op_ok(&mut top_block, m1);
    let mut m_attrs: Vec<AttrBinding> = Vec::new();
    m_attrs.push(AttrBinding { name: String::from_str("sym_name"), attr: a_printf });
    let m2 = build_op_ok(
        &mut ctx,
        String::from_str("sv.macro.decl"),
        m_attrs,
        Vec::new(),
        Vec::new(),
        0,
        Location { line: 11, col: 1 },
    );
    append_op_ok(&mut top_block, m2);
    let mut m_attrs: Vec<AttrBinding> = Vec::new();
    m_attrs.push(AttrBinding { name: String::from_str("sym_name"), attr: a_synth });
    let m3 = build_op_ok(
        &mut ctx,
        String::from_str("sv.macro.decl"),
        m_attrs,
        Vec::new(),
        Vec::new(),
        0,
        Location { line: 12, col: 1 },
    );
    append_op_ok(&mut top_block, m3);

    let mut body_block = Block::new();
    let arg0 = add_arg_ok(&mut body_block, &mut ctx, i1, Location { line: 20, col: 1 });
    let _arg1 = add_arg_ok(&mut body_block, &mut ctx, i1, Location { line: 21, col: 1 });
    let _arg8 = add_arg_ok(&mut body_block, &mut ctx, i8t, Location { line: 22, col: 1 });

    let mut c_attrs: Vec<AttrBinding> = Vec::new();
    c_attrs.push(AttrBinding { name: String::from_str("value"), attr: a_cval });
    let mut c_tys: Vec<TypeId> = Vec::new();
    c_tys.push(i32t);
    let constant = build_op_ok(
        &mut ctx,
        String::from_str("hw.constant"),
        c_attrs,
        Vec::new(),
        c_tys,
        0,
        Location { line: 30, col: 1 },
    );
    append_op_ok(&mut body_block, constant);

    let mut p_attrs: Vec<AttrBinding> = Vec::new();
    p_attrs.push(AttrBinding { name: String::from_str("value"), attr: a_pval });
    p_attrs.push(AttrBinding { name: String::from_str("name"), attr: a_pname });
    proof {
        reveal_strlit("value");
        reveal_strlit("name");
        assert(p_attrs@.len() == 2);
        assert(p_attrs@[0].name@ == "value"@);
        assert(p_attrs@[1].name@ == "name"@);
        assert("value"@.len() == 5 && "name"@.len() == 4);
        assert(attr_names_unique(p_attrs@));
    }
    let mut p_tys: Vec<TypeId> = Vec::new();
    p_tys.push(i42t);
    let param = build_op_ok(
        &mut ctx,
        String::from_str("sv.localparam"),
        p_attrs,
        Vec::new(),
        p_tys,
        0,
        Location { line: 31, col: 1 },
    );
    append_op_ok(&mut body_block, param);

    let mut if_region = Region::new();
    if_region.append_block(Block::new());
    let mut else_region = Region::new();
    else_region.append_block(Block::new());
    proof {
        assert(if_region.blocks@[0].args@.len() == 0 && if_region.blocks@[0].ops@.len() == 0);
        assert(else_region.blocks@[0].args@.len() == 0 && else_region.blocks@[0].ops@.len() == 0);
    }
    let mut i_attrs: Vec<AttrBinding> = Vec::new();
    i_attrs.push(AttrBinding { name: String::from_str("cond"), attr: a_synth });
    let mut ifdef = build_op_ok(
        &mut ctx,
        String::from_str("sv.ifdef.procedural"),
        i_attrs,
        Vec::new(),
        Vec::new(),
        2,
        Location { line: 40, col: 1 },
    );
    let ghost ifr = if_region;
    attach_region_ok(&mut ifdef, if_region);
    let ghost elr = else_region;
    attach_region_ok(&mut ifdef, else_region);

    let mut always_block = Block::new();
    append_op_ok(&mut always_block, ifdef);
    let ghost ab = always_block;
    let mut always_region = Region::new();
    always_region.append_block(always_block);
    let ghost ar = always_region;
    let mut a_attrs: Vec<AttrBinding> = Vec::new();
    a_attrs.push(AttrBinding { name: String::from_str("events"), attr: a_events });
    let mut a_operands: Vec<ValueId> = Vec::new();
    a_operands.push(arg0);
    let mut always = build_op_ok(
        &mut ctx,
        String::from_str("sv.always"),
        a_attrs,
        a_operands,
        Vec::new(),
        1,
        Location { line: 41, col: 1 },
    );
    attach_region_ok(&mut always, always_region);
    append_op_ok(&mut body_block, always);

    let output = build_op_ok(
        &mut ctx,
        String::from_str("hw.output"),
        Vec::new(),
        Vec::new(),
        Vec::new(),
        0,
        Location { line: 50, col: 1 },
    );
    append_op_ok(&mut body_block, output);
    proof {
        assert(body_block.args@.len() == 3);
        assert(body_block.args@[0].ty == i1 && body_block.args@[0].id == arg0);
        assert(body_block.args@[1].ty == i1);
        assert(body_block.args@[2].ty == i8t);
        assert(body_block.ops@.len() == 4);
        assert(body_block.ops@[0] == constant);
        assert(body_block.ops@[1] == param);
        assert(body_block.ops@[2] == always);
        assert(body_block.ops@[3] == output);
    }
    let ghost bb = body_block;

    let mut body_region = Region::new();
    body_region.append_block(body_block);
    let mut h_attrs: Vec<AttrBinding> = Vec::new();
    h_attrs.push(AttrBinding { name: String::from_str("sym_name"), attr: a_test1 });
    h_attrs.push(AttrBinding { name: String::from_str("module_type"), attr: a_modty });
    h_attrs.push(AttrBinding { name: String::from_str("parameters"), attr: a_params });
    proof {
        reveal_strlit("sym_name");
        reveal_strlit("module_type");
        reveal_strlit("parameters");
        assert(h_attrs@.len() == 3);
        assert(h_attrs@[0].name@ == "sym_name"@);
        assert(h_attrs@[1].name@ == "module_type"@);
        assert(h_attrs@[2].name@ == "parameters"@);
        assert("sym_name"@.len() == 8 && "module_type"@.len() == 11 && "parameters"@.len() == 10);
        assert(attr_names_unique(h_attrs@));
    }
    let mut module = build_op_ok(
        &mut ctx,
        String::from_str("hw.module"),
        h_attrs,
        Vec::new(),
        Vec::new(),
        1,
        Location { line: 60, col: 1 },
    );
    let ghost br = body_region;
    attach_region_ok(&mut module, body_region);
    proof {
        assert(module.regions@.len() == 1);
        assert(module.regions@[0] == br);
        assert(br.blocks@.len() == 1);
        assert(br.blocks@[0] == bb);
    }
    append_op_ok(&mut top_block, module);
    proof {
        assert(top_block.ops@.len() == 4);
        assert(top_block.ops@[0] == m1);
        assert(top_block.ops@[1] == m2);
        assert(top_block.ops@[2] == m3);
        assert(top_block.ops@[3] == module);
    }
    let ghost tb = top_block;

    let mut top_region = Region::new();
    top_region.append_block(top_block);
    let mut top = build_op_ok(
        &mut ctx,
        String::from_str("builtin.module"),
        Vec::new(),
        Vec::new(),
        Vec::new(),
        1,
        Location { line: 70, col: 1 },
    );
    let ghost tr = top_region;
    attach_region_ok(&mut top, top_region);
    proof {
        assert(top.regions@.len() == 1);
        assert(top.regions@[0] == tr);
        assert(tr.blocks@.len() == 1);
        assert(tr.blocks@[0] == tb);
        lemma_hw_lookups(tbl@);
        reveal_strlit("sym_name");
        reveal_strlit("module_type");
        reveal_strlit("parameters");
        // dominating scopes along the tree, outermost first
        let s0 = Seq::<ValueId>::empty();
        let base_t = s0 + arg_ids(tb.args@);
        assert(arg_ids(tb.args@) =~= Seq::<ValueId>::empty());
        assert(ids_of(m1.results@) =~= Seq::<ValueId>::empty());
        assert(ids_of(m2.results@) =~= Seq::<ValueId>::empty());
        assert(ids_of(m3.results@) =~= Seq::<ValueId>::empty());
        assert(results_upto(tb.ops@, 0) =~= Seq::<ValueId>::empty());
        assert(results_upto(tb.ops@, 1) =~= Seq::<ValueId>::empty());
        assert(results_upto(tb.ops@, 2) =~= Seq::<ValueId>::empty());
        assert(results_upto(tb.ops@, 3) =~= Seq::<ValueId>::empty());
        let sm = base_t + results_upto(tb.ops@, 3);
        let base_b = sm + arg_ids(bb.args@);
        assert(arg_ids(bb.args@).len() == 3);
        assert(arg_ids(bb.args@)[0] == arg0);
        assert(ids_of(constant.results@) =~= seq![constant.results@[0].id]);
        assert(ids_of(param.results@) =~= seq![param.results@[0].id]);
        assert(ids_of(always.results@) =~= Seq::<ValueId>::empty());
        assert(results_upto(bb.ops@, 0) =~= Seq::<ValueId>::empty());
        let s_c = base_b + results_upto(bb.ops@, 0);
        let s_p = base_b + results_upto(bb.ops@, 1);
        let s_aw = base_b + results_upto(bb.ops@, 2);
        let s_o = base_b + results_upto(bb.ops@, 3);
        assert(sm.len() == 0);
        assert(base_b.len() == 3);
        assert(s_aw[0] == arg0);
        assert(s_aw.contains(arg0));
        // the guard, the clocked block and the body operations
        assert(ar.blocks@[0] == ab);
        let base_ab = s_aw + arg_ids(ab.args@);
        let s_if = base_ab + results_upto(ab.ops@, 0);
        assert(ab.args@.len() == 0 && ab.ops@.len() == 1 && ab.ops@[0] == ifdef);
        assert(ifdef.regions@.len() == 2 && ifdef.regions@[0] == ifr && ifdef.regions@[1] == elr);
        lemma_demo_guard_valid(tbl@, ctx, s_if, ifdef, a_synth);
        assert(always.regions@.len() == 1 && always.regions@[0] == ar && ar.blocks@.len() == 1);
        assert(always.operands@ =~= seq![arg0]);
        lemma_demo_always_valid(tbl@, ctx, s_aw, always, a_events);
        assert(constant.results@[0].ty == i32t);
        lemma_demo_constant_valid(tbl@, ctx, s_c, constant, a_cval);
        assert(param.results@[0].ty == i42t);
        lemma_demo_param_valid(tbl@, ctx, s_p, param, a_pval, a_pname);
        lemma_demo_output_valid(tbl@, ctx, s_o, output);
        // the module's block: arguments from the signature, output last
        assert(ops_valid(tbl@, ctx, base_b, bb.ops@, 0));
        assert(ops_valid(tbl@, ctx, base_b, bb.ops@, 1));
        assert(ops_valid(tbl@, ctx, base_b, bb.ops@, 2));
        assert(ops_valid(tbl@, ctx, base_b, bb.ops@, 3));
        assert(ops_valid(tbl@, ctx, base_b, bb.ops@, 4));
        assert(find_attr(module.attrs@, "sym_name"@) == Some(a_test1));
        assert("sym_name"@.len() == 8 && "module_type"@.len() == 11 && "parameters"@.len() == 10);
        assert("sym_name"@ != "module_type"@);
        assert(find_attr_from(module.attrs@, "module_type"@, 0) == find_attr_from(
            module.attrs@,
            "module_type"@,
            1,
        ));
        assert(find_attr(module.attrs@, "module_type"@) == Some(a_modty));
        assert("sym_name"@ != "parameters"@ && "module_type"@ != "parameters"@);
        assert(find_attr_from(module.attrs@, "parameters"@, 0) == find_attr_from(
            module.attrs@,
            "parameters"@,
            1,
        ));
        assert(find_attr_from(module.attrs@, "parameters"@, 1) == find_attr_from(
            module.attrs@,
            "parameters"@,
            2,
        ));
        assert(find_attr(module.attrs@, "parameters"@) == Some(a_params));
        let ps = ctx.types@[sig.idx as int]->ModuleSig_ports;
        assert(input_tys_upto(ps@, 0) =~= Seq::<TypeId>::empty());
        assert(input_tys_upto(ps@, 1) =~= seq![i1]);
        assert(input_tys_upto(ps@, 2) =~= seq![i1, i1]);
        assert(input_tys(ps@) =~= seq![i1, i1, i8t]);
        assert(sig_input_tys(ctx, module.attrs@, "module_type"@) == Some(input_tys(ps@)));
        assert(bb.args@[0].ty == i1 && bb.args@[1].ty == i1 && bb.args@[2].ty == i8t);
        assert forall|i: int| 0 <= i < input_tys(ps@).len() implies (#[trigger] bb.args@[i]).ty
            == input_tys(ps@)[i] by {
            assert(input_tys(ps@)[0] == i1 && input_tys(ps@)[1] == i1 && input_tys(ps@)[2] == i8t);
        }
        assert(block_args_ok(ctx, module.attrs@, tbl@[1].region_reqs@[0], bb));
        assert(block_term_ok(tbl@[1].region_reqs@[0], bb));
        assert(block_valid(tbl@, ctx, sm, Some(tbl@[1].region_reqs@[0]), module.attrs@, bb));
        assert(region_rule(Some(tbl@[1]), 0) == Some(tbl@[1].region_reqs@[0]));
        assert(br.blocks@[0] == bb);
        assert(blocks_valid(tbl@, ctx, sm, Some(tbl@[1].region_reqs@[0]), module.attrs@, br.blocks@, 0));
        assert(blocks_valid(tbl@, ctx, sm, Some(tbl@[1].region_reqs@[0]), module.attrs@, br.blocks@, 1));
        assert(region_valid(tbl@, ctx, sm, Some(tbl@[1].region_reqs@[0]), module.attrs@, br));
        assert(regions_valid(tbl@, ctx, sm, Some(tbl@[1]), module.attrs@, module.regions@, 0));
        assert(regions_valid(tbl@, ctx, sm, Some(tbl@[1]), module.attrs@, module.regions@, 1));
        assert(attr_req_met(ctx, module, AttrKindReq::Str, a_test1));
        assert(attr_req_met(ctx, module, AttrKindReq::TypeRef, a_modty));
        assert(attr_req_met(ctx, module, AttrKindReq::Array, a_params));
        assert(op_conforms(tbl@, ctx, sm, module));
        assert(op_valid(tbl@, ctx, sm, module));
        // the top block and the root module
        lemma_demo_macro_valid(tbl@, ctx, base_t + results_upto(tb.ops@, 0), m1, a_random);
        lemma_demo_macro_valid(tbl@, ctx, base_t + results_upto(tb.ops@, 1), m2, a_printf);
        lemma_demo_macro_valid(tbl@, ctx, base_t + results_upto(tb.ops@, 2), m3, a_synth);
        assert(ops_valid(tbl@, ctx, base_t, tb.ops@, 0));
        assert(ops_valid(tbl@, ctx, base_t, tb.ops@, 1));
        assert(ops_valid(tbl@, ctx, base_t, tb.ops@, 2));
        assert(ops_valid(tbl@, ctx, base_t, tb.ops@, 3));
        assert(op_valid(tbl@, ctx, base_t + results_upto(tb.ops@, 3), tb.ops@[3]));
        assert(ops_valid(tbl@, ctx, base_t, tb.ops@, 4));
        assert(block_args_ok(ctx, top.attrs@, tbl@[0].region_reqs@[0], tb));
        assert(block_term_ok(tbl@[0].region_reqs@[0], tb));
        assert(block_valid(tbl@, ctx, s0, Some(tbl@[0].region_reqs@[0]), top.attrs@, tb));
        assert(region_rule(Some(tbl@[0]), 0) == Some(tbl@[0].region_reqs@[0]));
        assert(blocks_valid(tbl@, ctx, s0, Some(tbl@[0].region_reqs@[0]), top.attrs@, tr.blocks@, 0));
        assert(blocks_valid(tbl@, ctx, s0, Some(tbl@[0].region_reqs@[0]), top.attrs@, tr.blocks@, 1));
        assert(region_valid(tbl@, ctx, s0, Some(tbl@[0].region_reqs@[0]), top.attrs@, tr));
        assert(regions_valid(tbl@, ctx, s0, Some(tbl@[0]), top.attrs@, top.regions@, 0));
        assert(regions_valid(tbl@, ctx, s0, Some(tbl@[0]), top.attrs@, top.regions@, 1));
        assert(op_conforms(tbl@, ctx, s0, top));
        assert(op_valid(tbl@, ctx, s0, top));
        // the content clauses
        assert(find_attr(m1.attrs@, "sym_name"@) == Some(a_random));
        assert(find_attr(m2.attrs@, "sym_name"@) == Some(a_printf));
        assert(find_attr(m3.attrs@, "sym_name"@) == Some(a_synth));
        assert(find_attr(constant.attrs@, "value"@) == Some(a_cval));
        assert(find_attr(param.attrs@, "value"@) == Some(a_pval));
        reveal_strlit("value");
        reveal_strlit("name");
        assert("value"@.len() == 5 && "name"@.len() == 4);
        assert("value"@ != "name"@);
        assert(find_attr_from(param.attrs@, "name"@, 0) == find_attr_from(param.attrs@, "name"@, 1));
        assert(find_attr(param.attrs@, "name"@) == Some(a_pname));
        assert(find_attr(always.attrs@, "events"@) == Some(a_events));
        assert(find_attr(ifdef.attrs@, "cond"@) == Some(a_synth));
        assert(demo_module_signature(ctx, module, bb));
        assert(demo_events(ctx, always));
        assert(demo_shape(tbl@, ctx, top));
    }
    (ctx, tbl, top)
}

/// A tree of the demo shape draws zero diagnostics: running the verifier
/// on `build_demo`'s result is guaranteed to succeed.
pub proof fn lemma_demo_verifies(tbl: Seq<SchemaEntry>, ctx: Context, root: Operation)
    requires
        demo_shape(tbl, ctx, root),
    ensures
        crate::validate::op_diags(tbl, ctx, Seq::empty(), root).len() == 0,
{
    crate::validate::lemma_op_diags_empty_iff_valid(tbl, ctx, Seq::empty(), root);
}

/// The rendering options of `create_hw_module`: no locations, no elision.
pub open spec fn demo_opts() -> PrintOptions {
    PrintOptions { locations: false, elide_large: false }
}

/// Assembles the sample hardware module and renders it. The text is the
/// deterministic rendering of a tree meeting `demo_shape` in full — so, by
/// `lemma_demo_verifies`, of a tree the structural verifier accepts with
/// zero diagnostics. Callers wanting the status at run time call
/// `validate::verify` on `build_demo`'s result, which its contract
/// guarantees returns success.
pub fn create_hw_module() -> (text: String)
    ensures
        exists|ctx: Context, tbl: Seq<SchemaEntry>, root: Operation|
            hw_schema_spec(tbl) && demo_shape(tbl, ctx, root) && text@ == op_text(
                ctx.types@,
                ctx.attrs@,
                root,
                demo_opts(),
            ),
{
    let (ctx, tbl, root) = build_demo();
    let text = print(&ctx, &root, PrintOptions { locations: false, elide_large: false });
    proof {
        assert(hw_schema_spec(tbl@) && demo_shape(tbl@, ctx, root) && text@ == op_text(
            ctx.types@,
            ctx.attrs@,
            root,
            demo_opts(),
        ));
    }
    text
}

} // verus!
