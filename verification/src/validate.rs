//! The structural verifier: a recursive pre-order walk over a completed
//! tree. At each operation it checks the schema of the operation's kind
//! (attribute shapes, operand/result/region arity), that every operand
//! reference resolves to a dominating definition (a block argument of an
//! enclosing block, or a result of an operation standing earlier in an
//! enclosing block), and per-region block expectations, then descends into
//! each region's blocks in order. It does not stop at the first violation:
//! all diagnostics found during the full traversal are collected, in
//! traversal order, and returned as one list.

use vstd::prelude::*;
use vstd::string::StringExecFns;

use crate::context::{AttrDesc, AttrId, Context, Port, TypeDesc};
use crate::context::TypeId;
use crate::ir::{AttrBinding, Block, BlockArg, Location, Operation, Region, ResultSlot, ValueId};
use crate::schema::{
    AttrKindReq, AttrReq, BlockArgReq, BlockCountReq, RegionReq, SchemaEntry, schema_lookup,
};
use crate::schema::lookup;

verus! {

/// What one structural violation is.
#[derive(Clone, Copy, PartialEq, Eq, Structural, Debug)]
pub enum DiagCode {
    /// The operation's kind has no entry in the schema table.
    UnknownKind,
    /// The operand count disagrees with the schema.
    OperandCountMismatch { expected: usize, found: usize },
    /// The result count disagrees with the schema.
    ResultCountMismatch { expected: usize, found: usize },
    /// The attached region count disagrees with the schema.
    RegionCountMismatch { expected: usize, found: usize },
    /// The required attribute at this index of the schema entry is absent.
    MissingAttr { req: usize },
    /// The required attribute at this index of the schema entry is present
    /// but not of the required shape.
    AttrTypeMismatch { req: usize },
    /// The operand at this index does not resolve to a dominating
    /// definition.
    OperandOutOfScope { operand: usize },
    /// The region at this index holds the wrong number of blocks.
    BlockCountMismatch { region: usize },
    /// This block's argument list disagrees with the schema's expectation.
    BlockArgMismatch { region: usize, block: usize },
    /// This block does not end in the required terminating operation.
    MissingTerminator { region: usize, block: usize },
}

/// One structural violation: the offending node's source-location tag and a
/// code saying what was violated.
#[derive(Clone, Copy, PartialEq, Eq, Structural, Debug)]
pub struct Diagnostic {
    pub loc: Location,
    pub code: DiagCode,
}

/// The value identifiers a list of result slots produces, in order.
pub open spec fn ids_of(results: Seq<ResultSlot>) -> Seq<ValueId> {
    results.map(|i: int, r: ResultSlot| r.id)
}

/// The value identifiers a block's argument list binds, in order.
pub open spec fn arg_ids(args: Seq<BlockArg>) -> Seq<ValueId> {
    args.map(|i: int, a: BlockArg| a.id)
}

/// All result identifiers of the first `n` operations of a sequence.
pub open spec fn results_upto(ops: Seq<Operation>, n: int) -> Seq<ValueId>
    decreases n,
{
    if n <= 0 {
        Seq::empty()
    } else {
        results_upto(ops, n - 1) + ids_of(ops[n - 1].results@)
    }
}

/// The element types of the input ports among the first `n` ports, in order.
pub open spec fn input_tys_upto(ports: Seq<Port>, n: int) -> Seq<TypeId>
    decreases n,
{
    if n <= 0 {
        Seq::empty()
    } else {
        input_tys_upto(ports, n - 1) + (if ports[n - 1].dir is Input {
            seq![ports[n - 1].ty]
        } else {
            Seq::empty()
        })
    }
}

/// The element types of a signature's input ports, in declaration order.
pub open spec fn input_tys(ports: Seq<Port>) -> Seq<TypeId> {
    input_tys_upto(ports, ports.len() as int)
}

/// The first binding at or after `i` whose name is `name`, if any.
pub open spec fn find_attr_from(attrs: Seq<AttrBinding>, name: Seq<char>, i: int) -> Option<AttrId>
    decreases attrs.len() - i,
{
    if i < 0 || i >= attrs.len() {
        None
    } else if attrs[i].name@ == name {
        Some(attrs[i].attr)
    } else {
        find_attr_from(attrs, name, i + 1)
    }
}

/// The first binding of this name, if any.
pub open spec fn find_attr(attrs: Seq<AttrBinding>, name: Seq<char>) -> Option<AttrId> {
    find_attr_from(attrs, name, 0)
}

/// Whether an attribute handle, resolved against the context, meets a
/// schema requirement. An unresolvable handle meets nothing.
pub open spec fn attr_req_met(ctx: Context, op: Operation, req: AttrKindReq, h: AttrId) -> bool {
    &&& h.idx < ctx.attrs@.len()
    &&& match req {
        AttrKindReq::AnyInt => ctx.attrs@[h.idx as int] is Int,
        AttrKindReq::IntWidth { width } => match ctx.attrs@[h.idx as int] {
            AttrDesc::Int { width: w, .. } => w == width,
            _ => false,
        },
        AttrKindReq::Str => ctx.attrs@[h.idx as int] is Str,
        AttrKindReq::TypeRef => ctx.attrs@[h.idx as int] is TypeRef,
        AttrKindReq::Array => ctx.attrs@[h.idx as int] is Array,
        AttrKindReq::IntOfResult { result } => {
            &&& result < op.results@.len()
            &&& op.results@[result as int].ty.idx < ctx.types@.len()
            &&& match ctx.types@[op.results@[result as int].ty.idx as int] {
                TypeDesc::Int { width: tw } => match ctx.attrs@[h.idx as int] {
                    AttrDesc::Int { width: aw, .. } => aw == tw,
                    _ => false,
                },
                _ => false,
            }
        },
    }
}

/// Diagnostics from the first `n` attribute requirements of a schema entry,
/// in requirement order: absent, or present but ill-shaped.
pub open spec fn attr_req_diags(ctx: Context, op: Operation, reqs: Seq<AttrReq>, n: int) -> Seq<
    Diagnostic,
>
    decreases n,
{
    if n <= 0 {
        Seq::empty()
    } else {
        attr_req_diags(ctx, op, reqs, n - 1) + match find_attr(op.attrs@, reqs[n - 1].name@) {
            Option::None => seq![
                Diagnostic { loc: op.loc, code: DiagCode::MissingAttr { req: (n - 1) as usize } },
            ],
            Option::Some(h) => if attr_req_met(ctx, op, reqs[n - 1].req, h) {
                Seq::empty()
            } else {
                seq![
                    Diagnostic {
                        loc: op.loc,
                        code: DiagCode::AttrTypeMismatch { req: (n - 1) as usize },
                    },
                ]
            },
        }
    }
}

/// Diagnostics from the first `n` operand references: one per operand whose
/// identifier is not among the dominating definitions in `scope`.
pub open spec fn operand_diags(scope: Seq<ValueId>, op: Operation, n: int) -> Seq<Diagnostic>
    decreases n,
{
    if n <= 0 {
        Seq::empty()
    } else {
        operand_diags(scope, op, n - 1) + (if scope.contains(op.operands@[n - 1]) {
            Seq::empty()
        } else {
            seq![
                Diagnostic {
                    loc: op.loc,
                    code: DiagCode::OperandOutOfScope { operand: (n - 1) as usize },
                },
            ]
        })
    }
}

/// The arity and attribute checks a known schema entry imposes at one node.
pub open spec fn entry_diags(ctx: Context, entry: SchemaEntry, op: Operation) -> Seq<Diagnostic> {
    (if op.operands@.len() == entry.num_operands {
        Seq::empty()
    } else {
        seq![
            Diagnostic {
                loc: op.loc,
                code: DiagCode::OperandCountMismatch {
                    expected: entry.num_operands,
                    found: op.operands@.len() as usize,
                },
            },
        ]
    }) + (if op.results@.len() == entry.num_results {
        Seq::empty()
    } else {
        seq![
            Diagnostic {
                loc: op.loc,
                code: DiagCode::ResultCountMismatch {
                    expected: entry.num_results,
                    found: op.results@.len() as usize,
                },
            },
        ]
    }) + (if op.regions@.len() == entry.region_reqs@.len() {
        Seq::empty()
    } else {
        seq![
            Diagnostic {
                loc: op.loc,
                code: DiagCode::RegionCountMismatch {
                    expected: entry.region_reqs@.len() as usize,
                    found: op.regions@.len() as usize,
                },
            },
        ]
    }) + attr_req_diags(ctx, op, entry.attr_reqs@, entry.attr_reqs@.len() as int)
}

/// The schema-lookup check at one node: unknown kind, or the entry's checks.
pub open spec fn kind_diags(tbl: Seq<SchemaEntry>, ctx: Context, op: Operation) -> Seq<Diagnostic> {
    match schema_lookup(tbl, op.kind@) {
        Option::None => seq![Diagnostic { loc: op.loc, code: DiagCode::UnknownKind }],
        Option::Some(entry) => entry_diags(ctx, entry, op),
    }
}

/// The checks made at one operation node itself, before descending: schema
/// lookup, arity agreement, required attributes, operand dominance.
pub open spec fn op_local_diags(
    tbl: Seq<SchemaEntry>,
    ctx: Context,
    scope: Seq<ValueId>,
    op: Operation,
) -> Seq<Diagnostic> {
    kind_diags(tbl, ctx, op) + operand_diags(scope, op, op.operands@.len() as int)
}

/// The input-port element types that a named type-reference attribute's
/// module signature declares, if the name resolves to one.
pub open spec fn sig_input_tys(ctx: Context, attrs: Seq<AttrBinding>, name: Seq<char>) -> Option<
    Seq<TypeId>,
> {
    match find_attr(attrs, name) {
        Option::None => Option::None,
        Option::Some(h) => if h.idx < ctx.attrs@.len() {
            match ctx.attrs@[h.idx as int] {
                AttrDesc::TypeRef { ty } => if ty.idx < ctx.types@.len() {
                    match ctx.types@[ty.idx as int] {
                        TypeDesc::ModuleSig { ports } => Option::Some(input_tys(ports@)),
                        _ => Option::None,
                    }
                } else {
                    Option::None
                },
                _ => Option::None,
            }
        } else {
            Option::None
        },
    }
}

/// Whether a block's argument list meets the region rule, against the
/// owning operation's attribute bindings.
pub open spec fn block_args_ok(
    ctx: Context,
    pattrs: Seq<AttrBinding>,
    rule: RegionReq,
    block: Block,
) -> bool {
    match rule.args {
        BlockArgReq::Any => true,
        BlockArgReq::Exactly { count } => block.args@.len() == count,
        BlockArgReq::FromSignature { attr } => match sig_input_tys(ctx, pattrs, attr@) {
            Option::None => false,
            Option::Some(tys) => {
                &&& block.args@.len() == tys.len()
                &&& forall|i: int| 0 <= i < tys.len() ==> (#[trigger] block.args@[i]).ty == tys[i]
            },
        },
    }
}

/// Whether a block ends in the terminating operation the rule requires.
pub open spec fn block_term_ok(rule: RegionReq, block: Block) -> bool {
    match rule.terminator {
        Option::None => true,
        Option::Some(t) => block.ops@.len() > 0 && block.ops@[block.ops@.len() - 1].kind@ == t@,
    }
}

/// The rule the schema imposes on region `i`, if the kind is known and
/// declares that many regions.
pub open spec fn region_rule(entry: Option<SchemaEntry>, i: int) -> Option<RegionReq> {
    match entry {
        Option::None => Option::None,
        Option::Some(e) => if 0 <= i < e.region_reqs@.len() {
            Option::Some(e.region_reqs@[i])
        } else {
            Option::None
        },
    }
}

/// All diagnostics of one operation's subtree, pre-order: the node's own
/// checks first, then each region, each block, each nested operation, in
/// order. `scope` is the sequence of value identifiers whose definitions
/// dominate the operation.
pub open spec fn op_diags(
    tbl: Seq<SchemaEntry>,
    ctx: Context,
    scope: Seq<ValueId>,
    op: Operation,
) -> Seq<Diagnostic>
    decreases op, 1int,
{
    op_local_diags(tbl, ctx, scope, op) + regions_diags(
        tbl,
        ctx,
        scope,
        schema_lookup(tbl, op.kind@),
        op.attrs@,
        op.loc,
        op.regions@,
        op.regions@.len() as int,
    )
}

/// Diagnostics of the first `n` regions of an operation, in order.
pub open spec fn regions_diags(
    tbl: Seq<SchemaEntry>,
    ctx: Context,
    scope: Seq<ValueId>,
    entry: Option<SchemaEntry>,
    pattrs: Seq<AttrBinding>,
    ploc: Location,
    regions: Seq<Region>,
    n: int,
) -> Seq<Diagnostic>
    decreases regions, n,
{
    if n <= 0 || n > regions.len() {
        Seq::empty()
    } else {
        regions_diags(tbl, ctx, scope, entry, pattrs, ploc, regions, n - 1) + region_diags(
            tbl,
            ctx,
            scope,
            region_rule(entry, n - 1),
            pattrs,
            ploc,
            (n - 1) as usize,
            regions[n - 1],
        )
    }
}

/// Diagnostics of one region: its block count against the rule, then each
/// block in order.
pub open spec fn region_diags(
    tbl: Seq<SchemaEntry>,
    ctx: Context,
    scope: Seq<ValueId>,
    rule: Option<RegionReq>,
    pattrs: Seq<AttrBinding>,
    ploc: Location,
    ridx: usize,
    region: Region,
) -> Seq<Diagnostic>
    decreases region, 1int,
{
    (match rule {
        Option::Some(r) => match r.blocks {
            BlockCountReq::Any => Seq::empty(),
            BlockCountReq::Exactly { count } => if region.blocks@.len() == count {
                Seq::empty()
            } else {
                seq![
                    Diagnostic { loc: ploc, code: DiagCode::BlockCountMismatch { region: ridx } },
                ]
            },
        },
        Option::None => Seq::empty(),
    }) + blocks_diags(
        tbl,
        ctx,
        scope,
        rule,
        pattrs,
        ploc,
        ridx,
        region.blocks@,
        region.blocks@.len() as int,
    )
}

/// Diagnostics of the first `n` blocks of a region, in order.
pub open spec fn blocks_diags(
    tbl: Seq<SchemaEntry>,
    ctx: Context,
    scope: Seq<ValueId>,
    rule: Option<RegionReq>,
    pattrs: Seq<AttrBinding>,
    ploc: Location,
    ridx: usize,
    blocks: Seq<Block>,
    n: int,
) -> Seq<Diagnostic>
    decreases blocks, n,
{
    if n <= 0 || n > blocks.len() {
        Seq::empty()
    } else {
        blocks_diags(tbl, ctx, scope, rule, pattrs, ploc, ridx, blocks, n - 1) + block_diags(
            tbl,
            ctx,
            scope,
            rule,
            pattrs,
            ploc,
            ridx,
            (n - 1) as usize,
            blocks[n - 1],
        )
    }
}

/// Diagnostics of one block: its argument list and terminator against the
/// rule, then its operations in order, each seeing the dominating scope
/// extended by this block's arguments and by the results of the operations
/// standing before it.
pub open spec fn block_diags(
    tbl: Seq<SchemaEntry>,
    ctx: Context,
    scope: Seq<ValueId>,
    rule: Option<RegionReq>,
    pattrs: Seq<AttrBinding>,
    ploc: Location,
    ridx: usize,
    bidx: usize,
    block: Block,
) -> Seq<Diagnostic>
    decreases block, 1int,
{
    (match rule {
        Option::Some(r) => (if block_args_ok(ctx, pattrs, r, block) {
            Seq::empty()
        } else {
            seq![
                Diagnostic {
                    loc: ploc,
                    code: DiagCode::BlockArgMismatch { region: ridx, block: bidx },
                },
            ]
        }) + (if block_term_ok(r, block) {
            Seq::empty()
        } else {
            seq![
                Diagnostic {
                    loc: ploc,
                    code: DiagCode::MissingTerminator { region: ridx, block: bidx },
                },
            ]
        }),
        Option::None => Seq::empty(),
    }) + ops_diags(tbl, ctx, scope + arg_ids(block.args@), block.ops@, block.ops@.len() as int)
}

/// Diagnostics of the first `n` operations of a block, in order; the
/// operation at position `k` sees `base` extended by the results of the
/// operations before it.
pub open spec fn ops_diags(
    tbl: Seq<SchemaEntry>,
    ctx: Context,
    base: Seq<ValueId>,
    ops: Seq<Operation>,
    n: int,
) -> Seq<Diagnostic>
    decreases ops, n,
{
    if n <= 0 || n > ops.len() {
        Seq::empty()
    } else {
        ops_diags(tbl, ctx, base, ops, n - 1) + op_diags(
            tbl,
            ctx,
            base + results_upto(ops, n - 1),
            ops[n - 1],
        )
    }
}

/// The rule an `Option<&RegionReq>` denotes.
pub open spec fn opt_rule(rule: Option<&RegionReq>) -> Option<RegionReq> {
    match rule {
        Option::Some(r) => Option::Some(*r),
        Option::None => Option::None,
    }
}

/// Decides membership of a value identifier in a scope.
#[verifier::loop_isolation(false)]
fn scope_contains(scope: &Vec<ValueId>, id: ValueId) -> (r: bool)
    ensures
        r == scope@.contains(id),
{
    let mut i: usize = 0;
    while i < scope.len()
        invariant
            0 <= i <= scope@.len(),
            forall|j: int| 0 <= j < i ==> scope@[j] != id,
        decreases scope@.len() - i,
    {
        if scope[i] == id {
            proof {
                assert(scope@[i as int] == id);
            }
            return true;
        }
        i += 1;
    }
    false
}

/// Finds the first binding of a name among an operation's attributes.
#[verifier::loop_isolation(false)]
fn find_attr_exec(attrs: &Vec<AttrBinding>, name: &String) -> (r: Option<AttrId>)
    ensures
        r == find_attr(attrs@, name@),
{
    let mut i: usize = 0;
    while i < attrs.len()
        invariant
            0 <= i <= attrs@.len(),
            find_attr(attrs@, name@) == find_attr_from(attrs@, name@, i as int),
        decreases attrs@.len() - i,
    {
        if attrs[i].name == *name {
            return Some(attrs[i].attr);
        }
        i += 1;
    }
    None
}

/// Decides whether a resolved attribute meets a schema requirement.
fn attr_req_met_exec(ctx: &Context, op: &Operation, req: AttrKindReq, h: AttrId) -> (r: bool)
    ensures
        r == attr_req_met(*ctx, *op, req, h),
{
    if h.idx >= ctx.attrs.len() {
        return false;
    }
    match req {
        AttrKindReq::AnyInt => matches!(&ctx.attrs[h.idx], AttrDesc::Int { .. }),
        AttrKindReq::IntWidth { width } => match &ctx.attrs[h.idx] {
            AttrDesc::Int { width: w, .. } => *w == width,
            _ => false,
        },
        AttrKindReq::Str => matches!(&ctx.attrs[h.idx], AttrDesc::Str { .. }),
        AttrKindReq::TypeRef => matches!(&ctx.attrs[h.idx], AttrDesc::TypeRef { .. }),
        AttrKindReq::Array => matches!(&ctx.attrs[h.idx], AttrDesc::Array { .. }),
        AttrKindReq::IntOfResult { result } => {
            if result >= op.results.len() {
                return false;
            }
            let ty = op.results[result].ty;
            if ty.idx >= ctx.types.len() {
                return false;
            }
            match &ctx.types[ty.idx] {
                TypeDesc::Int { width: tw } => match &ctx.attrs[h.idx] {
                    AttrDesc::Int { width: aw, .. } => *aw == *tw,
                    _ => false,
                },
                _ => false,
            }
        },
    }
}

/// Resolves the input-port element types of the module signature a named
/// type-reference attribute points at, if it does.
#[verifier::loop_isolation(false)]
fn sig_input_tys_exec(ctx: &Context, attrs: &Vec<AttrBinding>, name: &String) -> (r: Option<
    Vec<TypeId>,
>)
    ensures
        match r {
            Option::Some(v) => sig_input_tys(*ctx, attrs@, name@) == Option::Some(v@),
            Option::None => sig_input_tys(*ctx, attrs@, name@) is None,
        },
{
    let h = match find_attr_exec(attrs, name) {
        Option::Some(h) => h,
        Option::None => {
            return None;
        },
    };
    if h.idx >= ctx.attrs.len() {
        return None;
    }
    let ty = match &ctx.attrs[h.idx] {
        AttrDesc::TypeRef { ty } => *ty,
        _ => {
            return None;
        },
    };
    if ty.idx >= ctx.types.len() {
        return None;
    }
    match &ctx.types[ty.idx] {
        TypeDesc::ModuleSig { ports } => {
            let mut tys: Vec<TypeId> = Vec::new();
            let mut i: usize = 0;
            while i < ports.len()
                invariant
                    0 <= i <= ports@.len(),
                    tys@ == input_tys_upto(ports@, i as int),
                decreases ports@.len() - i,
            {
                match &ports[i].dir {
                    crate::context::Direction::Input => {
                        tys.push(ports[i].ty);
                        proof {
                            assert(tys@ =~= input_tys_upto(ports@, i as int + 1));
                        }
                    },
                    crate::context::Direction::Output => {
                        proof {
                            assert(tys@ =~= input_tys_upto(ports@, i as int + 1));
                        }
                    },
                }
                i += 1;
            }
            Some(tys)
        },
        _ => None,
    }
}

/// Decides whether a block's argument types equal an expected list.
#[verifier::loop_isolation(false)]
fn args_match(expect: &Vec<TypeId>, block: &Block) -> (r: bool)
    ensures
        r == (block.args@.len() == expect@.len() && forall|i: int|
            0 <= i < expect@.len() ==> (#[trigger] block.args@[i]).ty == expect@[i]),
{
    if block.args.len() != expect.len() {
        return false;
    }
    let mut i: usize = 0;
    while i < expect.len()
        invariant
            0 <= i <= expect@.len(),
            block.args@.len() == expect@.len(),
            forall|j: int| 0 <= j < i ==> (#[trigger] block.args@[j]).ty == expect@[j],
        decreases expect@.len() - i,
    {
        if !(block.args[i].ty == expect[i]) {
            proof {
                assert(block.args@[i as int].ty != expect@[i as int]);
            }
            return false;
        }
        i += 1;
    }
    true
}

/// Appends the arity and attribute diagnostics of one known entry.
#[verifier::loop_isolation(false)]
#[verifier::rlimit(100)]
#[verifier::spinoff_prover]
fn verify_entry(ctx: &Context, e: &SchemaEntry, op: &Operation, out: &mut Vec<Diagnostic>)
    ensures
        final(out)@ == old(out)@ + entry_diags(*ctx, *e, *op),
{
    let ghost start = out@;
    if op.operands.len() != e.num_operands {
        out.push(
            Diagnostic {
                loc: op.loc,
                code: DiagCode::OperandCountMismatch {
                    expected: e.num_operands,
                    found: op.operands.len(),
                },
            },
        );
    }
    if op.results.len() != e.num_results {
        out.push(
            Diagnostic {
                loc: op.loc,
                code: DiagCode::ResultCountMismatch {
                    expected: e.num_results,
                    found: op.results.len(),
                },
            },
        );
    }
    if op.regions.len() != e.region_reqs.len() {
        out.push(
            Diagnostic {
                loc: op.loc,
                code: DiagCode::RegionCountMismatch {
                    expected: e.region_reqs.len(),
                    found: op.regions.len(),
                },
            },
        );
    }
    let ghost mid_counts = out@;
    let mut k: usize = 0;
    while k < e.attr_reqs.len()
        invariant
            0 <= k <= e.attr_reqs@.len(),
            out@ == mid_counts + attr_req_diags(*ctx, *op, e.attr_reqs@, k as int),
        decreases e.attr_reqs@.len() - k,
    {
        match find_attr_exec(&op.attrs, &e.attr_reqs[k].name) {
            Option::None => {
                out.push(Diagnostic { loc: op.loc, code: DiagCode::MissingAttr { req: k } });
            },
            Option::Some(h) => {
                if !attr_req_met_exec(ctx, op, e.attr_reqs[k].req, h) {
                    out.push(
                        Diagnostic { loc: op.loc, code: DiagCode::AttrTypeMismatch { req: k } },
                    );
                }
            },
        }
        k += 1;
    }
    proof {
        assert(out@ =~= start + entry_diags(*ctx, *e, *op));
    }
}

/// Walks one operation node pre-order, appending its subtree's diagnostics.
#[verifier::loop_isolation(false)]
fn verify_op_rec(
    tbl: &Vec<SchemaEntry>,
    ctx: &Context,
    scope: &Vec<ValueId>,
    op: &Operation,
    out: &mut Vec<Diagnostic>,
)
    ensures
        final(out)@ == old(out)@ + op_diags(tbl@, *ctx, scope@, *op),
    decreases *op, 3int,
{
    let ghost start = out@;
    let entry = lookup(tbl, &op.kind);
    match entry {
        Option::None => {
            out.push(Diagnostic { loc: op.loc, code: DiagCode::UnknownKind });
        },
        Option::Some(e) => {
            verify_entry(ctx, e, op, out);
        },
    }
    proof {
        assert(out@ =~= start + kind_diags(tbl@, *ctx, *op));
    }
    let ghost mid_local = out@;
    let mut k: usize = 0;
    while k < op.operands.len()
        invariant
            0 <= k <= op.operands@.len(),
            out@ == mid_local + operand_diags(scope@, *op, k as int),
        decreases op.operands@.len() - k,
    {
        if !scope_contains(scope, op.operands[k]) {
            out.push(Diagnostic { loc: op.loc, code: DiagCode::OperandOutOfScope { operand: k } });
        }
        k += 1;
    }
    proof {
        assert(out@ =~= start + op_local_diags(tbl@, *ctx, scope@, *op));
    }
    let ghost mid_ops = out@;
    let mut i: usize = 0;
    while i < op.regions.len()
        invariant
            0 <= i <= op.regions@.len(),
            out@ == mid_ops + regions_diags(
                tbl@,
                *ctx,
                scope@,
                schema_lookup(tbl@, op.kind@),
                op.attrs@,
                op.loc,
                op.regions@,
                i as int,
            ),
        decreases op.regions@.len() - i,
    {
        let rule: Option<&RegionReq> = match entry {
            Option::Some(e) => if i < e.region_reqs.len() {
                Some(&e.region_reqs[i])
            } else {
                None
            },
            Option::None => None,
        };
        proof {
            assert(opt_rule(rule) == region_rule(schema_lookup(tbl@, op.kind@), i as int));
            assert(decreases_to!(*op => op.regions@[i as int]));
        }
        verify_region_rec(tbl, ctx, scope, rule, &op.attrs, op.loc, i, &op.regions[i], out);
        proof {
            assert(out@ =~= mid_ops + regions_diags(
                tbl@,
                *ctx,
                scope@,
                schema_lookup(tbl@, op.kind@),
                op.attrs@,
                op.loc,
                op.regions@,
                i as int + 1,
            ));
        }
        i += 1;
    }
    proof {
        assert(out@ =~= old(out)@ + op_diags(tbl@, *ctx, scope@, *op));
    }
}

/// Walks one region, appending its diagnostics.
#[verifier::loop_isolation(false)]
fn verify_region_rec(
    tbl: &Vec<SchemaEntry>,
    ctx: &Context,
    scope: &Vec<ValueId>,
    rule: Option<&RegionReq>,
    pattrs: &Vec<AttrBinding>,
    ploc: Location,
    ridx: usize,
    region: &Region,
    out: &mut Vec<Diagnostic>,
)
    ensures
        final(out)@ == old(out)@ + region_diags(
            tbl@,
            *ctx,
            scope@,
            opt_rule(rule),
            pattrs@,
            ploc,
            ridx,
            *region,
        ),
    decreases *region, 2int,
{
    match rule {
        Option::Some(r) => match r.blocks {
            BlockCountReq::Exactly { count } => {
                if region.blocks.len() != count {
                    out.push(
                        Diagnostic { loc: ploc, code: DiagCode::BlockCountMismatch { region: ridx } },
                    );
                }
            },
            BlockCountReq::Any => {},
        },
        Option::None => {},
    }
    let ghost mid = out@;
    let mut b: usize = 0;
    while b < region.blocks.len()
        invariant
            0 <= b <= region.blocks@.len(),
            out@ == mid + blocks_diags(
                tbl@,
                *ctx,
                scope@,
                opt_rule(rule),
                pattrs@,
                ploc,
                ridx,
                region.blocks@,
                b as int,
            ),
        decreases region.blocks@.len() - b,
    {
        proof {
            assert(decreases_to!(*region => region.blocks@[b as int]));
        }
        verify_block_rec(tbl, ctx, scope, rule, pattrs, ploc, ridx, b, &region.blocks[b], out);
        proof {
            assert(out@ =~= mid + blocks_diags(
                tbl@,
                *ctx,
                scope@,
                opt_rule(rule),
                pattrs@,
                ploc,
                ridx,
                region.blocks@,
                b as int + 1,
            ));
        }
        b += 1;
    }
    proof {
        assert(out@ =~= old(out)@ + region_diags(
            tbl@,
            *ctx,
            scope@,
            opt_rule(rule),
            pattrs@,
            ploc,
            ridx,
            *region,
        ));
    }
}

/// Walks one block, appending its diagnostics; nested operations see the
/// scope extended by this block's arguments and earlier results.
#[verifier::loop_isolation(false)]
fn verify_block_rec(
    tbl: &Vec<SchemaEntry>,
    ctx: &Context,
    scope: &Vec<ValueId>,
    rule: Option<&RegionReq>,
    pattrs: &Vec<AttrBinding>,
    ploc: Location,
    ridx: usize,
    bidx: usize,
    block: &Block,
    out: &mut Vec<Diagnostic>,
)
    ensures
        final(out)@ == old(out)@ + block_diags(
            tbl@,
            *ctx,
            scope@,
            opt_rule(rule),
            pattrs@,
            ploc,
            ridx,
            bidx,
            *block,
        ),
    decreases *block, 1int,
{
    match rule {
        Option::Some(r) => {
            let args_ok: bool = match &r.args {
                BlockArgReq::Any => true,
                BlockArgReq::Exactly { count } => block.args.len() == *count,
                BlockArgReq::FromSignature { attr } => match sig_input_tys_exec(ctx, pattrs, attr) {
                    Option::None => false,
                    Option::Some(tys) => args_match(&tys, block),
                },
            };
            proof {
                assert(args_ok == block_args_ok(*ctx, pattrs@, *r, *block));
            }
            if !args_ok {
                out.push(
                    Diagnostic {
                        loc: ploc,
                        code: DiagCode::BlockArgMismatch { region: ridx, block: bidx },
                    },
                );
            }
            let term_ok: bool = match &r.terminator {
                Option::None => true,
                Option::Some(t) => {
                    if block.ops.len() == 0 {
                        false
                    } else {
                        block.ops[block.ops.len() - 1].kind == *t
                    }
                },
            };
            proof {
                assert(term_ok == block_term_ok(*r, *block));
            }
            if !term_ok {
                out.push(
                    Diagnostic {
                        loc: ploc,
                        code: DiagCode::MissingTerminator { region: ridx, block: bidx },
                    },
                );
            }
        },
        Option::None => {},
    }
    let mut inner: Vec<ValueId> = Vec::new();
    let mut i: usize = 0;
    while i < scope.len()
        invariant
            0 <= i <= scope@.len(),
            inner@ == scope@.subrange(0, i as int),
        decreases scope@.len() - i,
    {
        inner.push(scope[i]);
        proof {
            assert(inner@ =~= scope@.subrange(0, i as int + 1));
        }
        i += 1;
    }
    proof {
        assert(inner@ =~= scope@);
    }
    let mut i: usize = 0;
    while i < block.args.len()
        invariant
            0 <= i <= block.args@.len(),
            inner@ == scope@ + arg_ids(block.args@).subrange(0, i as int),
        decreases block.args@.len() - i,
    {
        inner.push(block.args[i].id);
        proof {
            assert(arg_ids(block.args@)[i as int] == block.args@[i as int].id);
            assert(inner@ =~= scope@ + arg_ids(block.args@).subrange(0, i as int + 1));
        }
        i += 1;
    }
    let ghost base = scope@ + arg_ids(block.args@);
    proof {
        assert(inner@ =~= base);
    }
    let ghost mid = out@;
    let mut k: usize = 0;
    while k < block.ops.len()
        invariant
            0 <= k <= block.ops@.len(),
            inner@ == base + results_upto(block.ops@, k as int),
            out@ == mid + ops_diags(tbl@, *ctx, base, block.ops@, k as int),
        decreases block.ops@.len() - k,
    {
        proof {
            assert(decreases_to!(*block => block.ops@[k as int]));
        }
        verify_op_rec(tbl, ctx, &inner, &block.ops[k], out);
        proof {
            assert(out@ =~= mid + ops_diags(tbl@, *ctx, base, block.ops@, k as int + 1));
        }
        let ghost before = inner@;
        let mut q: usize = 0;
        while q < block.ops[k].results.len()
            invariant
                0 <= q <= block.ops@[k as int].results@.len(),
                inner@ == before + ids_of(block.ops@[k as int].results@).subrange(0, q as int),
            decreases block.ops@[k as int].results@.len() - q,
        {
            inner.push(block.ops[k].results[q].id);
            proof {
                assert(ids_of(block.ops@[k as int].results@)[q as int] == block.ops@[k as int].results@[q as int].id);
                assert(inner@ =~= before + ids_of(block.ops@[k as int].results@).subrange(
                    0,
                    q as int + 1,
                ));
            }
            q += 1;
        }
        proof {
            assert(ids_of(block.ops@[k as int].results@).subrange(
                0,
                block.ops@[k as int].results@.len() as int,
            ) =~= ids_of(block.ops@[k as int].results@));
            assert(inner@ =~= base + results_upto(block.ops@, k as int + 1));
        }
        k += 1;
    }
    proof {
        assert(out@ =~= old(out)@ + block_diags(
            tbl@,
            *ctx,
            scope@,
            opt_rule(rule),
            pattrs@,
            ploc,
            ridx,
            bidx,
            *block,
        ));
    }
}

/// Verifies a completed tree from its root operation: a full recursive
/// pre-order traversal that collects every structural violation. `Ok` is
/// returned exactly when the traversal found zero diagnostics; otherwise the
/// complete list is returned, in traversal order.
pub fn verify(tbl: &Vec<SchemaEntry>, ctx: &Context, root: &Operation) -> (r: Result<
    (),
    Vec<Diagnostic>,
>)
    ensures
        match r {
            Result::Ok(()) => op_diags(tbl@, *ctx, Seq::empty(), *root) == Seq::<
                Diagnostic,
            >::empty(),
            Result::Err(ds) => ds@ == op_diags(tbl@, *ctx, Seq::empty(), *root) && ds@.len() > 0,
        },
{
    let mut out: Vec<Diagnostic> = Vec::new();
    let empty_scope: Vec<ValueId> = Vec::new();
    verify_op_rec(tbl, ctx, &empty_scope, root, &mut out);
    if out.len() == 0 {
        proof {
            assert(out@ =~= Seq::<Diagnostic>::empty());
        }
        Ok(())
    } else {
        Err(out)
    }
}

/// Local conformance of one operation node: its kind is known, arities
/// agree, every required attribute is present and well-shaped, and every
/// operand resolves to a dominating definition.
pub open spec fn op_conforms(
    tbl: Seq<SchemaEntry>,
    ctx: Context,
    scope: Seq<ValueId>,
    op: Operation,
) -> bool {
    &&& schema_lookup(tbl, op.kind@) is Some
    &&& {
        let entry = schema_lookup(tbl, op.kind@)->Some_0;
        &&& op.operands@.len() == entry.num_operands
        &&& op.results@.len() == entry.num_results
        &&& op.regions@.len() == entry.region_reqs@.len()
        &&& forall|k: int|
            0 <= k < entry.attr_reqs@.len() ==> {
                let req = #[trigger] entry.attr_reqs@[k];
                &&& find_attr(op.attrs@, req.name@) is Some
                &&& attr_req_met(ctx, op, req.req, find_attr(op.attrs@, req.name@)->Some_0)
            }
    }
    &&& forall|k: int| 0 <= k < op.operands@.len() ==> scope.contains(#[trigger] op.operands@[k])
}

/// Structural validity of one operation's whole subtree, defined in the
/// same pre-order shape as the diagnostic collection.
pub open spec fn op_valid(
    tbl: Seq<SchemaEntry>,
    ctx: Context,
    scope: Seq<ValueId>,
    op: Operation,
) -> bool
    decreases op, 1int,
{
    &&& op_conforms(tbl, ctx, scope, op)
    &&& regions_valid(
        tbl,
        ctx,
        scope,
        schema_lookup(tbl, op.kind@),
        op.attrs@,
        op.regions@,
        op.regions@.len() as int,
    )
}

/// Validity of the first `n` regions.
pub open spec fn regions_valid(
    tbl: Seq<SchemaEntry>,
    ctx: Context,
    scope: Seq<ValueId>,
    entry: Option<SchemaEntry>,
    pattrs: Seq<AttrBinding>,
    regions: Seq<Region>,
    n: int,
) -> bool
    decreases regions, n,
{
    if n <= 0 || n > regions.len() {
        true
    } else {
        regions_valid(tbl, ctx, scope, entry, pattrs, regions, n - 1) && region_valid(
            tbl,
            ctx,
            scope,
            region_rule(entry, n - 1),
            pattrs,
            regions[n - 1],
        )
    }
}

/// Validity of one region: its block count meets the rule and its blocks
/// are valid.
pub open spec fn region_valid(
    tbl: Seq<SchemaEntry>,
    ctx: Context,
    scope: Seq<ValueId>,
    rule: Option<RegionReq>,
    pattrs: Seq<AttrBinding>,
    region: Region,
) -> bool
    decreases region, 1int,
{
    &&& (match rule {
        Option::Some(r) => match r.blocks {
            BlockCountReq::Any => true,
            BlockCountReq::Exactly { count } => region.blocks@.len() == count,
        },
        Option::None => true,
    })
    &&& blocks_valid(tbl, ctx, scope, rule, pattrs, region.blocks@, region.blocks@.len() as int)
}

/// Validity of the first `n` blocks.
pub open spec fn blocks_valid(
    tbl: Seq<SchemaEntry>,
    ctx: Context,
    scope: Seq<ValueId>,
    rule: Option<RegionReq>,
    pattrs: Seq<AttrBinding>,
    blocks: Seq<Block>,
    n: int,
) -> bool
    decreases blocks, n,
{
    if n <= 0 || n > blocks.len() {
        true
    } else {
        blocks_valid(tbl, ctx, scope, rule, pattrs, blocks, n - 1) && block_valid(
            tbl,
            ctx,
            scope,
            rule,
            pattrs,
            blocks[n - 1],
        )
    }
}

/// Validity of one block: arguments and terminator meet the rule, and every
/// operation is valid under the scope this block provides.
pub open spec fn block_valid(
    tbl: Seq<SchemaEntry>,
    ctx: Context,
    scope: Seq<ValueId>,
    rule: Option<RegionReq>,
    pattrs: Seq<AttrBinding>,
    block: Block,
) -> bool
    decreases block, 1int,
{
    &&& (match rule {
        Option::Some(r) => block_args_ok(ctx, pattrs, r, block) && block_term_ok(r, block),
        Option::None => true,
    })
    &&& ops_valid(tbl, ctx, scope + arg_ids(block.args@), block.ops@, block.ops@.len() as int)
}

/// Validity of the first `n` operations of a block.
pub open spec fn ops_valid(
    tbl: Seq<SchemaEntry>,
    ctx: Context,
    base: Seq<ValueId>,
    ops: Seq<Operation>,
    n: int,
) -> bool
    decreases ops, n,
{
    if n <= 0 || n > ops.len() {
        true
    } else {
        ops_valid(tbl, ctx, base, ops, n - 1) && op_valid(
            tbl,
            ctx,
            base + results_upto(ops, n - 1),
            ops[n - 1],
        )
    }
}

/// The first `n` attribute requirements raise no diagnostic exactly when
/// each is present and met.
proof fn lemma_attr_req_diags_empty(ctx: Context, op: Operation, reqs: Seq<AttrReq>, n: int)
    ensures
        attr_req_diags(ctx, op, reqs, n).len() == 0 <==> (forall|k: int|
            0 <= k < n ==> {
                let req = #[trigger] reqs[k];
                &&& find_attr(op.attrs@, req.name@) is Some
                &&& attr_req_met(ctx, op, req.req, find_attr(op.attrs@, req.name@)->Some_0)
            }),
    decreases n,
{
    if n > 0 {
        lemma_attr_req_diags_empty(ctx, op, reqs, n - 1);
    }
}

/// The first `n` operand checks raise no diagnostic exactly when each
/// operand is in scope.
proof fn lemma_operand_diags_empty(scope: Seq<ValueId>, op: Operation, n: int)
    ensures
        operand_diags(scope, op, n).len() == 0 <==> (forall|k: int|
            0 <= k < n ==> scope.contains(#[trigger] op.operands@[k])),
    decreases n,
{
    if n > 0 {
        lemma_operand_diags_empty(scope, op, n - 1);
    }
}

/// The node-local checks raise no diagnostic exactly when the node
/// conforms.
proof fn lemma_local_diags_empty(
    tbl: Seq<SchemaEntry>,
    ctx: Context,
    scope: Seq<ValueId>,
    op: Operation,
)
    ensures
        op_local_diags(tbl, ctx, scope, op).len() == 0 <==> op_conforms(tbl, ctx, scope, op),
{
    lemma_operand_diags_empty(scope, op, op.operands@.len() as int);
    match schema_lookup(tbl, op.kind@) {
        Option::None => {},
        Option::Some(entry) => {
            lemma_attr_req_diags_empty(ctx, op, entry.attr_reqs@, entry.attr_reqs@.len() as int);
        },
    }
}

/// The verifier is sound and complete against structural validity: a
/// subtree contributes zero diagnostics exactly when it is valid. So a
/// conforming operation enclosed in a valid module — in particular, one
/// built by the builder from schema-conforming inputs and wrapped in a
/// trivially enclosing module — passes verification with zero diagnostics,
/// and any violation surfaces.
pub proof fn lemma_op_diags_empty_iff_valid(
    tbl: Seq<SchemaEntry>,
    ctx: Context,
    scope: Seq<ValueId>,
    op: Operation,
)
    ensures
        op_diags(tbl, ctx, scope, op).len() == 0 <==> op_valid(tbl, ctx, scope, op),
    decreases op, 2int,
{
    lemma_local_diags_empty(tbl, ctx, scope, op);
    lemma_regions_diags_empty_iff_valid(
        tbl,
        ctx,
        scope,
        schema_lookup(tbl, op.kind@),
        op.attrs@,
        op.loc,
        op.regions@,
        op.regions@.len() as int,
    );
}

/// The first `n` regions contribute zero diagnostics exactly when they are
/// valid.
proof fn lemma_regions_diags_empty_iff_valid(
    tbl: Seq<SchemaEntry>,
    ctx: Context,
    scope: Seq<ValueId>,
    entry: Option<SchemaEntry>,
    pattrs: Seq<AttrBinding>,
    ploc: Location,
    regions: Seq<Region>,
    n: int,
)
    ensures
        regions_diags(tbl, ctx, scope, entry, pattrs, ploc, regions, n).len() == 0 <==> regions_valid(
            tbl,
            ctx,
            scope,
            entry,
            pattrs,
            regions,
            n,
        ),
    decreases regions, n,
{
    if !(n <= 0 || n > regions.len()) {
        lemma_regions_diags_empty_iff_valid(tbl, ctx, scope, entry, pattrs, ploc, regions, n - 1);
        lemma_region_diags_empty_iff_valid(
            tbl,
            ctx,
            scope,
            region_rule(entry, n - 1),
            pattrs,
            ploc,
            (n - 1) as usize,
            regions[n - 1],
        );
    }
}

/// One region contributes zero diagnostics exactly when it is valid.
proof fn lemma_region_diags_empty_iff_valid(
    tbl: Seq<SchemaEntry>,
    ctx: Context,
    scope: Seq<ValueId>,
    rule: Option<RegionReq>,
    pattrs: Seq<AttrBinding>,
    ploc: Location,
    ridx: usize,
    region: Region,
)
    ensures
        region_diags(tbl, ctx, scope, rule, pattrs, ploc, ridx, region).len() == 0 <==> region_valid(
            tbl,
            ctx,
            scope,
            rule,
            pattrs,
            region,
        ),
    decreases region, 2int,
{
    lemma_blocks_diags_empty_iff_valid(
        tbl,
        ctx,
        scope,
        rule,
        pattrs,
        ploc,
        ridx,
        region.blocks@,
        region.blocks@.len() as int,
    );
}

/// The first `n` blocks contribute zero diagnostics exactly when they are
/// valid.
proof fn lemma_blocks_diags_empty_iff_valid(
    tbl: Seq<SchemaEntry>,
    ctx: Context,
    scope: Seq<ValueId>,
    rule: Option<RegionReq>,
    pattrs: Seq<AttrBinding>,
    ploc: Location,
    ridx: usize,
    blocks: Seq<Block>,
    n: int,
)
    ensures
        blocks_diags(tbl, ctx, scope, rule, pattrs, ploc, ridx, blocks, n).len() == 0 <==> blocks_valid(
            tbl,
            ctx,
            scope,
            rule,
            pattrs,
            blocks,
            n,
        ),
    decreases blocks, n,
{
    if !(n <= 0 || n > blocks.len()) {
        lemma_blocks_diags_empty_iff_valid(tbl, ctx, scope, rule, pattrs, ploc, ridx, blocks, n - 1);
        lemma_block_diags_empty_iff_valid(
            tbl,
            ctx,
            scope,
            rule,
            pattrs,
            ploc,
            ridx,
            (n - 1) as usize,
            blocks[n - 1],
        );
    }
}

/// One block contributes zero diagnostics exactly when it is valid.
proof fn lemma_block_diags_empty_iff_valid(
    tbl: Seq<SchemaEntry>,
    ctx: Context,
    scope: Seq<ValueId>,
    rule: Option<RegionReq>,
    pattrs: Seq<AttrBinding>,
    ploc: Location,
    ridx: usize,
    bidx: usize,
    block: Block,
)
    ensures
        block_diags(tbl, ctx, scope, rule, pattrs, ploc, ridx, bidx, block).len() == 0 <==> block_valid(
            tbl,
            ctx,
            scope,
            rule,
            pattrs,
            block,
        ),
    decreases block, 2int,
{
    lemma_ops_diags_empty_iff_valid(
        tbl,
        ctx,
        scope + arg_ids(block.args@),
        block.ops@,
        block.ops@.len() as int,
    );
}

/// The first `n` operations of a block contribute zero diagnostics exactly
/// when they are valid.
proof fn lemma_ops_diags_empty_iff_valid(
    tbl: Seq<SchemaEntry>,
    ctx: Context,
    base: Seq<ValueId>,
    ops: Seq<Operation>,
    n: int,
)
    ensures
        ops_diags(tbl, ctx, base, ops, n).len() == 0 <==> ops_valid(tbl, ctx, base, ops, n),
    decreases ops, n,
{
    if !(n <= 0 || n > ops.len()) {
        lemma_ops_diags_empty_iff_valid(tbl, ctx, base, ops, n - 1);
        lemma_op_diags_empty_iff_valid(tbl, ctx, base + results_upto(ops, n - 1), ops[n - 1]);
    }
}

/// The first `n` operand checks of an operation whose only out-of-scope
/// operand is at index `j` yield exactly that one diagnostic once `n`
/// passes `j`.
proof fn lemma_operand_diags_single(scope: Seq<ValueId>, op: Operation, j: int, n: int)
    requires
        0 <= j < op.operands@.len(),
        !scope.contains(op.operands@[j]),
        forall|k: int|
            0 <= k < op.operands@.len() && k != j ==> scope.contains(#[trigger] op.operands@[k]),
    ensures
        n <= j ==> operand_diags(scope, op, n) == Seq::<Diagnostic>::empty(),
        j < n <= op.operands@.len() ==> operand_diags(scope, op, n) == seq![
            Diagnostic { loc: op.loc, code: DiagCode::OperandOutOfScope { operand: j as usize } },
        ],
    decreases n,
{
    if n > 0 {
        lemma_operand_diags_single(scope, op, j, n - 1);
        if n - 1 != j {
            assert(scope.contains(op.operands@[n - 1]) || n - 1 >= op.operands@.len());
        }
        if n <= j {
            assert(operand_diags(scope, op, n) =~= Seq::<Diagnostic>::empty());
        } else if n == j + 1 {
            assert(operand_diags(scope, op, n) =~= seq![
                Diagnostic {
                    loc: op.loc,
                    code: DiagCode::OperandOutOfScope { operand: j as usize },
                },
            ]);
        } else if n <= op.operands@.len() {
            assert(operand_diags(scope, op, n) =~= seq![
                Diagnostic {
                    loc: op.loc,
                    code: DiagCode::OperandOutOfScope { operand: j as usize },
                },
            ]);
        }
    }
}

/// An operation that conforms in every respect except one operand — whose
/// definition does not dominate the use site, for instance because it lies
/// in a sibling region or block — and whose subtree is otherwise valid,
/// draws exactly one diagnostic: an out-of-scope report identifying that
/// operand, carrying the operation's own location.
pub proof fn lemma_single_bad_operand(
    tbl: Seq<SchemaEntry>,
    ctx: Context,
    scope: Seq<ValueId>,
    op: Operation,
    j: int,
)
    requires
        schema_lookup(tbl, op.kind@) is Some,
        op.operands@.len() == schema_lookup(tbl, op.kind@)->Some_0.num_operands,
        op.results@.len() == schema_lookup(tbl, op.kind@)->Some_0.num_results,
        op.regions@.len() == schema_lookup(tbl, op.kind@)->Some_0.region_reqs@.len(),
        forall|k: int|
            0 <= k < schema_lookup(tbl, op.kind@)->Some_0.attr_reqs@.len() ==> {
                let req = #[trigger] schema_lookup(tbl, op.kind@)->Some_0.attr_reqs@[k];
                &&& find_attr(op.attrs@, req.name@) is Some
                &&& attr_req_met(ctx, op, req.req, find_attr(op.attrs@, req.name@)->Some_0)
            },
        0 <= j < op.operands@.len(),
        !scope.contains(op.operands@[j]),
        forall|k: int|
            0 <= k < op.operands@.len() && k != j ==> scope.contains(#[trigger] op.operands@[k]),
        regions_valid(
            tbl,
            ctx,
            scope,
            schema_lookup(tbl, op.kind@),
            op.attrs@,
            op.regions@,
            op.regions@.len() as int,
        ),
    ensures
        op_diags(tbl, ctx, scope, op) == seq![
            Diagnostic { loc: op.loc, code: DiagCode::OperandOutOfScope { operand: j as usize } },
        ],
{
    let entry = schema_lookup(tbl, op.kind@)->Some_0;
    lemma_attr_req_diags_empty(ctx, op, entry.attr_reqs@, entry.attr_reqs@.len() as int);
    assert(attr_req_diags(ctx, op, entry.attr_reqs@, entry.attr_reqs@.len() as int) =~= Seq::<
        Diagnostic,
    >::empty());
    lemma_operand_diags_single(scope, op, j, op.operands@.len() as int);
    lemma_regions_diags_empty_iff_valid(
        tbl,
        ctx,
        scope,
        schema_lookup(tbl, op.kind@),
        op.attrs@,
        op.loc,
        op.regions@,
        op.regions@.len() as int,
    );
    assert(regions_diags(
        tbl,
        ctx,
        scope,
        schema_lookup(tbl, op.kind@),
        op.attrs@,
        op.loc,
        op.regions@,
        op.regions@.len() as int,
    ) =~= Seq::<Diagnostic>::empty());
    assert(op_diags(tbl, ctx, scope, op) =~= seq![
        Diagnostic { loc: op.loc, code: DiagCode::OperandOutOfScope { operand: j as usize } },
    ]);
}

/// The builder-to-verifier law for one node: an operation built with no
/// regions whose kind, arities, attributes and operands all conform to its
/// schema entry contributes zero diagnostics — so building from
/// schema-conforming inputs and verifying immediately succeeds.
pub proof fn lemma_built_leaf_verifies(
    tbl: Seq<SchemaEntry>,
    ctx: Context,
    scope: Seq<ValueId>,
    op: Operation,
)
    requires
        op_conforms(tbl, ctx, scope, op),
        op.regions@.len() == 0,
    ensures
        op_diags(tbl, ctx, scope, op).len() == 0,
{
    lemma_op_diags_empty_iff_valid(tbl, ctx, scope, op);
}

/// The enclosing-module law: a module operation that itself conforms, whose
/// single region holds a single argument-free block containing exactly one
/// valid operation, and whose region rule asks nothing further of that
/// block, passes verification with zero diagnostics.
pub proof fn lemma_trivial_enclosure_verifies(
    tbl: Seq<SchemaEntry>,
    ctx: Context,
    module: Operation,
    op: Operation,
)
    requires
        op_conforms(tbl, ctx, Seq::empty(), module),
        module.regions@.len() == 1,
        module.regions@[0].blocks@.len() == 1,
        module.regions@[0].blocks@[0].args@.len() == 0,
        module.regions@[0].blocks@[0].ops@ =~= seq![op],
        region_rule(schema_lookup(tbl, module.kind@), 0) matches Option::Some(r) ==> {
            &&& block_args_ok(ctx, module.attrs@, r, module.regions@[0].blocks@[0])
            &&& block_term_ok(r, module.regions@[0].blocks@[0])
            &&& r.blocks matches BlockCountReq::Exactly { count } ==> count == 1
        },
        op_valid(tbl, ctx, Seq::empty(), op),
    ensures
        op_diags(tbl, ctx, Seq::empty(), module).len() == 0,
{
    let block = module.regions@[0].blocks@[0];
    assert(arg_ids(block.args@) =~= Seq::<ValueId>::empty());
    assert(Seq::<ValueId>::empty() + arg_ids(block.args@) =~= Seq::<ValueId>::empty());
    assert(results_upto(block.ops@, 0) =~= Seq::<ValueId>::empty());
    assert(Seq::<ValueId>::empty() + results_upto(block.ops@, 0) =~= Seq::<ValueId>::empty());
    assert(block.ops@[0] == op);
    assert((Seq::<ValueId>::empty() + arg_ids(block.args@)) + results_upto(block.ops@, 0) =~= Seq::<
        ValueId,
    >::empty());
    assert(op_valid(
        tbl,
        ctx,
        (Seq::<ValueId>::empty() + arg_ids(block.args@)) + results_upto(block.ops@, 0),
        block.ops@[0],
    ));
    assert(ops_valid(tbl, ctx, Seq::<ValueId>::empty() + arg_ids(block.args@), block.ops@, 0));
    assert(ops_valid(tbl, ctx, Seq::<ValueId>::empty() + arg_ids(block.args@), block.ops@, 1));
    assert(blocks_valid(
        tbl,
        ctx,
        Seq::empty(),
        region_rule(schema_lookup(tbl, module.kind@), 0),
        module.attrs@,
        module.regions@[0].blocks@,
        0,
    ));
    assert(regions_valid(
        tbl,
        ctx,
        Seq::empty(),
        schema_lookup(tbl, module.kind@),
        module.attrs@,
        module.regions@,
        0,
    ));
    assert(block_valid(
        tbl,
        ctx,
        Seq::empty(),
        region_rule(schema_lookup(tbl, module.kind@), 0),
        module.attrs@,
        block,
    ));
    assert(blocks_valid(
        tbl,
        ctx,
        Seq::empty(),
        region_rule(schema_lookup(tbl, module.kind@), 0),
        module.attrs@,
        module.regions@[0].blocks@,
        1,
    ));
    assert(region_valid(
        tbl,
        ctx,
        Seq::empty(),
        region_rule(schema_lookup(tbl, module.kind@), 0),
        module.attrs@,
        module.regions@[0],
    ));
    assert(regions_valid(
        tbl,
        ctx,
        Seq::empty(),
        schema_lookup(tbl, module.kind@),
        module.attrs@,
        module.regions@,
        1,
    ));
    assert(op_valid(tbl, ctx, Seq::empty(), module));
    lemma_op_diags_empty_iff_valid(tbl, ctx, Seq::empty(), module);
}

/// The wording of each violation code.
pub open spec fn message_of(code: DiagCode) -> Seq<char> {
    match code {
        DiagCode::UnknownKind => "unknown operation kind"@,
        DiagCode::OperandCountMismatch { .. } => "operand count disagrees with the schema"@,
        DiagCode::ResultCountMismatch { .. } => "result count disagrees with the schema"@,
        DiagCode::RegionCountMismatch { .. } => "region count disagrees with the schema"@,
        DiagCode::MissingAttr { .. } => "a required attribute is missing"@,
        DiagCode::AttrTypeMismatch { .. } => "an attribute is not of the required shape"@,
        DiagCode::OperandOutOfScope { .. } => {
            "an operand does not resolve to a dominating definition"@
        },
        DiagCode::BlockCountMismatch { .. } => "a region's block count disagrees with the schema"@,
        DiagCode::BlockArgMismatch { .. } => {
            "a block's argument list disagrees with the schema"@
        },
        DiagCode::MissingTerminator { .. } => {
            "a block lacks the required terminating operation"@
        },
    }
}

impl DiagCode {
    /// A human-readable description of the violation.
    pub fn message(&self) -> (s: String)
        ensures
            s@ == message_of(*self),
    {
        match self {
            DiagCode::UnknownKind => String::from_str("unknown operation kind"),
            DiagCode::OperandCountMismatch { .. } => String::from_str(
                "operand count disagrees with the schema",
            ),
            DiagCode::ResultCountMismatch { .. } => String::from_str(
                "result count disagrees with the schema",
            ),
            DiagCode::RegionCountMismatch { .. } => String::from_str(
                "region count disagrees with the schema",
            ),
            DiagCode::MissingAttr { .. } => String::from_str("a required attribute is missing"),
            DiagCode::AttrTypeMismatch { .. } => String::from_str(
                "an attribute is not of the required shape",
            ),
            DiagCode::OperandOutOfScope { .. } => String::from_str(
                "an operand does not resolve to a dominating definition",
            ),
            DiagCode::BlockCountMismatch { .. } => String::from_str(
                "a region's block count disagrees with the schema",
            ),
            DiagCode::BlockArgMismatch { .. } => String::from_str(
                "a block's argument list disagrees with the schema",
            ),
            DiagCode::MissingTerminator { .. } => String::from_str(
                "a block lacks the required terminating operation",
            ),
        }
    }
}

} // verus!
