//! The printer: a pure read-only walk producing a deterministic textual
//! rendering of a tree. The text of a tree is a mathematical function of the
//! tree, the interning arenas and the options — two prints of one tree are
//! byte-identical. The rendering is total: a handle that does not resolve
//! prints as a placeholder rather than failing, though on a verified tree
//! every handle resolves.

use vstd::prelude::*;

use crate::context::{AttrDesc, Context, Direction, IntBase, Port, TypeDesc};
use crate::context::{AttrId, TypeId};
use crate::ir::{AttrBinding, Block, BlockArg, Location, Operation, Region, ResultSlot, ValueId};
use crate::text::{dec_rep, hex_rep, push_dec, push_hex};

verus! {

/// How many elements an array attribute may show before the elide option
/// replaces its payload.
pub const ELIDE_LIMIT: usize = 4;

/// Rendering options: whether to show source locations, and whether to
/// elide large constant payloads (arrays beyond `ELIDE_LIMIT` elements).
#[derive(Clone, Copy, PartialEq, Eq, Structural, Debug)]
pub struct PrintOptions {
    pub locations: bool,
    pub elide_large: bool,
}

/// The text of a port direction.
pub open spec fn dir_text(d: Direction) -> Seq<char> {
    match d {
        Direction::Input => "in"@,
        Direction::Output => "out"@,
    }
}

/// The text of the type at arena index `idx`: `iN` for integers, a
/// `module<...>` port list for signatures.
pub open spec fn type_text(types: Seq<TypeDesc>, idx: int) -> Seq<char>
    decreases idx, 1int, 0int,
{
    if 0 <= idx < types.len() {
        match types[idx] {
            TypeDesc::Int { width } => "i"@ + dec_rep(width as int),
            TypeDesc::ModuleSig { ports } => "module<"@ + ports_text(
                types,
                ports@,
                idx,
                ports@.len() as int,
            ) + ">"@,
        }
    } else {
        "!badtype"@
    }
}

/// The text of the first `n` ports, comma-separated: direction, name and
/// element type. An element type not interned before the signature itself
/// prints as a placeholder.
pub open spec fn ports_text(types: Seq<TypeDesc>, ports: Seq<Port>, idx: int, n: int) -> Seq<char>
    decreases idx, 0int, n,
{
    if n <= 0 || n > ports.len() {
        Seq::empty()
    } else {
        ports_text(types, ports, idx, n - 1) + (if n == 1 {
            Seq::<char>::empty()
        } else {
            ", "@
        }) + dir_text(ports[n - 1].dir) + " "@ + ports[n - 1].name@ + ": "@ + (if ports[n
            - 1].ty.idx < idx {
            type_text(types, ports[n - 1].ty.idx as int)
        } else {
            "!badtype"@
        })
    }
}

/// The text of the attribute at arena index `idx`: an integer in its
/// declared base with its type, a quoted string, a referenced type, or a
/// bracketed array.
pub open spec fn attr_text(
    types: Seq<TypeDesc>,
    attrs: Seq<AttrDesc>,
    idx: int,
    opts: PrintOptions,
) -> Seq<char>
    decreases idx, 1int, 0int,
{
    if 0 <= idx < attrs.len() {
        match attrs[idx] {
            AttrDesc::Int { signed, width, value, base } => (match base {
                IntBase::Dec => dec_rep(value as int),
                IntBase::Hex => "0x"@ + hex_rep(value as int),
            }) + " : "@ + (if signed {
                "si"@
            } else {
                "i"@
            }) + dec_rep(width as int),
            AttrDesc::Str { text } => "\""@ + text@ + "\""@,
            AttrDesc::TypeRef { ty } => type_text(types, ty.idx as int),
            AttrDesc::Array { elems } => if opts.elide_large && elems@.len() > ELIDE_LIMIT {
                "[...]"@
            } else {
                "["@ + elems_text(types, attrs, elems@, idx, elems@.len() as int, opts) + "]"@
            },
        }
    } else {
        "!badattr"@
    }
}

/// The text of the first `n` array elements, comma-separated. An element
/// not interned before the array itself prints as a placeholder.
pub open spec fn elems_text(
    types: Seq<TypeDesc>,
    attrs: Seq<AttrDesc>,
    elems: Seq<AttrId>,
    idx: int,
    n: int,
    opts: PrintOptions,
) -> Seq<char>
    decreases idx, 0int, n,
{
    if n <= 0 || n > elems.len() {
        Seq::empty()
    } else {
        elems_text(types, attrs, elems, idx, n - 1, opts) + (if n == 1 {
            Seq::<char>::empty()
        } else {
            ", "@
        }) + (if elems[n - 1].idx < idx {
            attr_text(types, attrs, elems[n - 1].idx as int, opts)
        } else {
            "!badattr"@
        })
    }
}

/// The text of a value identifier.
pub open spec fn id_text(v: ValueId) -> Seq<char> {
    "%"@ + dec_rep(v.num as int)
}

/// The first `n` operand identifiers, comma-separated.
pub open spec fn operands_text(operands: Seq<ValueId>, n: int) -> Seq<char>
    decreases n,
{
    if n <= 0 || n > operands.len() {
        Seq::empty()
    } else {
        operands_text(operands, n - 1) + (if n == 1 {
            Seq::<char>::empty()
        } else {
            ", "@
        }) + id_text(operands[n - 1])
    }
}

/// The first `n` result identifiers, comma-separated.
pub open spec fn results_heads(results: Seq<ResultSlot>, n: int) -> Seq<char>
    decreases n,
{
    if n <= 0 || n > results.len() {
        Seq::empty()
    } else {
        results_heads(results, n - 1) + (if n == 1 {
            Seq::<char>::empty()
        } else {
            ", "@
        }) + id_text(results[n - 1].id)
    }
}

/// The first `n` result types, comma-separated.
pub open spec fn result_tys_text(types: Seq<TypeDesc>, results: Seq<ResultSlot>, n: int) -> Seq<
    char,
>
    decreases n,
{
    if n <= 0 || n > results.len() {
        Seq::empty()
    } else {
        result_tys_text(types, results, n - 1) + (if n == 1 {
            Seq::<char>::empty()
        } else {
            ", "@
        }) + type_text(types, results[n - 1].ty.idx as int)
    }
}

/// The first `n` attribute bindings, comma-separated, `name = value`.
pub open spec fn bindings_text(
    types: Seq<TypeDesc>,
    attrs: Seq<AttrDesc>,
    bindings: Seq<AttrBinding>,
    n: int,
    opts: PrintOptions,
) -> Seq<char>
    decreases n,
{
    if n <= 0 || n > bindings.len() {
        Seq::empty()
    } else {
        bindings_text(types, attrs, bindings, n - 1, opts) + (if n == 1 {
            Seq::<char>::empty()
        } else {
            ", "@
        }) + bindings[n - 1].name@ + " = "@ + attr_text(
            types,
            attrs,
            bindings[n - 1].attr.idx as int,
            opts,
        )
    }
}

/// The first `n` block arguments, comma-separated, `%id: type`.
pub open spec fn args_text(types: Seq<TypeDesc>, args: Seq<BlockArg>, n: int) -> Seq<char>
    decreases n,
{
    if n <= 0 || n > args.len() {
        Seq::empty()
    } else {
        args_text(types, args, n - 1) + (if n == 1 {
            Seq::<char>::empty()
        } else {
            ", "@
        }) + id_text(args[n - 1].id) + ": "@ + type_text(types, args[n - 1].ty.idx as int)
    }
}

/// The location suffix, when the options ask for locations.
pub open spec fn loc_text(opts: PrintOptions, loc: Location) -> Seq<char> {
    if opts.locations {
        " loc("@ + dec_rep(loc.line as int) + ":"@ + dec_rep(loc.col as int) + ")"@
    } else {
        Seq::empty()
    }
}

/// The head of one operation's text: result identifiers, quoted kind,
/// operands, attribute dictionary and result types.
pub open spec fn op_header_text(
    types: Seq<TypeDesc>,
    attrs: Seq<AttrDesc>,
    op: Operation,
    opts: PrintOptions,
) -> Seq<char> {
    (if op.results@.len() == 0 {
        Seq::<char>::empty()
    } else {
        results_heads(op.results@, op.results@.len() as int) + " = "@
    }) + "\""@ + op.kind@ + "\""@ + "("@ + operands_text(op.operands@, op.operands@.len() as int)
        + ")"@ + (if op.attrs@.len() == 0 {
        Seq::<char>::empty()
    } else {
        " {"@ + bindings_text(types, attrs, op.attrs@, op.attrs@.len() as int, opts) + "}"@
    }) + " : ("@ + result_tys_text(types, op.results@, op.results@.len() as int) + ")"@
}

/// The text of one operation and its whole subtree: the head, the regions,
/// optionally the location, ending in a newline.
pub open spec fn op_text(
    types: Seq<TypeDesc>,
    attrs: Seq<AttrDesc>,
    op: Operation,
    opts: PrintOptions,
) -> Seq<char>
    decreases op, 1int,
{
    op_header_text(types, attrs, op, opts) + regions_text(
        types,
        attrs,
        op.regions@,
        op.regions@.len() as int,
        opts,
    ) + loc_text(opts, op.loc) + "\n"@
}

/// The text of the first `n` regions, each a braced list of blocks.
pub open spec fn regions_text(
    types: Seq<TypeDesc>,
    attrs: Seq<AttrDesc>,
    regions: Seq<Region>,
    n: int,
    opts: PrintOptions,
) -> Seq<char>
    decreases regions, n,
{
    if n <= 0 || n > regions.len() {
        Seq::empty()
    } else {
        regions_text(types, attrs, regions, n - 1, opts) + " {\n"@ + blocks_text(
            types,
            attrs,
            regions[n - 1].blocks@,
            regions[n - 1].blocks@.len() as int,
            opts,
        ) + "}"@
    }
}

/// The text of the first `n` blocks, in order.
pub open spec fn blocks_text(
    types: Seq<TypeDesc>,
    attrs: Seq<AttrDesc>,
    blocks: Seq<Block>,
    n: int,
    opts: PrintOptions,
) -> Seq<char>
    decreases blocks, n,
{
    if n <= 0 || n > blocks.len() {
        Seq::empty()
    } else {
        blocks_text(types, attrs, blocks, n - 1, opts) + block_text(
            types,
            attrs,
            blocks[n - 1],
            opts,
        )
    }
}

/// The text of one block: its argument header, then its operations.
pub open spec fn block_text(
    types: Seq<TypeDesc>,
    attrs: Seq<AttrDesc>,
    block: Block,
    opts: PrintOptions,
) -> Seq<char>
    decreases block, 1int,
{
    "^("@ + args_text(types, block.args@, block.args@.len() as int) + "):\n"@ + ops_text(
        types,
        attrs,
        block.ops@,
        block.ops@.len() as int,
        opts,
    )
}

/// The text of the first `n` operations of a block, concatenated.
pub open spec fn ops_text(
    types: Seq<TypeDesc>,
    attrs: Seq<AttrDesc>,
    ops: Seq<Operation>,
    n: int,
    opts: PrintOptions,
) -> Seq<char>
    decreases ops, n,
{
    if n <= 0 || n > ops.len() {
        Seq::empty()
    } else {
        ops_text(types, attrs, ops, n - 1, opts) + op_text(types, attrs, ops[n - 1], opts)
    }
}

/// Appends `%N` for a value identifier.
fn write_id(v: ValueId, out: &mut String)
    ensures
        final(out)@ == old(out)@ + id_text(v),
{
    out.append("%");
    push_dec(out, v.num);
    proof {
        assert(final(out)@ =~= old(out)@ + id_text(v));
    }
}

/// Appends the text of the type at arena index `idx`.
#[verifier::loop_isolation(false)]
#[verifier::rlimit(100)]
#[verifier::spinoff_prover]
fn write_type(types: &Vec<TypeDesc>, idx: usize, out: &mut String)
    ensures
        final(out)@ == old(out)@ + type_text(types@, idx as int),
    decreases idx, 1int, 0int,
{
    let ghost start = out@;
    if idx >= types.len() {
        out.append("!badtype");
        return ;
    }
    match &types[idx] {
        TypeDesc::Int { width } => {
            out.append("i");
            push_dec(out, *width);
            proof {
                assert(out@ =~= start + type_text(types@, idx as int));
            }
        },
        TypeDesc::ModuleSig { ports } => {
            out.append("module<");
            let ghost mid = out@;
            let mut i: usize = 0;
            while i < ports.len()
                invariant
                    0 <= i <= ports@.len(),
                    out@ == mid + ports_text(types@, ports@, idx as int, i as int),
                decreases idx, 0int, ports@.len() - i,
            {
                if i > 0 {
                    out.append(", ");
                }
                match &ports[i].dir {
                    Direction::Input => out.append("in"),
                    Direction::Output => out.append("out"),
                }
                out.append(" ");
                out.append(ports[i].name.as_str());
                out.append(": ");
                if ports[i].ty.idx < idx {
                    write_type(types, ports[i].ty.idx, out);
                } else {
                    out.append("!badtype");
                }
                proof {
                    assert(out@ =~= mid + ports_text(types@, ports@, idx as int, i as int + 1));
                }
                i += 1;
            }
            out.append(">");
            proof {
                assert(out@ =~= start + type_text(types@, idx as int));
            }
        },
    }
}

/// Appends the text of the attribute at arena index `idx`.
#[verifier::loop_isolation(false)]
#[verifier::rlimit(100)]
#[verifier::spinoff_prover]
fn write_attr(
    types: &Vec<TypeDesc>,
    attrs: &Vec<AttrDesc>,
    idx: usize,
    opts: PrintOptions,
    out: &mut String,
)
    ensures
        final(out)@ == old(out)@ + attr_text(types@, attrs@, idx as int, opts),
    decreases idx, 1int, 0int,
{
    let ghost start = out@;
    if idx >= attrs.len() {
        out.append("!badattr");
        return ;
    }
    match &attrs[idx] {
        AttrDesc::Int { signed, width, value, base } => {
            match base {
                IntBase::Dec => {
                    push_dec(out, *value);
                },
                IntBase::Hex => {
                    out.append("0x");
                    push_hex(out, *value);
                },
            }
            out.append(" : ");
            if *signed {
                out.append("si");
            } else {
                out.append("i");
            }
            push_dec(out, *width);
            proof {
                assert(out@ =~= start + attr_text(types@, attrs@, idx as int, opts));
            }
        },
        AttrDesc::Str { text } => {
            out.append("\"");
            out.append(text.as_str());
            out.append("\"");
            proof {
                assert(out@ =~= start + attr_text(types@, attrs@, idx as int, opts));
            }
        },
        AttrDesc::TypeRef { ty } => {
            write_type(types, ty.idx, out);
        },
        AttrDesc::Array { elems } => {
            if opts.elide_large && elems.len() > ELIDE_LIMIT {
                out.append("[...]");
            } else {
                out.append("[");
                let ghost mid = out@;
                let mut i: usize = 0;
                while i < elems.len()
                    invariant
                        0 <= i <= elems@.len(),
                        out@ == mid + elems_text(types@, attrs@, elems@, idx as int, i as int, opts),
                    decreases idx, 0int, elems@.len() - i,
                {
                    if i > 0 {
                        out.append(", ");
                    }
                    if elems[i].idx < idx {
                        write_attr(types, attrs, elems[i].idx, opts, out);
                    } else {
                        out.append("!badattr");
                    }
                    proof {
                        assert(out@ =~= mid + elems_text(
                            types@,
                            attrs@,
                            elems@,
                            idx as int,
                            i as int + 1,
                            opts,
                        ));
                    }
                    i += 1;
                }
                out.append("]");
            }
            proof {
                assert(out@ =~= start + attr_text(types@, attrs@, idx as int, opts));
            }
        },
    }
}

/// Appends the head of one operation's text.
#[verifier::loop_isolation(false)]
#[verifier::rlimit(100)]
#[verifier::spinoff_prover]
fn write_op_header(
    types: &Vec<TypeDesc>,
    attrs: &Vec<AttrDesc>,
    op: &Operation,
    opts: PrintOptions,
    out: &mut String,
)
    ensures
        final(out)@ == old(out)@ + op_header_text(types@, attrs@, *op, opts),
{
    let ghost start = out@;
    if op.results.len() > 0 {
        let ghost mid = out@;
        let mut i: usize = 0;
        while i < op.results.len()
            invariant
                0 <= i <= op.results@.len(),
                out@ == mid + results_heads(op.results@, i as int),
            decreases op.results@.len() - i,
        {
            if i > 0 {
                out.append(", ");
            }
            write_id(op.results[i].id, out);
            proof {
                assert(out@ =~= mid + results_heads(op.results@, i as int + 1));
            }
            i += 1;
        }
        out.append(" = ");
    }
    let ghost h1 = (if op.results@.len() == 0 {
        Seq::<char>::empty()
    } else {
        results_heads(op.results@, op.results@.len() as int) + " = "@
    });
    proof {
        assert(out@ =~= start + h1);
    }
    out.append("\"");
    out.append(op.kind.as_str());
    out.append("\"");
    out.append("(");
    let ghost h2 = h1 + "\""@ + op.kind@ + "\""@ + "("@;
    proof {
        assert(out@ =~= start + h2);
    }
    let ghost mid = out@;
    let mut i: usize = 0;
    while i < op.operands.len()
        invariant
            0 <= i <= op.operands@.len(),
            out@ == mid + operands_text(op.operands@, i as int),
        decreases op.operands@.len() - i,
    {
        if i > 0 {
            out.append(", ");
        }
        write_id(op.operands[i], out);
        proof {
            assert(out@ =~= mid + operands_text(op.operands@, i as int + 1));
        }
        i += 1;
    }
    out.append(")");
    let ghost h3 = h2 + operands_text(op.operands@, op.operands@.len() as int) + ")"@;
    proof {
        assert(out@ =~= start + h3);
    }
    if op.attrs.len() > 0 {
        out.append(" {");
        let ghost mid = out@;
        let mut i: usize = 0;
        while i < op.attrs.len()
            invariant
                0 <= i <= op.attrs@.len(),
                out@ == mid + bindings_text(types@, attrs@, op.attrs@, i as int, opts),
            decreases op.attrs@.len() - i,
        {
            if i > 0 {
                out.append(", ");
            }
            out.append(op.attrs[i].name.as_str());
            out.append(" = ");
            write_attr(types, attrs, op.attrs[i].attr.idx, opts, out);
            proof {
                assert(out@ =~= mid + bindings_text(
                    types@,
                    attrs@,
                    op.attrs@,
                    i as int + 1,
                    opts,
                ));
            }
            i += 1;
        }
        out.append("}");
    }
    let ghost h4 = h3 + (if op.attrs@.len() == 0 {
        Seq::<char>::empty()
    } else {
        " {"@ + bindings_text(types@, attrs@, op.attrs@, op.attrs@.len() as int, opts) + "}"@
    });
    proof {
        assert(out@ =~= start + h4);
    }
    out.append(" : (");
    let ghost mid = out@;
    let mut i: usize = 0;
    while i < op.results.len()
        invariant
            0 <= i <= op.results@.len(),
            out@ == mid + result_tys_text(types@, op.results@, i as int),
        decreases op.results@.len() - i,
    {
        if i > 0 {
            out.append(", ");
        }
        write_type(types, op.results[i].ty.idx, out);
        proof {
            assert(out@ =~= mid + result_tys_text(types@, op.results@, i as int + 1));
        }
        i += 1;
    }
    out.append(")");
    let ghost h5 = h4 + " : ("@ + result_tys_text(types@, op.results@, op.results@.len() as int)
        + ")"@;
    proof {
        assert(out@ =~= start + h5);
        assert(h5 == op_header_text(types@, attrs@, *op, opts));
    }
}

/// Appends one operation's whole subtree.
#[verifier::loop_isolation(false)]
#[verifier::rlimit(100)]
#[verifier::spinoff_prover]
fn write_op(
    types: &Vec<TypeDesc>,
    attrs: &Vec<AttrDesc>,
    op: &Operation,
    opts: PrintOptions,
    out: &mut String,
)
    ensures
        final(out)@ == old(out)@ + op_text(types@, attrs@, *op, opts),
    decreases *op, 1int,
{
    let ghost start = out@;
    write_op_header(types, attrs, op, opts, out);
    let ghost mid = out@;
    let mut i: usize = 0;
    while i < op.regions.len()
        invariant
            0 <= i <= op.regions@.len(),
            out@ == mid + regions_text(types@, attrs@, op.regions@, i as int, opts),
        decreases op.regions@.len() - i,
    {
        proof {
            assert(decreases_to!(*op => op.regions@[i as int]));
        }
        write_region(types, attrs, &op.regions[i], opts, out);
        proof {
            assert(out@ =~= mid + regions_text(types@, attrs@, op.regions@, i as int + 1, opts));
        }
        i += 1;
    }
    if opts.locations {
        out.append(" loc(");
        push_dec(out, op.loc.line);
        out.append(":");
        push_dec(out, op.loc.col);
        out.append(")");
    }
    out.append("\n");
    proof {
        assert(out@ =~= start + op_text(types@, attrs@, *op, opts));
    }
}

/// Appends one region: a braced list of its blocks.
#[verifier::loop_isolation(false)]
#[verifier::rlimit(100)]
#[verifier::spinoff_prover]
fn write_region(
    types: &Vec<TypeDesc>,
    attrs: &Vec<AttrDesc>,
    region: &Region,
    opts: PrintOptions,
    out: &mut String,
)
    ensures
        final(out)@ == old(out)@ + " {\n"@ + blocks_text(
            types@,
            attrs@,
            region.blocks@,
            region.blocks@.len() as int,
            opts,
        ) + "}"@,
    decreases *region, 2int,
{
    out.append(" {\n");
    let ghost mid = out@;
    let mut b: usize = 0;
    while b < region.blocks.len()
        invariant
            0 <= b <= region.blocks@.len(),
            out@ == mid + blocks_text(types@, attrs@, region.blocks@, b as int, opts),
        decreases region.blocks@.len() - b,
    {
        proof {
            assert(decreases_to!(*region => region.blocks@[b as int]));
        }
        write_block(types, attrs, &region.blocks[b], opts, out);
        proof {
            assert(out@ =~= mid + blocks_text(
                types@,
                attrs@,
                region.blocks@,
                b as int + 1,
                opts,
            ));
        }
        b += 1;
    }
    out.append("}");
    proof {
        assert(final(out)@ =~= old(out)@ + " {\n"@ + blocks_text(
            types@,
            attrs@,
            region.blocks@,
            region.blocks@.len() as int,
            opts,
        ) + "}"@);
    }
}

/// Appends one block: its argument header and its operations.
#[verifier::loop_isolation(false)]
#[verifier::rlimit(100)]
#[verifier::spinoff_prover]
fn write_block(
    types: &Vec<TypeDesc>,
    attrs: &Vec<AttrDesc>,
    block: &Block,
    opts: PrintOptions,
    out: &mut String,
)
    ensures
        final(out)@ == old(out)@ + block_text(types@, attrs@, *block, opts),
    decreases *block, 1int,
{
    let ghost start = out@;
    out.append("^(");
    let ghost mid = out@;
    let mut i: usize = 0;
    while i < block.args.len()
        invariant
            0 <= i <= block.args@.len(),
            out@ == mid + args_text(types@, block.args@, i as int),
        decreases block.args@.len() - i,
    {
        if i > 0 {
            out.append(", ");
        }
        write_id(block.args[i].id, out);
        out.append(": ");
        write_type(types, block.args[i].ty.idx, out);
        proof {
            assert(out@ =~= mid + args_text(types@, block.args@, i as int + 1));
        }
        i += 1;
    }
    out.append("):\n");
    let ghost mid = out@;
    let mut k: usize = 0;
    while k < block.ops.len()
        invariant
            0 <= k <= block.ops@.len(),
            out@ == mid + ops_text(types@, attrs@, block.ops@, k as int, opts),
        decreases block.ops@.len() - k,
    {
        proof {
            assert(decreases_to!(*block => block.ops@[k as int]));
        }
        write_op(types, attrs, &block.ops[k], opts, out);
        proof {
            assert(out@ =~= mid + ops_text(types@, attrs@, block.ops@, k as int + 1, opts));
        }
        k += 1;
    }
    proof {
        assert(out@ =~= start + block_text(types@, attrs@, *block, opts));
    }
}

/// Prints a tree from its root operation. The result is a mathematical
/// function of the arenas, the tree and the options, so repeated prints of
/// one tree are byte-identical.
pub fn print(ctx: &Context, root: &Operation, opts: PrintOptions) -> (text: String)
    ensures
        text@ == op_text(ctx.types@, ctx.attrs@, *root, opts),
{
    let mut out = String::new();
    write_op(&ctx.types, &ctx.attrs, root, opts, &mut out);
    out
}

/// Printing is deterministic and stable under repetition: any two renderings
/// of one tree, against the same arenas and options, are byte-identical.
pub proof fn lemma_print_deterministic(
    t1: Seq<char>,
    t2: Seq<char>,
    types: Seq<TypeDesc>,
    attrs: Seq<AttrDesc>,
    op: Operation,
    opts: PrintOptions,
)
    requires
        t1 == op_text(types, attrs, op, opts),
        t2 == op_text(types, attrs, op, opts),
    ensures
        t1 == t2,
{
}

} // verus!
