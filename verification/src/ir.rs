//! The IR tree: operations own regions, regions own ordered blocks, blocks
//! own ordered argument bindings followed by ordered operations.
//!
//! Ownership is exclusive and by value: once a block is appended into a
//! region, and that region attached to an operation, no alias to it remains,
//! so argument lists and operation sequences are fixed exactly as the owner
//! received them. Operand edges are never ownership edges: they are plain
//! value identifiers issued by the owning context.

use vstd::prelude::*;

use crate::context::{ConfigError, Context, TypeId};
use crate::context::AttrId;

verus! {

/// Identifier of a produced value: a block argument or an operation result.
/// Issued in increasing order by one context's counter.
#[derive(Clone, Copy, PartialEq, Eq, Structural, Debug)]
pub struct ValueId {
    pub num: u64,
}

/// A source location tag, carried for diagnostics only.
#[derive(Clone, Copy, PartialEq, Eq, Structural, Debug)]
pub struct Location {
    pub line: u64,
    pub col: u64,
}

/// A block argument: a typed, positionally indexed value binding.
#[derive(Clone, Copy, PartialEq, Eq, Structural, Debug)]
pub struct BlockArg {
    pub ty: TypeId,
    pub loc: Location,
    pub id: ValueId,
}

/// One named attribute binding of an operation.
#[derive(Clone, Debug)]
pub struct AttrBinding {
    pub name: String,
    pub attr: AttrId,
}

/// One typed result slot of an operation, with its issued value identifier.
#[derive(Clone, Copy, PartialEq, Eq, Structural, Debug)]
pub struct ResultSlot {
    pub ty: TypeId,
    pub id: ValueId,
}

/// A block: an ordered sequence of arguments followed by an ordered
/// sequence of owned operations.
pub struct Block {
    pub args: Vec<BlockArg>,
    pub ops: Vec<Operation>,
}

/// A region: an ordered sequence of owned blocks.
pub struct Region {
    pub blocks: Vec<Block>,
}

/// The central node: a kind name, named attribute bindings, operand
/// references, typed result slots, owned child regions and a location tag.
/// `declared_regions` is the region count the builder call declared; the
/// attachment gates hold the node to it.
pub struct Operation {
    pub kind: String,
    pub attrs: Vec<AttrBinding>,
    pub operands: Vec<ValueId>,
    pub results: Vec<ResultSlot>,
    pub regions: Vec<Region>,
    pub declared_regions: usize,
    pub loc: Location,
}

impl Block {
    /// A fresh block with no arguments and no operations.
    pub fn new() -> (b: Block)
        ensures
            b.args@ == Seq::<BlockArg>::empty(),
            b.ops@ == Seq::<Operation>::empty(),
    {
        Block { args: Vec::new(), ops: Vec::new() }
    }

    /// Appends one typed argument, binding it to a fresh value identifier
    /// issued by `ctx`. A type handle that does not resolve in `ctx` is
    /// rejected with `ConfigError::InvalidHandle`.
    pub fn add_argument(&mut self, ctx: &mut Context, ty: TypeId, loc: Location) -> (r: Result<
        ValueId,
        ConfigError,
    >)
        requires
            old(ctx).next_value < u64::MAX,
        ensures
            final(ctx).types@ == old(ctx).types@,
            final(ctx).attrs@ == old(ctx).attrs@,
            match r {
                Ok(v) => {
                    &&& ty.idx < old(ctx).types@.len()
                    &&& v.num == old(ctx).next_value
                    &&& final(ctx).next_value == old(ctx).next_value + 1
                    &&& final(self).args@ == old(self).args@.push(BlockArg { ty, loc, id: v })
                    &&& final(self).ops@ == old(self).ops@
                },
                Err(e) => {
                    &&& e == ConfigError::InvalidHandle
                    &&& ty.idx >= old(ctx).types@.len()
                    &&& *final(self) == *old(self)
                    &&& *final(ctx) == *old(ctx)
                },
            },
    {
        if ty.idx >= ctx.types.len() {
            return Err(ConfigError::InvalidHandle);
        }
        let v = ValueId { num: ctx.next_value };
        ctx.next_value = ctx.next_value + 1;
        self.args.push(BlockArg { ty, loc, id: v });
        Ok(v)
    }

    /// Appends an operation to this block's sequence. An operation whose
    /// attached regions disagree with its declared region count is rejected
    /// with `ConfigError::RegionCountMismatch`.
    pub fn append_operation(&mut self, op: Operation) -> (r: Result<(), ConfigError>)
        ensures
            final(self).args@ == old(self).args@,
            match r {
                Ok(()) => {
                    &&& op.regions@.len() == op.declared_regions
                    &&& final(self).ops@ == old(self).ops@.push(op)
                },
                Err(e) => {
                    &&& e == ConfigError::RegionCountMismatch
                    &&& op.regions@.len() != op.declared_regions
                    &&& *final(self) == *old(self)
                },
            },
    {
        if op.regions.len() != op.declared_regions {
            return Err(ConfigError::RegionCountMismatch);
        }
        self.ops.push(op);
        Ok(())
    }
}

impl Region {
    /// A fresh region with no blocks.
    pub fn new() -> (r: Region)
        ensures
            r.blocks@ == Seq::<Block>::empty(),
    {
        Region { blocks: Vec::new() }
    }

    /// Appends a block to this region's ordered sequence.
    pub fn append_block(&mut self, b: Block)
        ensures
            final(self).blocks@ == old(self).blocks@.push(b),
    {
        self.blocks.push(b);
    }
}

impl Operation {
    /// Attaches a pre-built region into the next positional region slot.
    /// Attaching more regions than the builder call declared is rejected
    /// with `ConfigError::RegionCountMismatch`.
    pub fn attach_region(&mut self, r: Region) -> (res: Result<(), ConfigError>)
        ensures
            match res {
                Ok(()) => {
                    &&& old(self).regions@.len() < old(self).declared_regions
                    &&& final(self).regions@ == old(self).regions@.push(r)
                    &&& final(self).kind == old(self).kind
                    &&& final(self).attrs@ == old(self).attrs@
                    &&& final(self).operands@ == old(self).operands@
                    &&& final(self).results@ == old(self).results@
                    &&& final(self).declared_regions == old(self).declared_regions
                    &&& final(self).loc == old(self).loc
                },
                Err(e) => {
                    &&& e == ConfigError::RegionCountMismatch
                    &&& old(self).regions@.len() >= old(self).declared_regions
                    &&& *final(self) == *old(self)
                },
            },
    {
        if self.regions.len() >= self.declared_regions {
            return Err(ConfigError::RegionCountMismatch);
        }
        self.regions.push(r);
        Ok(())
    }
}

} // verus!
