//! The builder: assembles a syntactically well-formed operation node from a
//! kind name, attribute bindings, operand references, result types and a
//! declared region count. No cross-tree legality (dominance, schema
//! agreement) is checked here; those deferred checks belong to the verifier.

use vstd::prelude::*;

use crate::context::{ConfigError, Context};
use crate::context::TypeId;
use crate::ir::{AttrBinding, Location, Operation, ResultSlot, ValueId};

verus! {

/// No two bindings share a name.
pub open spec fn attr_names_unique(attrs: Seq<AttrBinding>) -> bool {
    forall|i: int, j: int|
        0 <= i < j < attrs.len() ==> (#[trigger] attrs[i]).name@ != (#[trigger] attrs[j]).name@
}

/// Every binding's attribute handle resolves against `n_attrs` interned
/// attributes.
pub open spec fn attr_handles_ok(attrs: Seq<AttrBinding>, n_attrs: int) -> bool {
    forall|i: int| 0 <= i < attrs.len() ==> (#[trigger] attrs[i]).attr.idx < n_attrs
}

/// Every type handle resolves against `n_types` interned types.
pub open spec fn type_handles_ok(tys: Seq<TypeId>, n_types: int) -> bool {
    forall|i: int| 0 <= i < tys.len() ==> (#[trigger] tys[i]).idx < n_types
}

/// Assembles an operation node: the given kind, bindings, operands and
/// declared region count, with one fresh value identifier issued per result
/// slot, in order. Regions are attached afterwards, positionally, through
/// `Operation::attach_region`.
///
/// A duplicate binding name is rejected with
/// `ConfigError::DuplicateAttrName`; an attribute or result-type handle that
/// does not resolve in `ctx` with `ConfigError::InvalidHandle`. A rejected
/// call leaves the context unchanged.
#[verifier::loop_isolation(false)]
pub fn build_operation(
    ctx: &mut Context,
    kind: String,
    attrs: Vec<AttrBinding>,
    operands: Vec<ValueId>,
    result_types: Vec<TypeId>,
    region_count: usize,
    loc: Location,
) -> (r: Result<Operation, ConfigError>)
    requires
        old(ctx).next_value + result_types@.len() <= u64::MAX,
    ensures
        final(ctx).types@ == old(ctx).types@,
        final(ctx).attrs@ == old(ctx).attrs@,
        match r {
            Ok(op) => {
                &&& attr_names_unique(attrs@)
                &&& attr_handles_ok(attrs@, old(ctx).attrs@.len() as int)
                &&& type_handles_ok(result_types@, old(ctx).types@.len() as int)
                &&& op.kind == kind
                &&& op.attrs@ == attrs@
                &&& op.operands@ == operands@
                &&& op.results@.len() == result_types@.len()
                &&& forall|i: int|
                    0 <= i < result_types@.len() ==> (#[trigger] op.results@[i]).ty
                        == result_types@[i] && op.results@[i].id.num == old(ctx).next_value + i
                &&& final(ctx).next_value == old(ctx).next_value + result_types@.len()
                &&& op.regions@.len() == 0
                &&& op.declared_regions == region_count
                &&& op.loc == loc
            },
            Err(e) => {
                &&& *final(ctx) == *old(ctx)
                &&& (e == ConfigError::DuplicateAttrName <==> !attr_names_unique(attrs@))
                &&& (e == ConfigError::DuplicateAttrName || e == ConfigError::InvalidHandle)
                &&& !(attr_names_unique(attrs@) && attr_handles_ok(
                    attrs@,
                    old(ctx).attrs@.len() as int,
                ) && type_handles_ok(result_types@, old(ctx).types@.len() as int))
            },
        },
{
    let mut i: usize = 0;
    while i < attrs.len()
        invariant
            forall|p: int, q: int|
                0 <= p < q < attrs@.len() && q < i ==> (#[trigger] attrs@[p]).name@
                    != (#[trigger] attrs@[q]).name@,
        decreases attrs@.len() - i,
    {
        let mut j: usize = 0;
        while j < i
            invariant
                forall|p: int| 0 <= p < j ==> (#[trigger] attrs@[p]).name@ != attrs@[i as int].name@,
            decreases i - j,
        {
            if attrs[j].name == attrs[i].name {
                return Err(ConfigError::DuplicateAttrName);
            }
            j += 1;
        }
        i += 1;
    }
    let mut i: usize = 0;
    while i < attrs.len()
        invariant
            forall|p: int| 0 <= p < i ==> (#[trigger] attrs@[p]).attr.idx < ctx.attrs@.len(),
        decreases attrs@.len() - i,
    {
        if attrs[i].attr.idx >= ctx.attrs.len() {
            return Err(ConfigError::InvalidHandle);
        }
        i += 1;
    }
    let mut i: usize = 0;
    while i < result_types.len()
        invariant
            forall|p: int| 0 <= p < i ==> (#[trigger] result_types@[p]).idx < ctx.types@.len(),
        decreases result_types@.len() - i,
    {
        if result_types[i].idx >= ctx.types.len() {
            return Err(ConfigError::InvalidHandle);
        }
        i += 1;
    }
    let mut results: Vec<ResultSlot> = Vec::new();
    let mut i: usize = 0;
    while i < result_types.len()
        invariant
            i <= result_types@.len(),
            ctx.next_value == old(ctx).next_value + i,
            ctx.types@ == old(ctx).types@,
            ctx.attrs@ == old(ctx).attrs@,
            results@.len() == i,
            forall|p: int|
                0 <= p < i ==> (#[trigger] results@[p]).ty == result_types@[p]
                    && results@[p].id.num == old(ctx).next_value + p,
        decreases result_types@.len() - i,
    {
        let id = ValueId { num: ctx.next_value };
        ctx.next_value = ctx.next_value + 1;
        results.push(ResultSlot { ty: result_types[i], id });
        i += 1;
    }
    Ok(
        Operation {
            kind,
            attrs,
            operands,
            results,
            regions: Vec::new(),
            declared_regions: region_count,
            loc,
        },
    )
}

} // verus!
