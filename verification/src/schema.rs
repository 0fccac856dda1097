//! The pluggable schema table: per-operation-kind rules on attributes,
//! operand/result/region arity and per-region block expectations. The table
//! is plain data supplied by a domain catalog; the core treats it as an
//! opaque lookup by kind name.

use vstd::prelude::*;

verus! {

/// What a required attribute must look like.
#[derive(Clone, Copy, PartialEq, Eq, Structural, Debug)]
pub enum AttrKindReq {
    /// Any integer attribute (positive width).
    AnyInt,
    /// An integer attribute of exactly this bit-width.
    IntWidth { width: u64 },
    /// A string attribute.
    Str,
    /// A type-reference attribute.
    TypeRef,
    /// An array attribute.
    Array,
    /// An integer attribute whose bit-width equals the bit-width of the
    /// operation's result type at this index (which must be an integer
    /// type).
    IntOfResult { result: usize },
}

/// One required attribute: its name and the shape it must have.
#[derive(Clone, Debug)]
pub struct AttrReq {
    pub name: String,
    pub req: AttrKindReq,
}

/// How many blocks a region must hold.
#[derive(Clone, Copy, PartialEq, Eq, Structural, Debug)]
pub enum BlockCountReq {
    Any,
    Exactly { count: usize },
}

/// What a block's argument list must look like.
#[derive(Clone, Debug)]
pub enum BlockArgReq {
    Any,
    /// Exactly this many arguments.
    Exactly { count: usize },
    /// The argument types must equal, in order, the input-port element
    /// types of the module-signature type referenced by the named
    /// type-reference attribute of the owning operation.
    FromSignature { attr: String },
}

/// Expectations one region of an operation must meet.
#[derive(Clone, Debug)]
pub struct RegionReq {
    pub blocks: BlockCountReq,
    pub args: BlockArgReq,
    /// If set, every block of the region must end in an operation of this
    /// kind (at least one terminating operation).
    pub terminator: Option<String>,
}

/// The schema of one operation kind: required attributes, operand and
/// result arity, and one expectation per region (the region arity is the
/// length of `region_reqs`).
#[derive(Clone, Debug)]
pub struct SchemaEntry {
    pub kind: String,
    pub attr_reqs: Vec<AttrReq>,
    pub num_operands: usize,
    pub num_results: usize,
    pub region_reqs: Vec<RegionReq>,
}

/// The first entry at or after `i` whose kind is `kind`, if any.
pub open spec fn schema_lookup_from(tbl: Seq<SchemaEntry>, kind: Seq<char>, i: int) -> Option<
    SchemaEntry,
>
    decreases tbl.len() - i,
{
    if i < 0 || i >= tbl.len() {
        None
    } else if tbl[i].kind@ == kind {
        Some(tbl[i])
    } else {
        schema_lookup_from(tbl, kind, i + 1)
    }
}

/// The first entry whose kind is `kind`, if any: the table is searched in
/// order, so an earlier entry shadows a later one of the same kind.
pub open spec fn schema_lookup(tbl: Seq<SchemaEntry>, kind: Seq<char>) -> Option<SchemaEntry> {
    schema_lookup_from(tbl, kind, 0)
}

/// Finds the schema entry for a kind name, by linear scan in table order.
#[verifier::loop_isolation(false)]
pub fn lookup<'a>(tbl: &'a Vec<SchemaEntry>, kind: &String) -> (r: Option<&'a SchemaEntry>)
    ensures
        match r {
            Some(e) => schema_lookup(tbl@, kind@) == Some(*e),
            None => schema_lookup(tbl@, kind@) is None,
        },
{
    let mut i: usize = 0;
    while i < tbl.len()
        invariant
            0 <= i <= tbl@.len(),
            schema_lookup(tbl@, kind@) == schema_lookup_from(tbl@, kind@, i as int),
        decreases tbl@.len() - i,
    {
        if tbl[i].kind == *kind {
            return Some(&tbl[i]);
        }
        i += 1;
    }
    None
}

/// When the first `upto` entries all miss, the search result is the search
/// result from `upto` on.
pub proof fn lemma_schema_lookup_skip(tbl: Seq<SchemaEntry>, kind: Seq<char>, upto: int)
    requires
        0 <= upto <= tbl.len(),
        forall|i: int| 0 <= i < upto ==> (#[trigger] tbl[i]).kind@ != kind,
    ensures
        schema_lookup(tbl, kind) == schema_lookup_from(tbl, kind, upto),
    decreases upto,
{
    if upto > 0 {
        lemma_schema_lookup_skip(tbl, kind, upto - 1);
        assert(schema_lookup_from(tbl, kind, upto - 1) == schema_lookup_from(tbl, kind, upto));
    }
}

} // verus!
