//! Interned type descriptors and attribute values.
//!
//! A `Context` owns one arena per interned-value kind; handles are arena
//! indices. Interning is canonical: structurally equal payloads receive the
//! same handle, and a handle issued by one context is detected as invalid
//! (a `ConfigError`) when its index does not fit the arena it is used
//! against.

use vstd::prelude::*;

verus! {

/// Handle to an interned type descriptor: an index into `Context::types`.
#[derive(Clone, Copy, PartialEq, Eq, Structural, Debug, Hash)]
pub struct TypeId {
    pub idx: usize,
}

/// Handle to an interned attribute: an index into `Context::attrs`.
#[derive(Clone, Copy, PartialEq, Eq, Structural, Debug, Hash)]
pub struct AttrId {
    pub idx: usize,
}

/// Direction of a module-signature port.
#[derive(Clone, Copy, PartialEq, Eq, Structural, Debug)]
pub enum Direction {
    Input,
    Output,
}

/// One port of a module signature: a name, an element type and a direction.
#[derive(Clone, Debug)]
pub struct Port {
    pub name: String,
    pub ty: TypeId,
    pub dir: Direction,
}

/// A type descriptor: either a fixed-width integer type or a module
/// signature (an ordered list of ports). Port names are not required to be
/// unique by the data model itself.
#[derive(Clone, Debug)]
pub enum TypeDesc {
    Int { width: u64 },
    ModuleSig { ports: Vec<Port> },
}

/// Numeric base an integer attribute declares for its textual rendering.
#[derive(Clone, Copy, PartialEq, Eq, Structural, Debug)]
pub enum IntBase {
    Dec,
    Hex,
}

/// An attribute value: a tagged union of integer (with signedness,
/// bit-width, raw value bits and declared rendering base), string, type
/// reference, or ordered array of previously interned attributes.
#[derive(Clone, Debug)]
pub enum AttrDesc {
    Int { signed: bool, width: u64, value: u64, base: IntBase },
    Str { text: String },
    TypeRef { ty: TypeId },
    Array { elems: Vec<AttrId> },
}

/// A malformed construction request, detected at construction time. Fatal
/// to the single call that raised it; the context is left unchanged.
#[derive(Clone, Copy, PartialEq, Eq, Structural, Debug)]
pub enum ConfigError {
    /// An integer type or attribute was requested with bit-width zero.
    ZeroWidth,
    /// A handle does not resolve in the context it was used against.
    InvalidHandle,
    /// Two attribute bindings of one operation share a name.
    DuplicateAttrName,
    /// An operation's declared region count disagrees with attachment.
    RegionCountMismatch,
}

/// Structural equality of ports: same name, element type and direction.
pub open spec fn port_eq(a: Port, b: Port) -> bool {
    a.name@ == b.name@ && a.ty == b.ty && a.dir == b.dir
}

/// Structural equality of type descriptors.
pub open spec fn type_eq(a: TypeDesc, b: TypeDesc) -> bool {
    match (a, b) {
        (TypeDesc::Int { width: wa }, TypeDesc::Int { width: wb }) => wa == wb,
        (TypeDesc::ModuleSig { ports: pa }, TypeDesc::ModuleSig { ports: pb }) => {
            &&& pa@.len() == pb@.len()
            &&& forall|i: int| 0 <= i < pa@.len() ==> port_eq(pa@[i], #[trigger] pb@[i])
        },
        _ => false,
    }
}

/// Structural equality of attribute values. Arrays compare element handles
/// positionally; with canonical interning, equal handles are structurally
/// equal elements.
pub open spec fn attr_eq(a: AttrDesc, b: AttrDesc) -> bool {
    match (a, b) {
        (
            AttrDesc::Int { signed: sa, width: wa, value: va, base: ba },
            AttrDesc::Int { signed: sb, width: wb, value: vb, base: bb },
        ) => sa == sb && wa == wb && va == vb && ba == bb,
        (AttrDesc::Str { text: ta }, AttrDesc::Str { text: tb }) => ta@ == tb@,
        (AttrDesc::TypeRef { ty: ta }, AttrDesc::TypeRef { ty: tb }) => ta == tb,
        (AttrDesc::Array { elems: ea }, AttrDesc::Array { elems: eb }) => ea@ == eb@,
        _ => false,
    }
}

/// A type descriptor is acceptable against an arena of `n_types` existing
/// types: integer widths are positive and port element types resolve.
pub open spec fn type_desc_ok(n_types: int, d: TypeDesc) -> bool {
    match d {
        TypeDesc::Int { width } => width > 0,
        TypeDesc::ModuleSig { ports } => forall|i: int|
            0 <= i < ports@.len() ==> (#[trigger] ports@[i]).ty.idx < n_types,
    }
}

/// An attribute value is acceptable against the current arenas: integer
/// widths are positive, type references and array elements resolve.
pub open spec fn attr_desc_ok(n_types: int, n_attrs: int, d: AttrDesc) -> bool {
    match d {
        AttrDesc::Int { width, .. } => width > 0,
        AttrDesc::Str { .. } => true,
        AttrDesc::TypeRef { ty } => ty.idx < n_types,
        AttrDesc::Array { elems } => forall|i: int|
            0 <= i < elems@.len() ==> (#[trigger] elems@[i]).idx < n_attrs,
    }
}

/// What a successful type interning leaves behind: the handle is the least
/// index holding a structurally equal descriptor, and the arena either
/// already held one (and is unchanged) or grew by exactly this descriptor.
pub open spec fn intern_type_post(s: Seq<TypeDesc>, d: TypeDesc, s2: Seq<TypeDesc>, h: int) -> bool {
    &&& 0 <= h < s2.len()
    &&& type_eq(s2[h], d)
    &&& forall|j: int| 0 <= j < h ==> !type_eq(#[trigger] s2[j], d)
    &&& if exists|j: int| 0 <= j < s.len() && type_eq(#[trigger] s[j], d) {
        s2 == s && h < s.len()
    } else {
        s2 == s.push(d) && h == s.len()
    }
}

/// What a successful attribute interning leaves behind; the attribute
/// counterpart of `intern_type_post`.
pub open spec fn intern_attr_post(s: Seq<AttrDesc>, d: AttrDesc, s2: Seq<AttrDesc>, h: int) -> bool {
    &&& 0 <= h < s2.len()
    &&& attr_eq(s2[h], d)
    &&& forall|j: int| 0 <= j < h ==> !attr_eq(#[trigger] s2[j], d)
    &&& if exists|j: int| 0 <= j < s.len() && attr_eq(#[trigger] s[j], d) {
        s2 == s && h < s.len()
    } else {
        s2 == s.push(d) && h == s.len()
    }
}

/// An isolated interning context: one arena of type descriptors, one arena
/// of attribute values, and a counter issuing fresh value identifiers to
/// block arguments and operation results.
pub struct Context {
    pub types: Vec<TypeDesc>,
    pub attrs: Vec<AttrDesc>,
    pub next_value: u64,
}

/// Well-formedness of a context: every stored descriptor refers only to
/// entries interned before it, and every stored descriptor was acceptable
/// when stored.
pub open spec fn ctx_wf(c: Context) -> bool {
    &&& forall|i: int| 0 <= i < c.types@.len() ==> type_desc_ok(i, #[trigger] c.types@[i])
    &&& forall|i: int|
        0 <= i < c.attrs@.len() ==> attr_desc_ok(c.types@.len() as int, i, #[trigger] c.attrs@[i])
}

impl Context {
    /// A fresh, empty context.
    pub fn new() -> (c: Context)
        ensures
            c.types@ == Seq::<TypeDesc>::empty(),
            c.attrs@ == Seq::<AttrDesc>::empty(),
            c.next_value == 0,
            ctx_wf(c),
    {
        Context { types: Vec::new(), attrs: Vec::new(), next_value: 0 }
    }

    /// Interns a type descriptor. Two calls with structurally equal payloads
    /// return equal handles. A non-positive bit-width is rejected with
    /// `ConfigError::ZeroWidth`; a port whose element type does not resolve
    /// in this context with `ConfigError::InvalidHandle`.
    #[verifier::loop_isolation(false)]
    pub fn intern_type(&mut self, desc: TypeDesc) -> (r: Result<TypeId, ConfigError>)
        requires
            ctx_wf(*old(self)),
        ensures
            ctx_wf(*final(self)),
            final(self).attrs@ == old(self).attrs@,
            final(self).next_value == old(self).next_value,
            match r {
                Ok(h) => {
                    &&& type_desc_ok(old(self).types@.len() as int, desc)
                    &&& intern_type_post(old(self).types@, desc, final(self).types@, h.idx as int)
                },
                Err(e) => {
                    &&& final(self).types@ == old(self).types@
                    &&& !type_desc_ok(old(self).types@.len() as int, desc)
                    &&& (e == ConfigError::ZeroWidth <==> (desc matches TypeDesc::Int { width }
                        && width == 0))
                    &&& (e == ConfigError::ZeroWidth || e == ConfigError::InvalidHandle)
                },
            },
    {
        match &desc {
            TypeDesc::Int { width } => {
                if *width == 0 {
                    return Err(ConfigError::ZeroWidth);
                }
            },
            TypeDesc::ModuleSig { ports } => {
                let n = self.types.len();
                let mut i: usize = 0;
                while i < ports.len()
                    invariant
                        0 <= i <= ports@.len(),
                        n == self.types@.len(),
                        forall|j: int| 0 <= j < i ==> (#[trigger] ports@[j]).ty.idx < n,
                    decreases ports@.len() - i,
                {
                    if ports[i].ty.idx >= n {
                        return Err(ConfigError::InvalidHandle);
                    }
                    i += 1;
                }
            },
        }
        let mut i: usize = 0;
        let n = self.types.len();
        while i < n
            invariant
                0 <= i <= n,
                n == self.types@.len(),
                forall|j: int| 0 <= j < i ==> !type_eq(#[trigger] self.types@[j], desc),
            decreases n - i,
        {
            if type_desc_eq(&self.types[i], &desc) {
                return Ok(TypeId { idx: i });
            }
            i += 1;
        }
        let h = self.types.len();
        self.types.push(desc);
        Ok(TypeId { idx: h })
    }

    /// Interns an attribute value. Two calls with structurally equal
    /// payloads return equal handles. A zero bit-width is rejected with
    /// `ConfigError::ZeroWidth`; a type reference or array element that does
    /// not resolve in this context with `ConfigError::InvalidHandle`.
    #[verifier::loop_isolation(false)]
    pub fn intern_attr(&mut self, desc: AttrDesc) -> (r: Result<AttrId, ConfigError>)
        requires
            ctx_wf(*old(self)),
        ensures
            ctx_wf(*final(self)),
            final(self).types@ == old(self).types@,
            final(self).next_value == old(self).next_value,
            match r {
                Ok(h) => {
                    &&& attr_desc_ok(
                        old(self).types@.len() as int,
                        old(self).attrs@.len() as int,
                        desc,
                    )
                    &&& intern_attr_post(old(self).attrs@, desc, final(self).attrs@, h.idx as int)
                },
                Err(e) => {
                    &&& final(self).attrs@ == old(self).attrs@
                    &&& !attr_desc_ok(
                        old(self).types@.len() as int,
                        old(self).attrs@.len() as int,
                        desc,
                    )
                    &&& (e == ConfigError::ZeroWidth <==> (desc matches AttrDesc::Int {
                        width,
                        ..
                    } && width == 0))
                    &&& (e == ConfigError::ZeroWidth || e == ConfigError::InvalidHandle)
                },
            },
    {
        match &desc {
            AttrDesc::Int { width, .. } => {
                if *width == 0 {
                    return Err(ConfigError::ZeroWidth);
                }
            },
            AttrDesc::Str { .. } => {},
            AttrDesc::TypeRef { ty } => {
                if ty.idx >= self.types.len() {
                    return Err(ConfigError::InvalidHandle);
                }
            },
            AttrDesc::Array { elems } => {
                let n = self.attrs.len();
                let mut i: usize = 0;
                while i < elems.len()
                    invariant
                        0 <= i <= elems@.len(),
                        n == self.attrs@.len(),
                        forall|j: int| 0 <= j < i ==> (#[trigger] elems@[j]).idx < n,
                    decreases elems@.len() - i,
                {
                    if elems[i].idx >= n {
                        return Err(ConfigError::InvalidHandle);
                    }
                    i += 1;
                }
            },
        }
        let mut i: usize = 0;
        let n = self.attrs.len();
        while i < n
            invariant
                0 <= i <= n,
                n == self.attrs@.len(),
                forall|j: int| 0 <= j < i ==> !attr_eq(#[trigger] self.attrs@[j], desc),
            decreases n - i,
        {
            if attr_desc_eq(&self.attrs[i], &desc) {
                return Ok(AttrId { idx: i });
            }
            i += 1;
        }
        let h = self.attrs.len();
        self.attrs.push(desc);
        Ok(AttrId { idx: h })
    }
}

/// Decides structural equality of two ports.
fn port_eq_exec(a: &Port, b: &Port) -> (r: bool)
    ensures
        r == port_eq(*a, *b),
{
    a.name == b.name && a.ty == b.ty && a.dir == b.dir
}

/// Decides structural equality of two type descriptors.
#[verifier::loop_isolation(false)]
fn type_desc_eq(a: &TypeDesc, b: &TypeDesc) -> (r: bool)
    ensures
        r == type_eq(*a, *b),
{
    match (a, b) {
        (TypeDesc::Int { width: wa }, TypeDesc::Int { width: wb }) => wa == wb,
        (TypeDesc::ModuleSig { ports: pa }, TypeDesc::ModuleSig { ports: pb }) => {
            if pa.len() != pb.len() {
                return false;
            }
            let mut i: usize = 0;
            while i < pa.len()
                invariant
                    0 <= i <= pa@.len(),
                    pa@.len() == pb@.len(),
                    forall|j: int| 0 <= j < i ==> port_eq(pa@[j], #[trigger] pb@[j]),
                decreases pa@.len() - i,
            {
                if !port_eq_exec(&pa[i], &pb[i]) {
                    proof {
                        assert(!port_eq(pa@[i as int], pb@[i as int]));
                    }
                    return false;
                }
                i += 1;
            }
            true
        },
        _ => false,
    }
}

/// Decides structural equality of two attribute values.
#[verifier::loop_isolation(false)]
fn attr_desc_eq(a: &AttrDesc, b: &AttrDesc) -> (r: bool)
    ensures
        r == attr_eq(*a, *b),
{
    match (a, b) {
        (
            AttrDesc::Int { signed: sa, width: wa, value: va, base: ba },
            AttrDesc::Int { signed: sb, width: wb, value: vb, base: bb },
        ) => *sa == *sb && *wa == *wb && *va == *vb && *ba == *bb,
        (AttrDesc::Str { text: ta }, AttrDesc::Str { text: tb }) => *ta == *tb,
        (AttrDesc::TypeRef { ty: ta }, AttrDesc::TypeRef { ty: tb }) => *ta == *tb,
        (AttrDesc::Array { elems: ea }, AttrDesc::Array { elems: eb }) => {
            if ea.len() != eb.len() {
                return false;
            }
            let mut i: usize = 0;
            while i < ea.len()
                invariant
                    0 <= i <= ea@.len(),
                    ea@.len() == eb@.len(),
                    forall|j: int| 0 <= j < i ==> ea@[j] == eb@[j],
                decreases ea@.len() - i,
            {
                if !(ea[i] == eb[i]) {
                    proof {
                        assert(ea@[i as int] != eb@[i as int]);
                        assert(ea@ != eb@);
                    }
                    return false;
                }
                i += 1;
            }
            proof {
                assert(ea@ =~= eb@);
            }
            true
        },
        _ => false,
    }
}

/// Structural equality of type descriptors is symmetric and transitive.
pub proof fn lemma_type_eq_equivalence(a: TypeDesc, b: TypeDesc, c: TypeDesc)
    ensures
        type_eq(a, a),
        type_eq(a, b) ==> type_eq(b, a),
        type_eq(a, b) && type_eq(b, c) ==> type_eq(a, c),
{
}

/// Structural equality of attribute values is symmetric and transitive.
pub proof fn lemma_attr_eq_equivalence(a: AttrDesc, b: AttrDesc, c: AttrDesc)
    ensures
        attr_eq(a, a),
        attr_eq(a, b) ==> attr_eq(b, a),
        attr_eq(a, b) && attr_eq(b, c) ==> attr_eq(a, c),
{
}

/// Interning is stable under structural equality: interning `b` right after
/// `a` was interned returns the very handle `a` received and leaves the
/// arena unchanged, whenever `a` and `b` are structurally equal — even if
/// the two descriptors were constructed independently.
pub proof fn lemma_intern_type_structural(
    s: Seq<TypeDesc>,
    a: TypeDesc,
    b: TypeDesc,
    s1: Seq<TypeDesc>,
    h1: int,
    s2: Seq<TypeDesc>,
    h2: int,
)
    requires
        type_eq(a, b),
        intern_type_post(s, a, s1, h1),
        intern_type_post(s1, b, s2, h2),
    ensures
        h2 == h1,
        s2 == s1,
{
    assert(type_eq(s1[h1], b)) by {
        lemma_type_eq_equivalence(s1[h1], a, b);
    }
    assert(exists|j: int| 0 <= j < s1.len() && type_eq(#[trigger] s1[j], b));
    assert(s2 == s1);
    if h2 < h1 {
        assert(!type_eq(s1[h2], a));
        assert(type_eq(s1[h2], b));
        lemma_type_eq_equivalence(b, a, s1[h2]);
        lemma_type_eq_equivalence(s1[h2], b, a);
        assert(false);
    }
    if h1 < h2 {
        assert(!type_eq(s2[h1], b));
        assert(false);
    }
}

/// The attribute counterpart of `lemma_intern_type_structural`: structurally
/// equal attribute values receive equal handles.
pub proof fn lemma_intern_attr_structural(
    s: Seq<AttrDesc>,
    a: AttrDesc,
    b: AttrDesc,
    s1: Seq<AttrDesc>,
    h1: int,
    s2: Seq<AttrDesc>,
    h2: int,
)
    requires
        attr_eq(a, b),
        intern_attr_post(s, a, s1, h1),
        intern_attr_post(s1, b, s2, h2),
    ensures
        h2 == h1,
        s2 == s1,
{
    assert(attr_eq(s1[h1], b)) by {
        lemma_attr_eq_equivalence(s1[h1], a, b);
    }
    assert(exists|j: int| 0 <= j < s1.len() && attr_eq(#[trigger] s1[j], b));
    assert(s2 == s1);
    if h2 < h1 {
        assert(!attr_eq(s1[h2], a));
        assert(attr_eq(s1[h2], b));
        lemma_attr_eq_equivalence(s1[h2], b, a);
        assert(false);
    }
    if h1 < h2 {
        assert(!attr_eq(s2[h1], b));
        assert(false);
    }
}

} // verus!
