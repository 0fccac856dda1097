use hwir::context::{AttrDesc, ConfigError, Context, Direction, IntBase, Port, TypeDesc, TypeId};

#[test]
fn intern_type_equal_payloads_equal_handles() {
    let mut ctx = Context::new();
    let a = ctx.intern_type(TypeDesc::Int { width: 32 }).unwrap();
    let b = ctx.intern_type(TypeDesc::Int { width: 32 }).unwrap();
    assert_eq!(a, b);
}

#[test]
fn intern_type_sig_equal_payloads_equal_handles() {
    let mut ctx = Context::new();
    let i1 = ctx.intern_type(TypeDesc::Int { width: 1 }).unwrap();
    let sig_a = TypeDesc::ModuleSig {
        ports: vec![Port { name: String::from("a"), ty: i1, dir: Direction::Input }],
    };
    let sig_b = TypeDesc::ModuleSig {
        ports: vec![Port { name: String::from("a"), ty: i1, dir: Direction::Input }],
    };
    let ha = ctx.intern_type(sig_a).unwrap();
    let hb = ctx.intern_type(sig_b).unwrap();
    assert_eq!(ha, hb);
}

#[test]
fn intern_type_distinct_payloads_distinct_handles() {
    let mut ctx = Context::new();
    let a = ctx.intern_type(TypeDesc::Int { width: 8 }).unwrap();
    let b = ctx.intern_type(TypeDesc::Int { width: 16 }).unwrap();
    assert_ne!(a, b);
}

#[test]
fn intern_attr_equal_payloads_equal_handles() {
    let mut ctx = Context::new();
    let a = ctx
        .intern_attr(AttrDesc::Int { signed: false, width: 32, value: 7, base: IntBase::Dec })
        .unwrap();
    let b = ctx
        .intern_attr(AttrDesc::Int { signed: false, width: 32, value: 7, base: IntBase::Dec })
        .unwrap();
    assert_eq!(a, b);
    let s1 = ctx.intern_attr(AttrDesc::Str { text: String::from("posedge") }).unwrap();
    let s2 = ctx.intern_attr(AttrDesc::Str { text: String::from("posedge") }).unwrap();
    assert_eq!(s1, s2);
    assert_ne!(a, s1);
}

#[test]
fn intern_attr_array_equal_payloads_equal_handles() {
    let mut ctx = Context::new();
    let e = ctx
        .intern_attr(AttrDesc::Int { signed: false, width: 32, value: 0, base: IntBase::Dec })
        .unwrap();
    let a = ctx.intern_attr(AttrDesc::Array { elems: vec![e] }).unwrap();
    let b = ctx.intern_attr(AttrDesc::Array { elems: vec![e] }).unwrap();
    assert_eq!(a, b);
}

#[test]
fn zero_width_type_rejected() {
    let mut ctx = Context::new();
    assert_eq!(ctx.intern_type(TypeDesc::Int { width: 0 }), Err(ConfigError::ZeroWidth));
}

#[test]
fn zero_width_attr_rejected() {
    let mut ctx = Context::new();
    assert_eq!(
        ctx.intern_attr(AttrDesc::Int { signed: true, width: 0, value: 1, base: IntBase::Dec }),
        Err(ConfigError::ZeroWidth)
    );
}

#[test]
fn foreign_port_handle_rejected() {
    let mut ctx = Context::new();
    let sig = TypeDesc::ModuleSig {
        ports: vec![
            Port { name: String::from("a"), ty: TypeId { idx: 5 }, dir: Direction::Output },
        ],
    };
    assert_eq!(ctx.intern_type(sig), Err(ConfigError::InvalidHandle));
}

#[test]
fn foreign_type_ref_rejected() {
    let mut ctx = Context::new();
    assert_eq!(
        ctx.intern_attr(AttrDesc::TypeRef { ty: TypeId { idx: 0 } }),
        Err(ConfigError::InvalidHandle)
    );
}
