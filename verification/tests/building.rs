use hwir::builder::build_operation;
use hwir::context::{AttrDesc, AttrId, ConfigError, Context, IntBase, TypeDesc};
use hwir::ir::{AttrBinding, Block, Location, Region, ValueId};

fn loc() -> Location {
    Location { line: 1, col: 1 }
}

#[test]
fn duplicate_attr_name_rejected() {
    let mut ctx = Context::new();
    let v = ctx
        .intern_attr(AttrDesc::Int { signed: false, width: 8, value: 1, base: IntBase::Dec })
        .unwrap();
    let attrs = vec![
        AttrBinding { name: String::from("value"), attr: v },
        AttrBinding { name: String::from("value"), attr: v },
    ];
    let r = build_operation(&mut ctx, String::from("hw.constant"), attrs, vec![], vec![], 0, loc());
    assert!(matches!(r, Err(ConfigError::DuplicateAttrName)));
}

#[test]
fn foreign_attr_handle_rejected() {
    let mut ctx = Context::new();
    let attrs = vec![AttrBinding { name: String::from("value"), attr: AttrId { idx: 9 } }];
    let r = build_operation(&mut ctx, String::from("hw.constant"), attrs, vec![], vec![], 0, loc());
    assert!(matches!(r, Err(ConfigError::InvalidHandle)));
}

#[test]
fn result_ids_issued_in_order() {
    let mut ctx = Context::new();
    let i8t = ctx.intern_type(TypeDesc::Int { width: 8 }).unwrap();
    let op = build_operation(
        &mut ctx,
        String::from("k"),
        vec![],
        vec![],
        vec![i8t, i8t, i8t],
        0,
        loc(),
    )
    .unwrap();
    assert_eq!(op.results.len(), 3);
    assert_eq!(op.results[0].id, ValueId { num: 0 });
    assert_eq!(op.results[1].id, ValueId { num: 1 });
    assert_eq!(op.results[2].id, ValueId { num: 2 });
    assert_eq!(ctx.next_value, 3);
}

#[test]
fn attaching_beyond_declared_regions_rejected() {
    let mut ctx = Context::new();
    let mut op =
        build_operation(&mut ctx, String::from("k"), vec![], vec![], vec![], 1, loc()).unwrap();
    assert!(op.attach_region(Region::new()).is_ok());
    assert_eq!(op.attach_region(Region::new()), Err(ConfigError::RegionCountMismatch));
}

#[test]
fn appending_with_missing_region_rejected() {
    let mut ctx = Context::new();
    let op =
        build_operation(&mut ctx, String::from("k"), vec![], vec![], vec![], 2, loc()).unwrap();
    let mut b = Block::new();
    assert_eq!(b.append_operation(op), Err(ConfigError::RegionCountMismatch));
    assert!(b.ops.is_empty());
}

#[test]
fn appending_with_complete_regions_accepted() {
    let mut ctx = Context::new();
    let mut op =
        build_operation(&mut ctx, String::from("k"), vec![], vec![], vec![], 1, loc()).unwrap();
    op.attach_region(Region::new()).unwrap();
    let mut b = Block::new();
    assert!(b.append_operation(op).is_ok());
    assert_eq!(b.ops.len(), 1);
}

#[test]
fn argument_with_foreign_type_handle_rejected() {
    let mut ctx = Context::new();
    let mut b = Block::new();
    let bad = hwir::context::TypeId { idx: 3 };
    assert_eq!(b.add_argument(&mut ctx, bad, loc()), Err(ConfigError::InvalidHandle));
}

#[test]
fn arguments_bind_fresh_ids() {
    let mut ctx = Context::new();
    let i1 = ctx.intern_type(TypeDesc::Int { width: 1 }).unwrap();
    let mut b = Block::new();
    let a = b.add_argument(&mut ctx, i1, loc()).unwrap();
    let c = b.add_argument(&mut ctx, i1, loc()).unwrap();
    assert_eq!(a, ValueId { num: 0 });
    assert_eq!(c, ValueId { num: 1 });
    assert_eq!(b.args.len(), 2);
}
