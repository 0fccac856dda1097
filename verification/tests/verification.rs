use hwir::builder::build_operation;
use hwir::catalog::{build_demo, hw_schema};
use hwir::context::{AttrDesc, Context, IntBase, TypeDesc};
use hwir::ir::{AttrBinding, Block, Location, Operation, Region, ValueId};
use hwir::schema::{AttrKindReq, AttrReq, BlockArgReq, BlockCountReq, RegionReq, SchemaEntry};
use hwir::validate::{verify, DiagCode, Diagnostic};

fn loc(line: u64) -> Location {
    Location { line, col: 1 }
}

fn entry(kind: &str, operands: usize, results: usize, regions: Vec<RegionReq>) -> SchemaEntry {
    SchemaEntry {
        kind: String::from(kind),
        attr_reqs: vec![],
        num_operands: operands,
        num_results: results,
        region_reqs: regions,
    }
}

fn plain_region() -> RegionReq {
    RegionReq { blocks: BlockCountReq::Exactly { count: 1 }, args: BlockArgReq::Any, terminator: None }
}

fn wrap_in_root(ctx: &mut Context, op: Operation) -> Operation {
    let mut block = Block::new();
    block.append_operation(op).unwrap();
    let mut region = Region::new();
    region.append_block(block);
    let mut root =
        build_operation(ctx, String::from("root"), vec![], vec![], vec![], 1, loc(99)).unwrap();
    root.attach_region(region).unwrap();
    root
}

#[test]
fn demo_module_verifies_cleanly() {
    let (ctx, tbl, root) = build_demo();
    assert!(verify(&tbl, &ctx, &root).is_ok());
}

#[test]
fn demo_module_content_as_promised() {
    let (ctx, _tbl, root) = build_demo();
    let top = &root.regions[0].blocks[0];
    assert_eq!(top.ops.len(), 4);
    let module = &top.ops[3];
    assert_eq!(module.kind, "hw.module");
    let body = &module.regions[0].blocks[0];
    assert_eq!(body.args.len(), 3);
    assert_eq!(body.args[0].id, ValueId { num: 0 });
    assert_eq!(body.args[1].id, ValueId { num: 1 });
    assert_eq!(body.args[2].id, ValueId { num: 2 });
    let constant = &body.ops[0];
    assert_eq!(constant.results[0].id, ValueId { num: 3 });
    let value = constant.attrs[0].attr;
    match &ctx.attrs[value.idx] {
        AttrDesc::Int { signed, width, value, base } => {
            assert!(!signed);
            assert_eq!(*width, 32);
            assert_eq!(*value, 0x80000002);
            assert_eq!(*base, IntBase::Hex);
        },
        other => panic!("unexpected attribute {:?}", other),
    }
}

#[test]
fn conforming_op_in_trivial_module_verifies() {
    let tbl = vec![
        entry("root", 0, 0, vec![plain_region()]),
        entry("leaf", 0, 0, vec![]),
    ];
    let mut ctx = Context::new();
    let leaf =
        build_operation(&mut ctx, String::from("leaf"), vec![], vec![], vec![], 0, loc(1)).unwrap();
    let root = wrap_in_root(&mut ctx, leaf);
    assert!(verify(&tbl, &ctx, &root).is_ok());
}

#[test]
fn sibling_region_operand_reported_once() {
    let tbl = vec![
        entry("root", 0, 0, vec![plain_region()]),
        entry("wrap", 0, 0, vec![plain_region(), plain_region()]),
        entry("def", 0, 1, vec![]),
        entry("use", 1, 0, vec![]),
    ];
    let mut ctx = Context::new();
    let i8t = ctx.intern_type(TypeDesc::Int { width: 8 }).unwrap();
    let def =
        build_operation(&mut ctx, String::from("def"), vec![], vec![], vec![i8t], 0, loc(2))
            .unwrap();
    let defined = def.results[0].id;
    let user = build_operation(
        &mut ctx,
        String::from("use"),
        vec![],
        vec![defined],
        vec![],
        0,
        loc(3),
    )
    .unwrap();
    let mut def_block = Block::new();
    def_block.append_operation(def).unwrap();
    let mut def_region = Region::new();
    def_region.append_block(def_block);
    let mut use_block = Block::new();
    use_block.append_operation(user).unwrap();
    let mut use_region = Region::new();
    use_region.append_block(use_block);
    let mut wrap =
        build_operation(&mut ctx, String::from("wrap"), vec![], vec![], vec![], 2, loc(4)).unwrap();
    wrap.attach_region(def_region).unwrap();
    wrap.attach_region(use_region).unwrap();
    let root = wrap_in_root(&mut ctx, wrap);
    let diags = verify(&tbl, &ctx, &root).unwrap_err();
    assert_eq!(
        diags,
        vec![Diagnostic { loc: loc(3), code: DiagCode::OperandOutOfScope { operand: 0 } }]
    );
}

#[test]
fn later_definition_in_same_block_reported_once() {
    let tbl = vec![
        entry("root", 0, 0, vec![plain_region()]),
        entry("def", 0, 1, vec![]),
        entry("use", 1, 0, vec![]),
    ];
    let mut ctx = Context::new();
    let i8t = ctx.intern_type(TypeDesc::Int { width: 8 }).unwrap();
    let def =
        build_operation(&mut ctx, String::from("def"), vec![], vec![], vec![i8t], 0, loc(2))
            .unwrap();
    let defined = def.results[0].id;
    let user = build_operation(
        &mut ctx,
        String::from("use"),
        vec![],
        vec![defined],
        vec![],
        0,
        loc(3),
    )
    .unwrap();
    let mut block = Block::new();
    block.append_operation(user).unwrap();
    block.append_operation(def).unwrap();
    let mut region = Region::new();
    region.append_block(block);
    let mut root =
        build_operation(&mut ctx, String::from("root"), vec![], vec![], vec![], 1, loc(9)).unwrap();
    root.attach_region(region).unwrap();
    let diags = verify(&tbl, &ctx, &root).unwrap_err();
    assert_eq!(
        diags,
        vec![Diagnostic { loc: loc(3), code: DiagCode::OperandOutOfScope { operand: 0 } }]
    );
}

#[test]
fn earlier_definition_in_same_block_accepted() {
    let tbl = vec![
        entry("root", 0, 0, vec![plain_region()]),
        entry("def", 0, 1, vec![]),
        entry("use", 1, 0, vec![]),
    ];
    let mut ctx = Context::new();
    let i8t = ctx.intern_type(TypeDesc::Int { width: 8 }).unwrap();
    let def =
        build_operation(&mut ctx, String::from("def"), vec![], vec![], vec![i8t], 0, loc(2))
            .unwrap();
    let defined = def.results[0].id;
    let user = build_operation(
        &mut ctx,
        String::from("use"),
        vec![],
        vec![defined],
        vec![],
        0,
        loc(3),
    )
    .unwrap();
    let mut block = Block::new();
    block.append_operation(def).unwrap();
    block.append_operation(user).unwrap();
    let mut region = Region::new();
    region.append_block(block);
    let mut root =
        build_operation(&mut ctx, String::from("root"), vec![], vec![], vec![], 1, loc(9)).unwrap();
    root.attach_region(region).unwrap();
    assert!(verify(&tbl, &ctx, &root).is_ok());
}

#[test]
fn missing_terminator_reported_not_crash() {
    let tbl = vec![
        entry(
            "mod",
            0,
            0,
            vec![RegionReq {
                blocks: BlockCountReq::Exactly { count: 1 },
                args: BlockArgReq::Exactly { count: 0 },
                terminator: Some(String::from("term")),
            }],
        ),
        entry("term", 0, 0, vec![]),
    ];
    let mut ctx = Context::new();
    let mut region = Region::new();
    region.append_block(Block::new());
    let mut root =
        build_operation(&mut ctx, String::from("mod"), vec![], vec![], vec![], 1, loc(7)).unwrap();
    root.attach_region(region).unwrap();
    let diags = verify(&tbl, &ctx, &root).unwrap_err();
    assert_eq!(
        diags,
        vec![Diagnostic { loc: loc(7), code: DiagCode::MissingTerminator { region: 0, block: 0 } }]
    );
}

#[test]
fn constant_attr_type_mismatch_cites_constant_location() {
    let tbl = hw_schema();
    let mut ctx = Context::new();
    let i32t = ctx.intern_type(TypeDesc::Int { width: 32 }).unwrap();
    let narrow = ctx
        .intern_attr(AttrDesc::Int { signed: false, width: 16, value: 5, base: IntBase::Dec })
        .unwrap();
    let constant = build_operation(
        &mut ctx,
        String::from("hw.constant"),
        vec![AttrBinding { name: String::from("value"), attr: narrow }],
        vec![],
        vec![i32t],
        0,
        loc(30),
    )
    .unwrap();
    let mut block = Block::new();
    block.append_operation(constant).unwrap();
    let mut region = Region::new();
    region.append_block(block);
    let mut root = build_operation(
        &mut ctx,
        String::from("builtin.module"),
        vec![],
        vec![],
        vec![],
        1,
        loc(70),
    )
    .unwrap();
    root.attach_region(region).unwrap();
    let diags = verify(&tbl, &ctx, &root).unwrap_err();
    assert_eq!(
        diags,
        vec![Diagnostic { loc: loc(30), code: DiagCode::AttrTypeMismatch { req: 0 } }]
    );
}

#[test]
fn unknown_kind_reported() {
    let tbl = vec![entry("root", 0, 0, vec![plain_region()])];
    let mut ctx = Context::new();
    let stray =
        build_operation(&mut ctx, String::from("nope"), vec![], vec![], vec![], 0, loc(5)).unwrap();
    let root = wrap_in_root(&mut ctx, stray);
    let diags = verify(&tbl, &ctx, &root).unwrap_err();
    assert_eq!(diags, vec![Diagnostic { loc: loc(5), code: DiagCode::UnknownKind }]);
}

#[test]
fn arity_mismatches_reported() {
    let tbl = vec![
        entry("root", 0, 0, vec![plain_region()]),
        entry("leaf", 1, 1, vec![]),
    ];
    let mut ctx = Context::new();
    let leaf =
        build_operation(&mut ctx, String::from("leaf"), vec![], vec![], vec![], 0, loc(6)).unwrap();
    let root = wrap_in_root(&mut ctx, leaf);
    let diags = verify(&tbl, &ctx, &root).unwrap_err();
    assert_eq!(
        diags,
        vec![
            Diagnostic {
                loc: loc(6),
                code: DiagCode::OperandCountMismatch { expected: 1, found: 0 },
            },
            Diagnostic {
                loc: loc(6),
                code: DiagCode::ResultCountMismatch { expected: 1, found: 0 },
            },
        ]
    );
}

#[test]
fn region_count_mismatch_reported() {
    let tbl = vec![
        entry("root", 0, 0, vec![plain_region()]),
        entry("guard", 0, 0, vec![plain_region(), plain_region()]),
    ];
    let mut ctx = Context::new();
    let guard =
        build_operation(&mut ctx, String::from("guard"), vec![], vec![], vec![], 0, loc(4))
            .unwrap();
    let root = wrap_in_root(&mut ctx, guard);
    let diags = verify(&tbl, &ctx, &root).unwrap_err();
    assert_eq!(
        diags,
        vec![Diagnostic {
            loc: loc(4),
            code: DiagCode::RegionCountMismatch { expected: 2, found: 0 },
        }]
    );
}

#[test]
fn missing_required_attribute_reported() {
    let mut leaf_entry = entry("leaf", 0, 0, vec![]);
    leaf_entry.attr_reqs =
        vec![AttrReq { name: String::from("sym_name"), req: AttrKindReq::Str }];
    let tbl = vec![entry("root", 0, 0, vec![plain_region()]), leaf_entry];
    let mut ctx = Context::new();
    let leaf =
        build_operation(&mut ctx, String::from("leaf"), vec![], vec![], vec![], 0, loc(8)).unwrap();
    let root = wrap_in_root(&mut ctx, leaf);
    let diags = verify(&tbl, &ctx, &root).unwrap_err();
    assert_eq!(diags, vec![Diagnostic { loc: loc(8), code: DiagCode::MissingAttr { req: 0 } }]);
}

#[test]
fn block_count_mismatch_reported() {
    let tbl = vec![entry("root", 0, 0, vec![plain_region()])];
    let mut ctx = Context::new();
    let mut root =
        build_operation(&mut ctx, String::from("root"), vec![], vec![], vec![], 1, loc(9)).unwrap();
    root.attach_region(Region::new()).unwrap();
    let diags = verify(&tbl, &ctx, &root).unwrap_err();
    assert_eq!(
        diags,
        vec![Diagnostic { loc: loc(9), code: DiagCode::BlockCountMismatch { region: 0 } }]
    );
}

#[test]
fn block_argument_arity_mismatch_reported() {
    let tbl = vec![entry(
        "root",
        0,
        0,
        vec![RegionReq {
            blocks: BlockCountReq::Exactly { count: 1 },
            args: BlockArgReq::Exactly { count: 2 },
            terminator: None,
        }],
    )];
    let mut ctx = Context::new();
    let i1 = ctx.intern_type(TypeDesc::Int { width: 1 }).unwrap();
    let mut block = Block::new();
    block.add_argument(&mut ctx, i1, loc(1)).unwrap();
    let mut region = Region::new();
    region.append_block(block);
    let mut root =
        build_operation(&mut ctx, String::from("root"), vec![], vec![], vec![], 1, loc(9)).unwrap();
    root.attach_region(region).unwrap();
    let diags = verify(&tbl, &ctx, &root).unwrap_err();
    assert_eq!(
        diags,
        vec![Diagnostic { loc: loc(9), code: DiagCode::BlockArgMismatch { region: 0, block: 0 } }]
    );
}

#[test]
fn diagnostics_carry_messages() {
    let d = Diagnostic { loc: loc(3), code: DiagCode::OperandOutOfScope { operand: 0 } };
    assert_eq!(d.code.message(), "an operand does not resolve to a dominating definition");
    assert_eq!(DiagCode::UnknownKind.message(), "unknown operation kind");
}

#[test]
fn all_defects_collected_in_one_pass() {
    let tbl = vec![
        entry("root", 0, 0, vec![plain_region()]),
        entry("use", 1, 0, vec![]),
    ];
    let mut ctx = Context::new();
    let bad_use = build_operation(
        &mut ctx,
        String::from("use"),
        vec![],
        vec![ValueId { num: 77 }],
        vec![],
        0,
        loc(2),
    )
    .unwrap();
    let stray =
        build_operation(&mut ctx, String::from("nope"), vec![], vec![], vec![], 0, loc(3)).unwrap();
    let mut block = Block::new();
    block.append_operation(bad_use).unwrap();
    block.append_operation(stray).unwrap();
    let mut region = Region::new();
    region.append_block(block);
    let mut root =
        build_operation(&mut ctx, String::from("root"), vec![], vec![], vec![], 1, loc(9)).unwrap();
    root.attach_region(region).unwrap();
    let diags = verify(&tbl, &ctx, &root).unwrap_err();
    assert_eq!(
        diags,
        vec![
            Diagnostic { loc: loc(2), code: DiagCode::OperandOutOfScope { operand: 0 } },
            Diagnostic { loc: loc(3), code: DiagCode::UnknownKind },
        ]
    );
}
