use hwir::builder::build_operation;
use hwir::catalog::{build_demo, create_hw_module};
use hwir::context::{AttrDesc, Context, IntBase, TypeDesc};
use hwir::ir::{AttrBinding, Location, Region};
use hwir::printer::{print, PrintOptions};

fn loc(line: u64, col: u64) -> Location {
    Location { line, col }
}

fn plain() -> PrintOptions {
    PrintOptions { locations: false, elide_large: false }
}

#[test]
fn printing_twice_is_byte_identical() {
    let (ctx, _tbl, root) = build_demo();
    let first = print(&ctx, &root, plain());
    let second = print(&ctx, &root, plain());
    assert_eq!(first, second);
    let a = create_hw_module();
    let b = create_hw_module();
    assert_eq!(a, b);
}

#[test]
fn constant_prints_exactly() {
    let mut ctx = Context::new();
    let i32t = ctx.intern_type(TypeDesc::Int { width: 32 }).unwrap();
    let cval = ctx
        .intern_attr(AttrDesc::Int {
            signed: false,
            width: 32,
            value: 0x80000002,
            base: IntBase::Hex,
        })
        .unwrap();
    let op = build_operation(
        &mut ctx,
        String::from("hw.constant"),
        vec![AttrBinding { name: String::from("value"), attr: cval }],
        vec![],
        vec![i32t],
        0,
        loc(30, 1),
    )
    .unwrap();
    let text = print(&ctx, &op, plain());
    assert_eq!(text, "%0 = \"hw.constant\"() {value = 0x80000002 : i32} : (i32)\n");
}

#[test]
fn location_option_shows_locations() {
    let mut ctx = Context::new();
    let op = build_operation(&mut ctx, String::from("hw.output"), vec![], vec![], vec![], 0, loc(50, 3))
        .unwrap();
    let with = print(&ctx, &op, PrintOptions { locations: true, elide_large: false });
    assert_eq!(with, "\"hw.output\"() : () loc(50:3)\n");
    let without = print(&ctx, &op, plain());
    assert_eq!(without, "\"hw.output\"() : ()\n");
}

#[test]
fn dec_base_renders_decimal() {
    let mut ctx = Context::new();
    let i42t = ctx.intern_type(TypeDesc::Int { width: 42 }).unwrap();
    let v = ctx
        .intern_attr(AttrDesc::Int { signed: false, width: 42, value: 11, base: IntBase::Dec })
        .unwrap();
    let op = build_operation(
        &mut ctx,
        String::from("sv.localparam"),
        vec![AttrBinding { name: String::from("value"), attr: v }],
        vec![],
        vec![i42t],
        0,
        loc(31, 1),
    )
    .unwrap();
    let text = print(&ctx, &op, plain());
    assert_eq!(text, "%0 = \"sv.localparam\"() {value = 11 : i42} : (i42)\n");
}

#[test]
fn large_array_elided_on_request() {
    let mut ctx = Context::new();
    let mut elems = Vec::new();
    for k in 0..5u64 {
        elems.push(
            ctx.intern_attr(AttrDesc::Int { signed: false, width: 8, value: k, base: IntBase::Dec })
                .unwrap(),
        );
    }
    let arr = ctx.intern_attr(AttrDesc::Array { elems }).unwrap();
    let op = build_operation(
        &mut ctx,
        String::from("k"),
        vec![AttrBinding { name: String::from("items"), attr: arr }],
        vec![],
        vec![],
        0,
        loc(1, 1),
    )
    .unwrap();
    let elided = print(&ctx, &op, PrintOptions { locations: false, elide_large: true });
    assert!(elided.contains("items = [...]"));
    let full = print(&ctx, &op, plain());
    assert!(full.contains("0 : i8, 1 : i8, 2 : i8, 3 : i8, 4 : i8"));
}

#[test]
fn demo_text_shows_name_arguments_and_constant() {
    let text = create_hw_module();
    assert!(text.contains("\"test1\""));
    let a0 = text.find("in arg0: i1").unwrap();
    let a1 = text.find("in arg1: i1").unwrap();
    let a8 = text.find("in arg8: i8").unwrap();
    assert!(a0 < a1 && a1 < a8);
    assert!(text.contains("0x80000002"));
    let b0 = text.find("%0: i1").unwrap();
    let b1 = text.find("%1: i1").unwrap();
    let b8 = text.find("%2: i8").unwrap();
    assert!(b0 < b1 && b1 < b8);
}

#[test]
fn module_signature_prints_ports_in_order() {
    let mut ctx = Context::new();
    let i1 = ctx.intern_type(TypeDesc::Int { width: 1 }).unwrap();
    let sig = ctx
        .intern_type(TypeDesc::ModuleSig {
            ports: vec![
                hwir::context::Port {
                    name: String::from("a"),
                    ty: i1,
                    dir: hwir::context::Direction::Input,
                },
                hwir::context::Port {
                    name: String::from("b"),
                    ty: i1,
                    dir: hwir::context::Direction::Output,
                },
            ],
        })
        .unwrap();
    let h = ctx.intern_attr(AttrDesc::TypeRef { ty: sig }).unwrap();
    let op = build_operation(
        &mut ctx,
        String::from("k"),
        vec![AttrBinding { name: String::from("module_type"), attr: h }],
        vec![],
        vec![],
        0,
        loc(1, 1),
    )
    .unwrap();
    let text = print(&ctx, &op, plain());
    assert!(text.contains("module<in a: i1, out b: i1>"));
}

#[test]
fn operands_and_regions_print() {
    let mut ctx = Context::new();
    let i8t = ctx.intern_type(TypeDesc::Int { width: 8 }).unwrap();
    let def =
        build_operation(&mut ctx, String::from("def"), vec![], vec![], vec![i8t], 0, loc(1, 1))
            .unwrap();
    let id = def.results[0].id;
    let mut user = build_operation(
        &mut ctx,
        String::from("use"),
        vec![],
        vec![id, id],
        vec![],
        1,
        loc(2, 1),
    )
    .unwrap();
    user.attach_region(Region::new()).unwrap();
    let text = print(&ctx, &user, plain());
    assert_eq!(text, "\"use\"(%0, %0) : () {\n}\n");
}
