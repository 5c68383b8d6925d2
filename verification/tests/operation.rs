use ir_tree::ir::{
    Attribute, Block, Builder, Identifier, Location, NamedAttribute, Region, ResultValue, Type,
    Value,
};
use ir_tree::{Context, Error};

#[test]
fn operation_new() {
    let mut context = Context::new();
    Builder::new("foo", Location::unknown()).build(&mut context);
}

#[test]
fn name() {
    let mut context = Context::new();

    assert_eq!(
        Builder::new("foo", Location::unknown())
            .build(&mut context)
            .name(),
        Identifier::new("foo")
    );
}

#[test]
fn result_error() {
    let mut context = Context::new();

    assert_eq!(
        Builder::new("foo", Location::unknown())
            .build(&mut context)
            .result(0)
            .unwrap_err(),
        Error::OperationResultPosition("\"foo\"() : () -> ()\n".into(), 0)
    );
}

#[test]
fn region_none() {
    let mut context = Context::new();

    assert!(Builder::new("foo", Location::unknown())
        .build(&mut context)
        .region(0)
        .is_none());
}

#[test]
fn operation_display() {
    let mut context = Context::new();

    assert_eq!(
        Builder::new("foo", Location::unknown())
            .build(&mut context)
            .to_string(),
        "\"foo\"() : () -> ()\n"
    );
}

#[test]
fn operation_debug() {
    let mut context = Context::new();

    assert_eq!(
        Builder::new("foo", Location::unknown())
            .build(&mut context)
            .debug_string(),
        "Operation(\n\"foo\"() : () -> ()\n)"
    );
}

#[test]
fn debug_print() {
    let mut context = Context::new();

    let op = Builder::new("foo", Location::new("file.ext", 1, 1)).build(&mut context);
    let debug_print = op.debug_print();

    assert_eq!(
        debug_print,
        r#""foo"() : () -> () loc(#loc)
#loc = loc("file.ext":1:1)
"#
    );
}

#[test]
fn debug_print_of_an_unknown_location() {
    let mut context = Context::new();
    let op = Builder::new("foo", Location::unknown()).build(&mut context);

    assert_eq!(
        op.debug_print(),
        "\"foo\"() : () -> () loc(#loc)\n#loc = loc(unknown)\n"
    );
}

#[test]
fn built_operation_is_owned_and_fresh() {
    let mut context = Context::new();
    let a = Builder::new("foo", Location::unknown()).build(&mut context);
    let b = Builder::new("foo", Location::unknown()).build(&mut context);

    assert!(a.is_owned());
    assert_eq!(a.handle().0, 0);
    assert_eq!(b.handle().0, 1);
    assert_eq!(a, a);
    assert_ne!(a, b);
    assert_eq!(a.result_count(), 0);
    assert_eq!(a.region_count(), 0);
    assert!(a.verify());
}

#[test]
fn results_are_found_by_position() {
    let mut context = Context::new();
    let op = Builder::new("pair", Location::unknown())
        .add_results(&[Type::integer(32)])
        .add_results(&[Type::index()])
        .build(&mut context);

    assert_eq!(op.result_count(), 2);
    assert_eq!(
        op.result(0).unwrap(),
        ResultValue { operation: op.handle(), position: 0, ty: Type::integer(32) }
    );
    assert_eq!(op.result(1).unwrap().ty(), Type::index());
    assert_eq!(
        op.result(2).unwrap_err(),
        Error::OperationResultPosition("%0:2 = \"pair\"() : () -> (i32, index)\n".into(), 2)
    );
}

#[test]
fn build_takes_over_the_regions() {
    let mut context = Context::new();
    let mut region = Region::new(&mut context);
    let block = region.append_block(Block::new(&mut context, &[]));
    let empty = Region::new(&mut context);
    let first = region.handle();
    let second = empty.handle();
    assert!(region.is_owned());

    let mut op = Builder::new("scope", Location::unknown())
        .add_regions(vec![region, empty])
        .build(&mut context);

    assert!(op.is_owned());
    assert_eq!(op.region_count(), 2);
    assert_eq!(op.region(0).unwrap().handle(), first);
    assert_eq!(op.region(1).unwrap().handle(), second);
    assert!(!op.region(0).unwrap().is_owned());
    assert!(!op.region(1).unwrap().is_owned());
    assert!(op.region(2).is_none());
    assert!(op.region_mut(2).is_none());
    assert!(op.verify());

    let added = op
        .region_mut(1)
        .unwrap()
        .append_block(Block::new(&mut context, &[]));
    assert_eq!(op.region(1).unwrap().first_block().unwrap().handle(), added);
    assert_eq!(op.region(0).unwrap().first_block().unwrap().handle(), block);
    assert!(op.verify());
}

#[test]
fn verify_rejects_a_member_that_is_still_owned() {
    let mut context = Context::new();
    let mut op = Builder::new("scope", Location::unknown())
        .add_regions(vec![Region::new(&mut context)])
        .build(&mut context);
    assert!(op.verify());

    *op.region_mut(0).unwrap() = Region::new(&mut context);

    assert!(!op.verify());
}

#[test]
fn operation_with_everything_is_rendered_in_the_general_form() {
    let mut context = Context::new();
    let mut block = Block::new(
        &mut context,
        &[
            (Type::integer(64), Location::unknown()),
            (Type::integer(64), Location::unknown()),
        ],
    );
    let sum = block.append_operation(
        Builder::new("arith.addi", Location::unknown())
            .add_operands(&[
                block.argument(0).unwrap().into(),
                block.argument(1).unwrap().into(),
            ])
            .add_results(&[Type::integer(64)])
            .build(&mut context),
    );
    let result: Value = block.first_operation().unwrap().result(0).unwrap().into();
    block.append_operation(
        Builder::new("func.return", Location::unknown())
            .add_operands(&[result])
            .build(&mut context),
    );
    assert_eq!(sum.0, 1);
    let mut region = Region::new(&mut context);
    region.append_block(block);

    let function = Builder::new("func.func", Location::unknown())
        .add_attributes(&[
            NamedAttribute::new_parsed("sym_name", "\"add\"").unwrap(),
            NamedAttribute::new_parsed("llvm.emit_c_interface", "unit").unwrap(),
            NamedAttribute::new(Identifier::new("width"), Attribute::Integer(-7, Type::integer(8)))
                .unwrap(),
        ])
        .add_regions(vec![region])
        .build(&mut context);

    assert_eq!(
        function.to_string(),
        concat_lines(&[
            "\"func.func\"() ({",
            "^bb0(%arg0: i64, %arg1: i64):",
            "  %1 = \"arith.addi\"(%arg0, %arg1) : (i64, i64) -> i64",
            "  \"func.return\"(%1) : (i64) -> ()",
            "}) {sym_name = \"add\", llvm.emit_c_interface = unit, width = -7 : i8} : () -> ()",
        ])
    );
}

fn concat_lines(lines: &[&str]) -> String {
    let mut text = String::new();
    for line in lines {
        text.push_str(line);
        text.push('\n');
    }
    text
}

#[test]
fn successors_and_later_results_are_rendered() {
    let mut context = Context::new();
    let target = Block::new(&mut context, &[]).handle();
    let other = Block::new(&mut context, &[]).handle();
    let source = Builder::new("pair", Location::unknown())
        .add_results(&[Type::integer(1), Type::integer(1)])
        .build(&mut context);
    let second: Value = source.result(1).unwrap().into();

    let branch = Builder::new("cf.cond_br", Location::unknown())
        .add_operands(&[second])
        .add_successors(&[target, other])
        .build(&mut context);

    assert_eq!(
        branch.to_string(),
        "\"cf.cond_br\"(%2#1)[^bb0, ^bb1] : (i1) -> ()\n"
    );
}

#[test]
fn from_raw_holds_the_regions_it_is_given() {
    let mut context = Context::new();
    let region = Region::new(&mut context);
    let inner = region.handle();

    let op = ir_tree::ir::Operation::from_raw(
        ir_tree::ir::OperationHandle(77),
        false,
        Builder::new("scope", Location::unknown()).add_regions(vec![region]),
    );

    assert_eq!(op.handle().0, 77);
    assert!(!op.is_owned());
    assert_eq!(op.name(), Identifier::new("scope"));
    assert_eq!(op.region(0).unwrap().handle(), inner);
    assert!(!op.region(0).unwrap().is_owned());
    assert_eq!(op.to_string(), "\"scope\"() ({\n}) : () -> ()\n");
}
