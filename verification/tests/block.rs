use ir_tree::ir::{Argument, Block, Builder, Location, NamedAttribute, Type, Value};
use ir_tree::{Context, Error};

fn constant(context: &mut Context) -> ir_tree::ir::Operation {
    Builder::new("arith.constant", Location::unknown())
        .add_results(&[Type::integer(32)])
        .add_attributes(&[NamedAttribute::new_parsed("value", "0 : i32").unwrap()])
        .build(context)
}

#[test]
fn block_new() {
    let mut context = Context::new();
    Block::new(&mut context, &[]);
}

#[test]
fn argument() {
    let mut context = Context::new();
    let ty = Type::integer(64);

    assert_eq!(
        Block::new(&mut context, &[(ty, Location::unknown())])
            .argument(0)
            .unwrap()
            .ty(),
        ty
    );
}

#[test]
fn argument_error() {
    let mut context = Context::new();

    assert_eq!(
        Block::new(&mut context, &[]).argument(0).unwrap_err(),
        Error::BlockArgumentPosition("<<UNLINKED BLOCK>>\n".into(), 0)
    );
}

#[test]
fn argument_count() {
    let mut context = Context::new();

    assert_eq!(Block::new(&mut context, &[]).argument_count(), 0);
}

#[test]
fn terminator() {
    let mut context = Context::new();
    context.register_terminator("func.return");

    let mut block = Block::new(&mut context, &[]);

    let operation = block
        .append_operation(Builder::new("func.return", Location::unknown()).build(&mut context));

    assert_eq!(block.terminator(&context).map(|o| o.handle()), Some(operation));
}

#[test]
fn terminator_none() {
    let mut context = Context::new();

    assert_eq!(Block::new(&mut context, &[]).terminator(&context), None);
}

#[test]
fn first_operation() {
    let mut context = Context::new();
    let mut block = Block::new(&mut context, &[]);

    let op = block.append_operation(constant(&mut context));

    assert_eq!(block.first_operation().map(|o| o.handle()), Some(op));
}

#[test]
fn first_operation_none() {
    let mut context = Context::new();
    let block = Block::new(&mut context, &[]);

    assert_eq!(block.first_operation(), None);
}

#[test]
fn append_operation() {
    let mut context = Context::new();
    let mut block = Block::new(&mut context, &[]);

    block.append_operation(constant(&mut context));
}

#[test]
fn insert_operation() {
    let mut context = Context::new();
    let mut block = Block::new(&mut context, &[]);

    block.insert_operation(0, constant(&mut context));
}

#[test]
fn insert_operation_after() {
    let mut context = Context::new();
    let mut block = Block::new(&mut context, &[]);

    let first_operation = block.append_operation(constant(&mut context));
    let second_operation = block
        .insert_operation_after(first_operation, constant(&mut context))
        .unwrap();

    assert_eq!(
        block.first_operation().map(|o| o.handle()),
        Some(first_operation)
    );
    assert_eq!(
        block.operation(1).map(|o| o.handle()),
        Some(second_operation)
    );
}

#[test]
fn insert_operation_before() {
    let mut context = Context::new();
    let mut block = Block::new(&mut context, &[]);

    let second_operation = block.append_operation(constant(&mut context));
    let first_operation = block
        .insert_operation_before(second_operation, constant(&mut context))
        .unwrap();

    assert_eq!(
        block.operation(0).map(|o| o.handle()),
        Some(first_operation)
    );
    assert_eq!(
        block.operation(1).map(|o| o.handle()),
        Some(second_operation)
    );
}

#[test]
fn block_display() {
    let mut context = Context::new();

    assert_eq!(
        Block::new(&mut context, &[]).to_string(),
        "<<UNLINKED BLOCK>>\n"
    );
}

#[test]
fn block_debug() {
    let mut context = Context::new();

    assert_eq!(
        Block::new(&mut context, &[]).debug_string(),
        "Block(\n<<UNLINKED BLOCK>>\n)"
    );
}

#[test]
fn argument_past_the_end_reports_the_position() {
    let mut context = Context::new();
    let block = Block::new(
        &mut context,
        &[
            (Type::integer(1), Location::unknown()),
            (Type::index(), Location::unknown()),
        ],
    );

    assert_eq!(block.argument_count(), 2);
    assert_eq!(block.argument(1).unwrap().ty(), Type::index());
    assert_eq!(
        block.argument(1).unwrap(),
        Argument { block: block.handle(), position: 1, ty: Type::index() }
    );
    assert_eq!(
        block.argument(2).unwrap_err(),
        Error::BlockArgumentPosition("<<UNLINKED BLOCK>>\n".into(), 2)
    );
}

#[test]
fn add_argument_extends_the_block() {
    let mut context = Context::new();
    let mut block = Block::new(&mut context, &[(Type::integer(8), Location::unknown())]);

    let value = block.add_argument(Type::integer(16), Location::new("a.ir", 3, 4));

    assert_eq!(value, Value::from(block.argument(1).unwrap()));
    assert_eq!(block.argument_count(), 2);
    assert_eq!(block.argument(0).unwrap().ty(), Type::integer(8));
    assert_eq!(block.argument(1).unwrap().ty(), Type::integer(16));
}

#[test]
fn appended_operation_is_disowned_and_last() {
    let mut context = Context::new();
    let mut block = Block::new(&mut context, &[]);
    let first = constant(&mut context);
    let second = constant(&mut context);
    assert!(first.is_owned());
    assert!(block.is_owned());

    let first = block.append_operation(first);
    let second = block.append_operation(second);

    assert_ne!(first, second);
    assert_eq!(block.operation_count(), 2);
    assert_eq!(block.operation(0).unwrap().handle(), first);
    assert_eq!(block.operation(1).unwrap().handle(), second);
    assert!(!block.operation(0).unwrap().is_owned());
    assert!(!block.operation(1).unwrap().is_owned());
    assert!(block.operation(2).is_none());
    assert!(block.verify());
}

#[test]
fn insert_at_head_changes_the_first_operation() {
    let mut context = Context::new();
    let mut block = Block::new(&mut context, &[]);
    let a = block.append_operation(constant(&mut context));
    assert_eq!(block.first_operation().unwrap().handle(), a);

    let b = block.insert_operation_after(a, constant(&mut context)).unwrap();
    assert_eq!(block.first_operation().unwrap().handle(), a);

    let c = block.insert_operation(0, constant(&mut context));
    assert_eq!(block.first_operation().unwrap().handle(), c);

    let d = block.insert_operation_before(c, constant(&mut context)).unwrap();
    let order: Vec<_> = (0..4).map(|i| block.operation(i).unwrap().handle()).collect();
    assert_eq!(order, vec![d, c, a, b]);
}

#[test]
fn insert_beside_a_stranger_fails_and_changes_nothing() {
    let mut context = Context::new();
    let mut block = Block::new(&mut context, &[]);
    let member = block.append_operation(constant(&mut context));
    let stranger = constant(&mut context).handle();

    assert_eq!(
        block.insert_operation_after(stranger, constant(&mut context)),
        Err(Error::OperationNotFound)
    );
    assert_eq!(
        block.insert_operation_before(stranger, constant(&mut context)),
        Err(Error::OperationNotFound)
    );
    assert_eq!(block.operation_count(), 1);
    assert_eq!(block.first_operation().unwrap().handle(), member);
}

#[test]
fn terminator_is_the_last_operation_only_if_registered() {
    let mut context = Context::new();
    let mut block = Block::new(&mut context, &[]);
    block.append_operation(Builder::new("func.return", Location::unknown()).build(&mut context));
    assert_eq!(block.terminator(&context), None);

    context.register_terminator("func.return");
    context.register_terminator("func.return");
    assert!(context.is_terminator("func.return"));
    assert!(!context.is_terminator("arith.constant"));
    assert!(block.terminator(&context).is_some());

    let last = block.append_operation(constant(&mut context));
    assert_eq!(block.terminator(&context), None);

    let end = block
        .insert_operation_after(
            last,
            Builder::new("func.return", Location::unknown()).build(&mut context),
        )
        .unwrap();
    assert_eq!(block.terminator(&context).unwrap().handle(), end);
}

#[test]
fn blocks_are_equal_by_handle() {
    let mut context = Context::new();
    let a = Block::new(&mut context, &[]);
    let b = Block::new(&mut context, &[]);

    assert_eq!(a, a);
    assert_ne!(a, b);
}

#[test]
fn from_raw_holds_the_operations_it_is_given() {
    let mut context = Context::new();
    let a = constant(&mut context);
    let b = constant(&mut context);
    let (first, second) = (a.handle(), b.handle());

    let block = Block::from_raw(
        ir_tree::ir::BlockHandle(40),
        false,
        vec![(Type::integer(8), Location::unknown())],
        vec![a, b],
    );

    assert_eq!(block.handle().0, 40);
    assert!(!block.is_owned());
    assert_eq!(block.argument(0).unwrap().ty(), Type::integer(8));
    assert_eq!(block.operation(0).unwrap().handle(), first);
    assert_eq!(block.operation(1).unwrap().handle(), second);
    assert!(!block.operation(0).unwrap().is_owned());
    assert!(!block.operation(1).unwrap().is_owned());
    assert!(block.verify());
    assert_eq!(
        block.to_string(),
        "^bb40(%arg0: i8):\n  %0 = \"arith.constant\"() {value = 0 : i32} : () -> i32\n  %1 = \"arith.constant\"() {value = 0 : i32} : () -> i32\n"
    );
}

#[test]
fn members_are_found_by_handle() {
    let mut context = Context::new();
    let mut block = Block::new(&mut context, &[]);
    let a = block.append_operation(constant(&mut context));
    let b = block.append_operation(
        Builder::new("scope", Location::unknown())
            .add_regions(vec![ir_tree::ir::Region::new(&mut context)])
            .build(&mut context),
    );
    let stranger = constant(&mut context).handle();

    assert_eq!(block.member(a).unwrap().handle(), a);
    assert_eq!(block.member(b).unwrap().handle(), b);
    assert!(block.member(stranger).is_none());
    assert!(block.member_mut(stranger).is_none());

    let inner = block
        .member_mut(b)
        .unwrap()
        .region_mut(0)
        .unwrap()
        .append_block(Block::new(&mut context, &[]));
    let region = block.member(b).unwrap().region(0).unwrap();
    assert_eq!(region.first_block().unwrap().handle(), inner);
    assert_eq!(region.member(inner).unwrap().handle(), inner);
    assert!(block.verify());
}
