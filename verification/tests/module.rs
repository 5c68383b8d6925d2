use ir_tree::ir::{Block, Builder, Location, Module, Region, Type};
use ir_tree::Context;

#[test]
fn module_new() {
    let mut context = Context::new();
    Module::new(&mut context, Location::new("foo", 42, 42));
}

#[test]
fn from_operation() {
    let mut context = Context::new();

    let mut region = Region::new(&mut context);
    region.append_block(Block::new(&mut context, &[]));

    let module = Module::from_operation(
        Builder::new("builtin.module", Location::unknown())
            .add_regions(vec![region])
            .build(&mut context),
    )
    .unwrap();

    assert!(module.operation().verify());
    assert_eq!(module.operation().to_string(), "module {\n}\n")
}

#[test]
fn from_operation_fail() {
    let mut context = Context::new();

    assert!(
        Module::from_operation(Builder::new("func.func", Location::unknown()).build(&mut context))
            .is_none()
    );
}

#[test]
fn fresh_module_has_an_empty_body_that_it_owns() {
    let mut context = Context::new();
    let module = Module::new(&mut context, Location::unknown());

    assert_eq!(module.handle().0, 0);
    assert_eq!(module.operation().handle().0, 0);
    assert_eq!(module.operation().region(0).unwrap().handle().0, 1);
    assert_eq!(module.body().handle().0, 2);
    assert!(!module.operation().is_owned());
    assert!(!module.operation().region(0).unwrap().is_owned());
    assert!(!module.body().is_owned());
    assert_eq!(module.body().argument_count(), 0);
    assert_eq!(module.body().operation_count(), 0);
    assert!(module.body().first_operation().is_none());
    assert!(module.body().terminator(&context).is_none());
    assert_eq!(module.operation().region_count(), 1);
    assert!(module.operation().verify());
    assert_eq!(module.operation().to_string(), "module {\n}\n");
    assert!(Region::new(&mut context).handle().0 == 3);
}

#[test]
fn from_operation_wants_one_region_with_one_block() {
    let mut context = Context::new();

    let no_region = Builder::new("builtin.module", Location::unknown()).build(&mut context);
    assert!(Module::from_operation(no_region).is_none());

    let empty_region = Builder::new("builtin.module", Location::unknown())
        .add_regions(vec![Region::new(&mut context)])
        .build(&mut context);
    assert!(Module::from_operation(empty_region).is_none());

    let mut two_blocks = Region::new(&mut context);
    two_blocks.append_block(Block::new(&mut context, &[]));
    two_blocks.append_block(Block::new(&mut context, &[]));
    let op = Builder::new("builtin.module", Location::unknown())
        .add_regions(vec![two_blocks])
        .build(&mut context);
    assert!(Module::from_operation(op).is_none());

    let mut one = Region::new(&mut context);
    let body = one.append_block(Block::new(&mut context, &[]));
    let op = Builder::new("builtin.module", Location::unknown())
        .add_regions(vec![one])
        .build(&mut context);
    let handle = op.handle();
    let module = Module::from_operation(op).unwrap();
    assert_eq!(module.handle().0, handle.0);
    assert_eq!(module.operation().handle(), handle);
    assert!(!module.operation().is_owned());
    assert_eq!(module.body().handle(), body);
}

#[test]
fn body_of_a_module_takes_operations() {
    let mut context = Context::new();
    let mut module = Module::new(&mut context, Location::unknown());

    let mut block = Block::new(&mut context, &[(Type::integer(64), Location::unknown())]);
    block.append_operation(
        Builder::new("func.return", Location::unknown())
            .add_operands(&[block.argument(0).unwrap().into()])
            .build(&mut context),
    );
    let mut region = Region::new(&mut context);
    region.append_block(block);
    let function = Builder::new("func.func", Location::unknown())
        .add_regions(vec![region])
        .build(&mut context);

    let attached = module.body_mut().append_operation(function);

    assert_eq!(module.body().first_operation().unwrap().handle(), attached);
    assert!(module.operation().verify());
    assert_eq!(
        module.operation().to_string(),
        "module {\n  \"func.func\"() ({\n  ^bb3(%arg0: i64):\n    \"func.return\"(%arg0) : (i64) -> ()\n  }) : () -> ()\n}\n"
    );
}
