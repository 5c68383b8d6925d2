use ir_tree::ir::{Block, Location, Region, Type};
use ir_tree::{Context, Error};

#[test]
fn region_new() {
    let mut context = Context::new();
    Region::new(&mut context);
}

#[test]
fn first_block() {
    let mut context = Context::new();

    assert!(Region::new(&mut context).first_block().is_none());
}

#[test]
fn append_block() {
    let mut context = Context::new();
    let mut region = Region::new(&mut context);
    let block = Block::new(&mut context, &[]);

    region.append_block(block);

    assert!(region.first_block().is_some());
}

#[test]
fn insert_block_after() {
    let mut context = Context::new();
    let mut region = Region::new(&mut context);

    let block = region.append_block(Block::new(&mut context, &[]));
    region
        .insert_block_after(block, Block::new(&mut context, &[]))
        .unwrap();

    assert_eq!(region.first_block().map(|b| b.handle()), Some(block));
}

#[test]
fn insert_block_before() {
    let mut context = Context::new();
    let mut region = Region::new(&mut context);

    let block = region.append_block(Block::new(&mut context, &[]));
    let block = region
        .insert_block_before(block, Block::new(&mut context, &[]))
        .unwrap();

    assert_eq!(region.first_block().map(|b| b.handle()), Some(block));
}

#[test]
fn equal() {
    let mut context = Context::new();
    let region = Region::new(&mut context);

    assert_eq!(region, region);
}

#[test]
fn not_equal() {
    let mut context = Context::new();

    assert_ne!(Region::new(&mut context), Region::new(&mut context));
}

#[test]
fn fresh_region_is_empty_and_owned() {
    let mut context = Context::new();
    let region = Region::new(&mut context);

    assert!(region.is_owned());
    assert_eq!(region.block_count(), 0);
    assert!(region.first_block().is_none());
    assert!(region.last_block().is_none());
    assert!(region.block(0).is_none());
    assert!(region.verify());
}

#[test]
fn blocks_keep_their_order() {
    let mut context = Context::new();
    let mut region = Region::new(&mut context);

    let a = region.append_block(Block::new(&mut context, &[]));
    let b = region.append_block(Block::new(&mut context, &[]));
    let c = region.insert_block_after(a, Block::new(&mut context, &[])).unwrap();
    let d = region.insert_block_before(a, Block::new(&mut context, &[])).unwrap();

    let order: Vec<_> = (0..4).map(|i| region.block(i).unwrap().handle()).collect();
    assert_eq!(order, vec![d, a, c, b]);
    assert_eq!(region.first_block().unwrap().handle(), d);
    assert_eq!(region.last_block().unwrap().handle(), b);
    assert!(!region.first_block().unwrap().is_owned());
    assert!(region.verify());
}

#[test]
fn insert_beside_a_strange_block_fails() {
    let mut context = Context::new();
    let mut region = Region::new(&mut context);
    region.append_block(Block::new(&mut context, &[]));
    let stranger = Block::new(&mut context, &[]).handle();

    assert_eq!(
        region.insert_block_after(stranger, Block::new(&mut context, &[])),
        Err(Error::BlockNotFound)
    );
    assert_eq!(
        region.insert_block_before(stranger, Block::new(&mut context, &[])),
        Err(Error::BlockNotFound)
    );
    assert_eq!(region.block_count(), 1);
}

#[test]
fn attached_block_is_rendered_with_label_and_arguments() {
    let mut context = Context::new();
    let mut region = Region::new(&mut context);
    let block = Block::new(
        &mut context,
        &[
            (Type::integer(64), Location::unknown()),
            (Type::index(), Location::unknown()),
        ],
    );
    let handle = region.append_block(block);

    assert_eq!(handle.0, 1);
    assert_eq!(
        region.first_block().unwrap().to_string(),
        "^bb1(%arg0: i64, %arg1: index):\n"
    );
}

#[test]
fn from_raw_holds_the_blocks_it_is_given() {
    let mut context = Context::new();
    let a = Block::new(&mut context, &[]);
    let b = Block::new(&mut context, &[]);
    let (first, second) = (a.handle(), b.handle());

    let region = Region::from_raw(ir_tree::ir::RegionHandle(9), true, vec![a, b]);

    assert_eq!(region.handle().0, 9);
    assert!(region.is_owned());
    assert_eq!(region.block(0).unwrap().handle(), first);
    assert_eq!(region.block(1).unwrap().handle(), second);
    assert!(!region.block(0).unwrap().is_owned());
    assert!(!region.block(1).unwrap().is_owned());
    assert!(region.verify());
}

#[test]
fn member_blocks_can_be_changed_in_place() {
    let mut context = Context::new();
    let mut region = Region::new(&mut context);
    let a = region.append_block(Block::new(&mut context, &[]));
    let stranger = Block::new(&mut context, &[]).handle();

    assert!(region.member(stranger).is_none());
    assert!(region.member_mut(stranger).is_none());
    let value = region
        .member_mut(a)
        .unwrap()
        .add_argument(Type::integer(32), Location::unknown());

    assert_eq!(value.ty, Type::integer(32));
    assert_eq!(region.member(a).unwrap().argument_count(), 1);
}
