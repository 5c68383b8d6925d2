use ir_tree::ir::{Block, Builder, Location, Module, Region};
use ir_tree::Context;

#[test]
fn every_node_gets_a_handle_of_its_own() {
    let mut context = Context::new();
    assert!(context.can_allocate());

    let region = Region::new(&mut context);
    let block = Block::new(&mut context, &[]);
    let operation = Builder::new("foo", Location::unknown()).build(&mut context);
    let module = Module::new(&mut context, Location::unknown());
    let later = Region::new(&mut context);

    assert_eq!(region.handle().0, 0);
    assert_eq!(block.handle().0, 1);
    assert_eq!(operation.handle().0, 2);
    assert_eq!(module.handle().0, 3);
    assert_eq!(later.handle().0, 6);
}

#[test]
fn registering_a_terminator_twice_is_registering_it_once() {
    let mut context = Context::new();
    assert!(!context.is_terminator("cf.br"));

    context.register_terminator("cf.br");
    assert!(context.is_terminator("cf.br"));

    context.register_terminator("cf.br");
    assert!(context.is_terminator("cf.br"));
    assert!(!context.is_terminator("cf.b"));
    assert!(!context.is_terminator(""));
}

#[test]
fn locations_are_copied_with_their_parts() {
    let location = Location::new("file.ext", 1, 2);
    let copy = location.clone();

    match (location, copy) {
        (
            Location::File { file, line, column },
            Location::File { file: file_copy, line: line_copy, column: column_copy },
        ) => {
            assert_eq!(file, "file.ext");
            assert_eq!(file_copy, "file.ext");
            assert_eq!((line, column), (1, 2));
            assert_eq!((line_copy, column_copy), (1, 2));
        }
        _ => panic!("a file location was expected"),
    }
    assert!(matches!(Location::unknown(), Location::Unknown));
}
