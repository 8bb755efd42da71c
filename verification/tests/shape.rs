use eliminate::{make_item, Expr, Item, ItemShape};

fn leaf(tag: u64) -> Expr {
    Expr::Node { tag, children: vec![] }
}

fn named(name: &str, has_init: bool) -> ItemShape {
    ItemShape::Declarator { name: Some(name.to_string()), has_init }
}

fn names(list: &[&str]) -> Vec<String> {
    list.iter().map(|n| n.to_string()).collect()
}

#[test]
fn declarator_with_its_initializer_is_a_declaration() {
    assert_eq!(
        make_item(7, named("a", true), vec![leaf(5)]),
        Item::Declaration { tag: 7, name: "a".to_string(), init: Some(leaf(5)) }
    );
}

#[test]
fn declarator_without_initializer_is_a_declaration() {
    assert_eq!(
        make_item(7, named("a", false), vec![]),
        Item::Declaration { tag: 7, name: "a".to_string(), init: None }
    );
}

#[test]
fn declarator_of_a_pattern_is_a_statement() {
    let shape = ItemShape::Declarator { name: None, has_init: true };
    let expected = Item::Statement { tag: 7, exprs: vec![leaf(1)] };
    assert_eq!(make_item(7, shape, vec![leaf(1)]), expected);
    let bare = ItemShape::Declarator { name: None, has_init: false };
    assert_eq!(make_item(7, bare, vec![]), Item::Statement { tag: 7, exprs: vec![] });
}

#[test]
fn declarator_with_other_expressions_is_a_statement() {
    // One name, but more expressions than the initializer, or fewer.
    assert_eq!(
        make_item(7, named("a", true), vec![leaf(1), leaf(2)]),
        Item::Statement { tag: 7, exprs: vec![leaf(1), leaf(2)] }
    );
    assert_eq!(make_item(7, named("a", true), vec![]), Item::Statement { tag: 7, exprs: vec![] });
    let expected = Item::Statement { tag: 7, exprs: vec![leaf(1)] };
    assert_eq!(make_item(7, named("a", false), vec![leaf(1)]), expected);
}

#[test]
fn exports_keep_their_names() {
    let declaration = ItemShape::ExportedDeclaration { names: names(&["a"]) };
    assert_eq!(
        make_item(2, declaration, vec![leaf(5)]),
        Item::Export { tag: 2, names: names(&["a"]), exprs: vec![leaf(5)] }
    );
    let list = ItemShape::ExportedNames { names: names(&["a", "b"]) };
    assert_eq!(
        make_item(3, list, vec![]),
        Item::Export { tag: 3, names: names(&["a", "b"]), exprs: vec![] }
    );
}

#[test]
fn other_items_are_statements() {
    assert_eq!(
        make_item(4, ItemShape::Other, vec![leaf(1)]),
        Item::Statement { tag: 4, exprs: vec![leaf(1)] }
    );
}
