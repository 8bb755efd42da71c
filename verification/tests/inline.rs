use eliminate::{process_recursive, process_within, Expr, Inliner, Item, Program};

// Tags of the nodes that the programs below are made of.
const LET: u64 = 1;
const EXPORT: u64 = 2;
const STATEMENT: u64 = 3;
const PLUS: u64 = 10;
const TIMES: u64 = 11;
const CALL: u64 = 12;
const MEMBER: u64 = 13;
const NUMBER: u64 = 1000;

fn ident(name: &str) -> Expr {
    Expr::Ident(name.to_string())
}

fn number(value: u64) -> Expr {
    Expr::Node { tag: NUMBER + value, children: vec![] }
}

fn plus(left: Expr, right: Expr) -> Expr {
    Expr::Node { tag: PLUS, children: vec![left, right] }
}

fn times(left: Expr, right: Expr) -> Expr {
    Expr::Node { tag: TIMES, children: vec![left, right] }
}

fn call(callee: Expr, mut arguments: Vec<Expr>) -> Expr {
    let mut children = vec![callee];
    children.append(&mut arguments);
    Expr::Node { tag: CALL, children }
}

fn member(object: Expr) -> Expr {
    Expr::Node { tag: MEMBER, children: vec![object] }
}

fn declare(name: &str, init: Expr) -> Item {
    Item::Declaration { tag: LET, name: name.to_string(), init: Some(init) }
}

fn declare_only(name: &str) -> Item {
    Item::Declaration { tag: LET, name: name.to_string(), init: None }
}

fn export_declare(name: &str, init: Expr) -> Item {
    Item::Export { tag: EXPORT, names: vec![name.to_string()], exprs: vec![init] }
}

fn export_names(names: &[&str]) -> Item {
    let names = names.iter().map(|n| n.to_string()).collect();
    Item::Export { tag: EXPORT, names, exprs: vec![] }
}

fn statement(expr: Expr) -> Item {
    Item::Statement { tag: STATEMENT, exprs: vec![expr] }
}

fn program(items: Vec<Item>) -> Program {
    Program { items }
}

fn one_pass(module: Program) -> (Program, bool) {
    let mut inliner = Inliner::new();
    let out = inliner.inline(module);
    (out, inliner.inlined())
}

#[test]
fn test_inline_single_use_variable() {
    // let a = 5; let b = a + 1;
    let module = program(vec![declare("a", number(5)), declare("b", plus(ident("a"), number(1)))]);
    let mut inliner = Inliner::new();
    let inlined_module = inliner.inline(module);
    // let b = 5 + 1;
    assert_eq!(inlined_module, program(vec![declare("b", plus(number(5), number(1)))]));
}

#[test]
fn test_do_not_inline_exported_variable() {
    // export let a = 5; let b = a + 1;
    let module = program(vec![
        export_declare("a", number(5)),
        declare("b", plus(ident("a"), number(1))),
    ]);
    let mut inliner = Inliner::new();
    let inlined_module = inliner.inline(module.clone());
    // export let a = 5;\nlet b = a + 1;
    assert_eq!(inlined_module, module);
}

#[test]
fn test_inline_recursive() {
    // let a = 5; let b = a + 1; let c = b * 2;
    let module = program(vec![
        declare("a", number(5)),
        declare("b", plus(ident("a"), number(1))),
        declare("c", times(ident("b"), number(2))),
    ]);
    let (result, settled) = process_recursive(module);
    assert!(settled);
    // One statement is left, the declaration of `c`. The reference to `b` was
    // replaced by the initializer that the catalog held for `b`, which is the
    // one that the pass found: `a + 1`.
    assert_eq!(
        result,
        program(vec![declare("c", times(plus(ident("a"), number(1)), number(2)))])
    );
}

#[test]
fn chain_is_inlined_in_one_pass() {
    let module = program(vec![
        declare("a", number(5)),
        declare("b", plus(ident("a"), number(1))),
        declare("c", times(ident("b"), number(2))),
    ]);
    let (first, changed) = one_pass(module);
    assert!(changed);
    assert_eq!(first.items.len(), 1);
    let (second, changed_again) = one_pass(first.clone());
    assert!(!changed_again);
    assert_eq!(second, first);
}

#[test]
fn fixpoint_is_idempotent() {
    let module = program(vec![
        declare("a", number(5)),
        declare("b", plus(ident("a"), ident("a"))),
        declare("c", times(ident("b"), number(2))),
        statement(call(ident("f"), vec![ident("c"), ident("x")])),
    ]);
    let (settled_program, settled) = process_recursive(module);
    assert!(settled);
    let (again, changed) = one_pass(settled_program.clone());
    assert!(!changed);
    assert_eq!(again, settled_program);
    let (rerun, resettled) = process_recursive(settled_program.clone());
    assert!(resettled);
    assert_eq!(rerun, settled_program);
}

#[test]
fn exported_declaration_is_kept_however_often_it_is_used() {
    // export let a = 5; let b = a + 1;
    let module = program(vec![
        export_declare("a", number(5)),
        declare("b", plus(ident("a"), number(1))),
    ]);
    let (result, settled) = process_recursive(module.clone());
    assert!(settled);
    assert_eq!(result, module);
}

#[test]
fn name_exported_by_list_is_kept() {
    // let a = 5; let b = a + 1; export { a };
    let module = program(vec![
        declare("a", number(5)),
        declare("b", plus(ident("a"), number(1))),
        export_names(&["a"]),
    ]);
    let (result, changed) = one_pass(module.clone());
    assert!(!changed);
    assert_eq!(result, module);
}

#[test]
fn expressions_of_an_export_are_walked() {
    // let a = 5; export let b = a + 1;
    let module = program(vec![
        declare("a", number(5)),
        export_declare("b", plus(ident("a"), number(1))),
    ]);
    let (result, changed) = one_pass(module);
    assert!(changed);
    assert_eq!(result, program(vec![export_declare("b", plus(number(5), number(1)))]));
}

#[test]
fn binding_used_twice_keeps_its_declaration() {
    // let a = 5; let b = a + 1; let c = a * 2;
    let module = program(vec![
        declare("a", number(5)),
        declare("b", plus(ident("a"), number(1))),
        declare("c", times(ident("a"), number(2))),
    ]);
    let mut inliner = Inliner::new();
    let result = inliner.inline(module);
    assert!(inliner.inlined());
    assert_eq!(inliner.catalog().usage_count(&"a".to_string()), Some(2));
    // The declaration of `a` stays as it was. The first reference was
    // replaced when it was met; the second one stays.
    assert_eq!(
        result,
        program(vec![
            declare("a", number(5)),
            declare("b", plus(number(5), number(1))),
            declare("c", times(ident("a"), number(2))),
        ])
    );
}

#[test]
fn binding_used_twice_is_inlined_by_later_passes() {
    let module = program(vec![
        declare("a", number(5)),
        declare("b", plus(ident("a"), number(1))),
        declare("c", times(ident("a"), number(2))),
    ]);
    let (result, settled) = process_recursive(module);
    assert!(settled);
    assert_eq!(
        result,
        program(vec![
            declare("b", plus(number(5), number(1))),
            declare("c", times(number(5), number(2))),
        ])
    );
}

#[test]
fn unused_binding_is_kept() {
    // let a = 5; console.log(1);
    let module = program(vec![
        declare("a", number(5)),
        statement(call(member(ident("console")), vec![number(1)])),
    ]);
    let mut inliner = Inliner::new();
    let result = inliner.inline(module.clone());
    assert!(!inliner.inlined());
    assert_eq!(inliner.catalog().usage_count(&"a".to_string()), Some(0));
    assert_eq!(inliner.catalog().usage_count(&"console".to_string()), None);
    assert_eq!(result, module);
}

#[test]
fn empty_program_is_left_alone() {
    let (result, changed) = one_pass(program(vec![]));
    assert!(!changed);
    assert_eq!(result, program(vec![]));
}

#[test]
fn later_declaration_of_a_name_wins() {
    // let a = 5; let a = 7; f(a);
    let module = program(vec![
        declare("a", number(5)),
        declare("a", number(7)),
        statement(call(ident("f"), vec![ident("a")])),
    ]);
    let (result, changed) = one_pass(module);
    assert!(changed);
    // Both declarations of `a` go: they are dropped by name.
    assert_eq!(result, program(vec![statement(call(ident("f"), vec![number(7)]))]));
}

#[test]
fn declaration_without_initializer_is_no_candidate() {
    // let a; f(a);
    let module = program(vec![declare_only("a"), statement(call(ident("f"), vec![ident("a")]))]);
    let mut inliner = Inliner::new();
    let result = inliner.inline(module.clone());
    assert!(!inliner.inlined());
    assert_eq!(inliner.catalog().usage_count(&"a".to_string()), None);
    assert_eq!(result, module);
}

#[test]
fn reference_before_the_declaration_is_inlined() {
    // f(a); let a = 5;
    let module =
        program(vec![statement(call(ident("f"), vec![ident("a")])), declare("a", number(5))]);
    let (result, changed) = one_pass(module);
    assert!(changed);
    assert_eq!(result, program(vec![statement(call(ident("f"), vec![number(5)]))]));
}

#[test]
fn what_was_put_in_is_not_walked_in_the_same_pass() {
    // let a = b + 1; let b = 2; f(a);
    let module = program(vec![
        declare("a", plus(ident("b"), number(1))),
        declare("b", number(2)),
        statement(call(ident("f"), vec![ident("a")])),
    ]);
    let mut inliner = Inliner::new();
    let result = inliner.inline(module);
    // `b` was counted once, in the initializer of `a`; the copy of that
    // initializer which took the place of `a` was not walked.
    assert_eq!(inliner.catalog().usage_count(&"b".to_string()), Some(1));
    assert_eq!(inliner.catalog().usage_count(&"a".to_string()), Some(1));
    assert_eq!(
        result,
        program(vec![statement(call(ident("f"), vec![plus(ident("b"), number(1))]))])
    );
}

#[test]
fn operands_are_walked_from_left_to_right_and_depth_first() {
    // let a = 1; f(g(a), a);
    let module = program(vec![
        declare("a", number(1)),
        statement(call(ident("f"), vec![call(ident("g"), vec![ident("a")]), ident("a")])),
    ]);
    let (result, changed) = one_pass(module);
    assert!(changed);
    assert_eq!(
        result,
        program(vec![
            declare("a", number(1)),
            statement(call(ident("f"), vec![call(ident("g"), vec![number(1)]), ident("a")])),
        ])
    );
}

#[test]
fn run_is_given_up_after_the_allowed_passes() {
    // let a = f(a, a); every pass puts the initializer in the place of the
    // first reference and leaves two references behind.
    let module = program(vec![declare("a", call(ident("f"), vec![ident("a"), ident("a")]))]);
    let (after_none, settled_none) = process_within(module.clone(), 0);
    assert!(!settled_none);
    assert_eq!(after_none, module);
    let (after_two, settled_two) = process_within(module.clone(), 2);
    assert!(!settled_two);
    let inner = call(ident("f"), vec![ident("a"), ident("a")]);
    let once = call(ident("f"), vec![inner.clone(), ident("a")]);
    let twice =
        call(ident("f"), vec![call(ident("f"), vec![once.clone(), ident("a")]), ident("a")]);
    assert_eq!(after_two, program(vec![declare("a", twice)]));
    let (first, changed) = one_pass(module);
    assert!(changed);
    assert_eq!(first, program(vec![declare("a", once)]));
}

#[test]
fn run_of_one_pass_settles_only_on_an_inert_program() {
    let inert = program(vec![declare("a", number(5))]);
    let (result, settled) = process_within(inert.clone(), 1);
    assert!(settled);
    assert_eq!(result, inert);
    let busy = program(vec![declare("a", number(5)), statement(ident("a"))]);
    let (left, settled_busy) = process_within(busy, 1);
    assert!(!settled_busy);
    assert_eq!(left, program(vec![statement(number(5))]));
}

#[test]
fn walk_of_one_expression_counts_and_replaces() {
    let mut inliner = Inliner::new();
    inliner.visit_mut_var_declarator(&"a".to_string(), &Some(number(5)));
    inliner.visit_mut_var_declarator(&"u".to_string(), &None);
    let mut expr = plus(ident("a"), plus(ident("a"), ident("u")));
    inliner.visit_mut_expr(&mut expr);
    assert!(inliner.inlined());
    assert_eq!(expr, plus(number(5), plus(ident("a"), ident("u"))));
    assert_eq!(inliner.catalog().usage_count(&"a".to_string()), Some(2));
    assert_eq!(inliner.catalog().usage_count(&"u".to_string()), None);
}

#[test]
fn exported_name_is_not_recorded_as_a_binding() {
    let mut inliner = Inliner::new();
    inliner.visit_mut_export_named_specifier(&"a".to_string());
    inliner.visit_mut_var_declarator(&"a".to_string(), &Some(number(5)));
    let mut expr = ident("a");
    inliner.visit_mut_expr(&mut expr);
    assert!(!inliner.inlined());
    assert_eq!(expr, ident("a"));
    assert!(inliner.catalog().is_exported(&"a".to_string()));
    assert_eq!(inliner.catalog().usage_count(&"a".to_string()), None);
}

#[test]
fn items_are_dropped_by_the_counter_of_their_name() {
    let mut inliner = Inliner::new();
    inliner.visit_mut_var_declarator(&"once".to_string(), &Some(number(1)));
    inliner.visit_mut_var_declarator(&"twice".to_string(), &Some(number(2)));
    inliner.visit_mut_var_declarator(&"never".to_string(), &Some(number(3)));
    let mut exprs = vec![ident("once"), ident("twice"), ident("twice")];
    inliner.visit_mut_exprs(&mut exprs);
    assert_eq!(exprs, vec![number(1), number(2), ident("twice")]);
    let mut items = vec![
        declare("once", number(1)),
        statement(ident("once")),
        declare("twice", number(2)),
        declare_only("once"),
        declare("never", number(3)),
        export_names(&["once"]),
    ];
    inliner.visit_mut_module_items(&mut items);
    assert_eq!(
        items,
        vec![
            statement(ident("once")),
            declare("twice", number(2)),
            declare("never", number(3)),
            export_names(&["once"]),
        ]
    );
}

#[test]
fn nothing_is_dropped_before_its_name_is_counted() {
    let mut inliner = Inliner::new();
    inliner.visit_mut_var_declarator(&"a".to_string(), &Some(number(1)));
    let mut items = vec![declare("a", number(1)), declare("b", number(2))];
    inliner.visit_mut_module_items(&mut items);
    assert!(!inliner.inlined());
    assert_eq!(items, vec![declare("a", number(1)), declare("b", number(2))]);
    let mut item = statement(ident("a"));
    inliner.visit_mut_item(&mut item);
    assert_eq!(item, statement(number(1)));
    assert!(inliner.inlined());
    inliner.visit_mut_module_items(&mut items);
    assert_eq!(items, vec![declare("b", number(2))]);
    assert!(inliner.inlined());
}

#[test]
fn pass_starts_from_a_fresh_catalog() {
    let mut inliner = Inliner::new();
    let first = inliner.inline(program(vec![declare("a", number(5)), statement(ident("a"))]));
    assert!(inliner.inlined());
    assert_eq!(first, program(vec![statement(number(5))]));
    let second = inliner.inline(program(vec![statement(ident("a"))]));
    assert!(!inliner.inlined());
    assert_eq!(second, program(vec![statement(ident("a"))]));
    assert_eq!(inliner.catalog().usage_count(&"a".to_string()), None);
}

#[test]
fn copies_are_equal_to_their_source() {
    let module = program(vec![
        declare("a", plus(ident("x"), number(1))),
        export_declare("b", number(2)),
        statement(call(ident("f"), vec![])),
        declare_only("c"),
    ]);
    assert_eq!(module.copy(), module);
    assert_eq!(module.items[0].copy(), module.items[0]);
    assert_eq!(plus(ident("x"), number(1)).copy(), plus(ident("x"), number(1)));
}
