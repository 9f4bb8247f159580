//! Compilation of rule sets into the registry: name synthesis, first-write
//! wins, idempotence, termination on recursive rules, and the reserved
//! built-in namespace.

use node_graph::ast::{Expression, Rule, RuleKind};
use node_graph::compile::generate_graph;
use node_graph::facade::{generate_typed_pair_from_rule, AssembleError};
use node_graph::facade::Parser;
use node_graph::matcher::{FailureKind, MatchOutcome};
use node_graph::registry::{NodeDef, Registry};

fn chars_of(s: &str) -> Vec<char> {
    s.chars().collect()
}

fn text_of(cs: &[char]) -> String {
    cs.iter().collect()
}

fn normal(name: &str, body: Expression) -> Rule {
    Rule { name: chars_of(name), kind: RuleKind::Normal, body }
}

fn lit2(s: &str) -> Expression {
    Expression::Literal(chars_of(s))
}

#[test]
fn sequence_slots_get_indexed_names() {
    let body = Expression::Sequence(
        Box::new(lit2("a")),
        Box::new(Expression::Sequence(Box::new(lit2("b")), Box::new(lit2("c")))),
    );
    let reg = generate_graph(&vec![normal("r", body)]);
    let names: Vec<String> = reg.names().iter().map(|n| text_of(n)).collect();
    assert!(names.contains(&"r".to_string()));
    assert!(names.contains(&"r_0".to_string()));
    assert!(names.contains(&"r_1".to_string()));
    assert!(names.contains(&"r_2".to_string()));
    assert_eq!(reg.len(), 4);
    match reg.get(&chars_of("r")) {
        Some(NodeDef::Product(children)) => {
            let fields: Vec<String> = children.iter().map(|n| text_of(n)).collect();
            assert_eq!(fields, vec!["r_0", "r_1", "r_2"]);
        },
        other => panic!("expected a product node, got {:?}", other),
    }
}

#[test]
fn one_child_combinators_get_role_names() {
    let body = Expression::Optional(Box::new(Expression::Repetition(Box::new(lit2("x")))));
    let reg = generate_graph(&vec![normal("r", body)]);
    assert!(matches!(reg.get(&chars_of("r")), Some(NodeDef::Maybe(_))));
    assert!(matches!(reg.get(&chars_of("r_o")), Some(NodeDef::ListOf(_))));
    assert!(matches!(reg.get(&chars_of("r_o_r")), Some(NodeDef::LitLeaf(_))));
}

#[test]
fn rule_reference_compiles_to_an_alias() {
    let rules = vec![
        normal("top", Expression::RuleRef(chars_of("base"))),
        normal("base", lit2("x")),
    ];
    let reg = generate_graph(&rules);
    match reg.get(&chars_of("top")) {
        Some(NodeDef::Alias(target)) => assert_eq!(text_of(target), "base"),
        other => panic!("expected an alias node, got {:?}", other),
    }
}

#[test]
fn recursive_rule_compiles_in_finite_steps() {
    // list = "(" ~ list? ~ ")": the self-reference becomes an alias, so the
    // compiler terminates with one product, one optional and one alias.
    let body = Expression::Sequence(
        Box::new(lit2("(")),
        Box::new(Expression::Sequence(
            Box::new(Expression::Optional(Box::new(Expression::RuleRef(chars_of("list"))))),
            Box::new(lit2(")")),
        )),
    );
    let reg = generate_graph(&vec![normal("list", body)]);
    assert!(matches!(reg.get(&chars_of("list")), Some(NodeDef::Product(_))));
    assert!(matches!(reg.get(&chars_of("list_1")), Some(NodeDef::Maybe(_))));
    match reg.get(&chars_of("list_1_o")) {
        Some(NodeDef::Alias(target)) => assert_eq!(text_of(target), "list"),
        other => panic!("expected an alias node, got {:?}", other),
    }
}

#[test]
fn compiling_twice_yields_identical_registries() {
    let rules = vec![
        normal(
            "list",
            Expression::Sequence(
                Box::new(lit2("(")),
                Box::new(Expression::Sequence(
                    Box::new(Expression::Optional(Box::new(Expression::RuleRef(chars_of(
                        "list",
                    ))))),
                    Box::new(lit2(")")),
                )),
            ),
        ),
        normal("word", Expression::Insensitive(chars_of("hi"))),
    ];
    let first = generate_graph(&rules);
    let second = generate_graph(&rules);
    assert_eq!(first, second);
    let names1: Vec<String> = first.names().iter().map(|n| text_of(n)).collect();
    let names2: Vec<String> = second.names().iter().map(|n| text_of(n)).collect();
    assert_eq!(names1, names2);
}

#[test]
fn first_write_wins_on_colliding_names() {
    // Two rules of the same name: the first definition stays.
    let rules = vec![normal("r", lit2("a")), normal("r", Expression::CharRange('0', '9'))];
    let reg = generate_graph(&rules);
    assert_eq!(reg.len(), 1);
    match reg.get(&chars_of("r")) {
        Some(NodeDef::LitLeaf(s)) => assert_eq!(text_of(s), "a"),
        other => panic!("expected the first literal to stand, got {:?}", other),
    }
}

#[test]
fn atomic_rule_gets_a_span_leaf_over_its_body() {
    let rules = vec![Rule {
        name: chars_of("word"),
        kind: RuleKind::Atomic,
        body: lit2("ab"),
    }];
    let reg = generate_graph(&rules);
    match reg.get(&chars_of("word")) {
        Some(NodeDef::SpanLeaf(child)) => assert_eq!(text_of(child), "word_a"),
        other => panic!("expected a span leaf, got {:?}", other),
    }
    assert!(matches!(reg.get(&chars_of("word_a")), Some(NodeDef::LitLeaf(_))));
}

#[test]
fn silent_and_compound_atomic_rules_expand_structurally() {
    let body = Expression::Sequence(Box::new(lit2("a")), Box::new(lit2("b")));
    let rules = vec![
        Rule { name: chars_of("quiet"), kind: RuleKind::Silent, body: body },
        Rule {
            name: chars_of("tight"),
            kind: RuleKind::CompoundAtomic,
            body: Expression::Sequence(Box::new(lit2("c")), Box::new(lit2("d"))),
        },
    ];
    let reg = generate_graph(&rules);
    assert!(matches!(reg.get(&chars_of("quiet")), Some(NodeDef::Product(_))));
    assert!(matches!(reg.get(&chars_of("tight")), Some(NodeDef::Product(_))));
}

#[test]
fn parser_traits_guard_against_duplicate_names() {
    let dup = Registry {
        entries: vec![
            (chars_of("r"), NodeDef::LitLeaf(chars_of("a"))),
            (chars_of("r"), NodeDef::LitLeaf(chars_of("b"))),
        ],
    };
    match Parser::parse(&dup, &chars_of("r"), &chars_of("a"), 10) {
        MatchOutcome::Failed(f) => assert_eq!(f.kind, FailureKind::UnknownRule),
        MatchOutcome::Found { .. } => panic!("a malformed registry must be refused"),
    }
}

#[test]
fn reserved_builtin_names_are_refused() {
    let rules = vec![normal("ANY", lit2("x"))];
    match generate_typed_pair_from_rule(&rules) {
        Err(AssembleError::ReservedName(n)) => assert_eq!(text_of(&n), "ANY"),
        Ok(_) => panic!("a rule named after a built-in must be refused"),
    }
}

#[test]
fn clear_namespace_assembles_successfully() {
    let rules = vec![normal("word", lit2("x")), normal("pair", lit2("y"))];
    match generate_typed_pair_from_rule(&rules) {
        Ok(reg) => {
            assert!(reg.get(&chars_of("word")).is_some());
            assert!(reg.get(&chars_of("pair")).is_some());
        },
        Err(e) => panic!("expected a clean assembly, got {:?}", e),
    }
}
