//! Matching semantics of the generated nodes, end to end: leaves, products,
//! sums, optionals, lists, lookaheads, and the backreference stack.

use node_graph::ast::{Expression, Rule, RuleKind};
use node_graph::compile::generate_graph;
use node_graph::facade::{Parser, TypedParser};
use node_graph::matcher::{FailureKind, MatchOutcome, Value};

fn cs(s: &str) -> Vec<char> {
    s.chars().collect()
}

fn lit(s: &str) -> Expression {
    Expression::Literal(cs(s))
}

fn seq2(a: Expression, b: Expression) -> Expression {
    Expression::Sequence(Box::new(a), Box::new(b))
}

fn alt2(a: Expression, b: Expression) -> Expression {
    Expression::Choice(Box::new(a), Box::new(b))
}

fn rule(name: &str, body: Expression) -> Rule {
    Rule { name: cs(name), kind: RuleKind::Normal, body }
}

fn compile_one(name: &str, body: Expression) -> node_graph::registry::Registry {
    generate_graph(&vec![rule(name, body)])
}

const FUEL: usize = 1000;

fn found(o: MatchOutcome) -> (usize, Value, usize) {
    match o {
        MatchOutcome::Found { next, value, furthest } => (next, value, furthest),
        MatchOutcome::Failed(f) => panic!("expected success, failed with {:?}", f),
    }
}

fn failed(o: MatchOutcome) -> node_graph::matcher::ParseFailure {
    match o {
        MatchOutcome::Found { next, .. } => panic!("expected failure, matched up to {}", next),
        MatchOutcome::Failed(f) => f,
    }
}

#[test]
fn literal_match_consumes_its_length() {
    let reg = compile_one("lit", lit("foo"));
    let (next, value, _) = found(reg.try_construct(&cs("lit"), &cs("foobar"), FUEL));
    assert_eq!(next, 3); // remainder is "bar"
    assert_eq!(value, Value::Span { lo: 0, hi: 3 });
}

#[test]
fn literal_mismatch_reports_position() {
    let reg = compile_one("lit", lit("foo"));
    let f = failed(reg.try_construct(&cs("lit"), &cs("bar"), FUEL));
    assert_eq!(f.kind, FailureKind::LiteralMismatch);
    assert_eq!(f.at, 0);
}

#[test]
fn char_range_accepts_in_range() {
    let reg = compile_one("low", Expression::CharRange('a', 'z'));
    let (next, value, _) = found(reg.try_construct(&cs("low"), &cs("bob"), FUEL));
    assert_eq!(next, 1); // remainder is "ob"
    assert_eq!(value, Value::Single { c: 'b', lo: 0, hi: 1 });
}

#[test]
fn char_range_rejects_out_of_range() {
    let reg = compile_one("low", Expression::CharRange('a', 'z'));
    let f = failed(reg.try_construct(&cs("low"), &cs("Bob"), FUEL));
    assert_eq!(f.kind, FailureKind::CharOutOfRange);
    assert_eq!(f.at, 0);
}

#[test]
fn sequence_matches_fields_in_order() {
    let name_body = Expression::Repetition(Box::new(Expression::CharRange('a', 'z')));
    let greeting = seq2(lit("hi"), seq2(lit(" "), Expression::RuleRef(cs("name"))));
    let rules = vec![rule("greeting", greeting), rule("name", name_body)];
    let reg = generate_graph(&rules);
    let (next, value, _) = found(reg.try_construct(&cs("greeting"), &cs("hi bob"), FUEL));
    assert_eq!(next, 6); // remainder is ""
    match value {
        Value::Record(fields) => {
            assert_eq!(fields.len(), 3);
            assert_eq!(fields[0], Value::Span { lo: 0, hi: 2 }); // "hi"
            assert_eq!(fields[1], Value::Span { lo: 2, hi: 3 }); // " "
            match &fields[2] {
                Value::Many(items) => assert_eq!(items.len(), 3), // "bob"
                v => panic!("expected a list for the name field, got {:?}", v),
            }
        },
        v => panic!("expected a record, got {:?}", v),
    }
}

#[test]
fn sequence_failure_aborts_whole_product() {
    let reg = compile_one("pair", seq2(lit("a"), lit("b")));
    let f = failed(reg.try_construct(&cs("pair"), &cs("ax"), FUEL));
    assert_eq!(f.kind, FailureKind::LiteralMismatch);
    assert_eq!(f.at, 1);
}

#[test]
fn choice_takes_first_success_by_index() {
    let reg = compile_one("boolean", alt2(lit("true"), lit("false")));
    // "true" is tried first and fails; "false" succeeds: variant index 1.
    let (next, value, _) = found(reg.try_construct(&cs("boolean"), &cs("false"), FUEL));
    assert_eq!(next, 5);
    match value {
        Value::Variant { index, inner } => {
            assert_eq!(index, 1);
            assert_eq!(*inner, Value::Span { lo: 0, hi: 5 });
        },
        v => panic!("expected a variant, got {:?}", v),
    }
    let (_, value0, _) = found(reg.try_construct(&cs("boolean"), &cs("true"), FUEL));
    match value0 {
        Value::Variant { index, .. } => assert_eq!(index, 0),
        v => panic!("expected a variant, got {:?}", v),
    }
}

#[test]
fn choice_exhausted_is_recoverable_failure() {
    let reg = compile_one("boolean", alt2(lit("true"), lit("false")));
    let f = failed(reg.try_construct(&cs("boolean"), &cs("maybe"), FUEL));
    assert_eq!(f.kind, FailureKind::AllAlternativesExhausted);
    assert_eq!(f.at, 0);
}

#[test]
fn choice_failure_carries_furthest_position() {
    // The first branch gets one character further than the second.
    let reg = compile_one("pick", alt2(seq2(lit("a"), lit("b")), lit("c")));
    let f = failed(reg.try_construct(&cs("pick"), &cs("ax"), FUEL));
    assert_eq!(f.kind, FailureKind::AllAlternativesExhausted);
    assert_eq!(f.at, 0);
    assert_eq!(f.furthest, 1);
}

#[test]
fn optional_absent_leaves_input_unchanged() {
    let reg = compile_one("bang", Expression::Optional(Box::new(lit("!"))));
    let (next, value, _) = found(reg.try_construct(&cs("bang"), &cs("ok"), FUEL));
    assert_eq!(next, 0); // remainder unchanged: "ok"
    assert_eq!(value, Value::Maybe(None));
}

#[test]
fn optional_present_wraps_inner_value() {
    let reg = compile_one("bang", Expression::Optional(Box::new(lit("!"))));
    let (next, value, _) = found(reg.try_construct(&cs("bang"), &cs("!ok"), FUEL));
    assert_eq!(next, 1);
    assert_eq!(value, Value::Maybe(Some(Box::new(Value::Span { lo: 0, hi: 1 }))));
}

#[test]
fn repetition_collects_greedily_then_stops() {
    let reg = compile_one("digits", Expression::Repetition(Box::new(Expression::CharRange('0', '9'))));
    let (next, value, _) = found(reg.try_construct(&cs("digits"), &cs("123abc"), FUEL));
    assert_eq!(next, 3); // remainder is "abc"
    match value {
        Value::Many(items) => {
            assert_eq!(items.len(), 3);
            assert_eq!(items[0], Value::Single { c: '1', lo: 0, hi: 1 });
            assert_eq!(items[1], Value::Single { c: '2', lo: 1, hi: 2 });
            assert_eq!(items[2], Value::Single { c: '3', lo: 2, hi: 3 });
        },
        v => panic!("expected a list, got {:?}", v),
    }
}

#[test]
fn repetition_never_fails_on_no_match() {
    let reg = compile_one("digits", Expression::Repetition(Box::new(Expression::CharRange('0', '9'))));
    let (next, value, _) = found(reg.try_construct(&cs("digits"), &cs("abc"), FUEL));
    assert_eq!(next, 0); // remainder unchanged: "abc"
    assert_eq!(value, Value::Many(vec![]));
}

#[test]
fn case_insensitive_literal_folds_ascii() {
    let reg = compile_one("word", Expression::Insensitive(cs("AbC")));
    let (next, value, _) = found(reg.try_construct(&cs("word"), &cs("aBcd"), FUEL));
    assert_eq!(next, 3);
    assert_eq!(value, Value::Span { lo: 0, hi: 3 });
    let f = failed(reg.try_construct(&cs("word"), &cs("abd"), FUEL));
    assert_eq!(f.kind, FailureKind::LiteralMismatch);
}

#[test]
fn positive_lookahead_consumes_nothing() {
    let reg = compile_one(
        "peeked",
        seq2(Expression::PositiveLookahead(Box::new(lit("ab"))), lit("a")),
    );
    let (next, _, _) = found(reg.try_construct(&cs("peeked"), &cs("abc"), FUEL));
    assert_eq!(next, 1);
}

#[test]
fn negative_lookahead_succeeds_on_inner_failure() {
    let reg = compile_one(
        "guarded",
        seq2(Expression::NegativeLookahead(Box::new(lit("x"))), lit("a")),
    );
    let (next, _, _) = found(reg.try_construct(&cs("guarded"), &cs("ab"), FUEL));
    assert_eq!(next, 1);
    let f = failed(reg.try_construct(&cs("guarded"), &cs("xa"), FUEL));
    assert_eq!(f.kind, FailureKind::LookaheadFailed);
    assert_eq!(f.at, 0);
}

#[test]
fn unknown_rule_reference_is_reported() {
    let reg = compile_one("top", Expression::RuleRef(cs("missing")));
    let f = failed(reg.try_construct(&cs("top"), &cs("abc"), FUEL));
    assert_eq!(f.kind, FailureKind::UnknownRule);
}

#[test]
fn fuel_exhaustion_is_an_explicit_failure() {
    let reg = compile_one("lit", lit("foo"));
    let f = failed(reg.try_construct(&cs("lit"), &cs("foo"), 0));
    assert_eq!(f.kind, FailureKind::DepthLimit);
}

#[test]
fn furthest_position_survives_a_swallowed_backtrack() {
    // The optional's inner attempt reaches position 2 before failing; the
    // optional swallows that failure, and the product then fails at 0. The
    // reported failure still carries the furthest position any attempt
    // reached.
    let inner = seq2(lit("ab"), lit("c"));
    let body = seq2(Expression::Optional(Box::new(inner)), lit("x"));
    let reg = compile_one("probe", body);
    let f = failed(reg.try_construct(&cs("probe"), &cs("abz"), FUEL));
    assert_eq!(f.kind, FailureKind::LiteralMismatch);
    assert_eq!(f.at, 0);
    assert_eq!(f.furthest, 2);
}

#[test]
fn stack_push_and_peek_match_echoed_text() {
    // letters "-" letters, where the second run must echo the first.
    let letters = Expression::Repetition(Box::new(Expression::CharRange('a', 'z')));
    let body = seq2(
        Expression::StackPush(Box::new(letters)),
        seq2(lit("-"), Expression::StackPeekSlice(0, 1)),
    );
    let reg = compile_one("echo", body);
    let (next, _, _) = found(reg.try_construct(&cs("echo"), &cs("ab-ab"), FUEL));
    assert_eq!(next, 5);
    let f = failed(reg.try_construct(&cs("echo"), &cs("ab-cd"), FUEL));
    assert_eq!(f.kind, FailureKind::LiteralMismatch);
    assert_eq!(f.at, 3);
}

#[test]
fn stack_skip_underflow_is_reported() {
    let reg = compile_one("drop1", Expression::StackSkip(1));
    let f = failed(reg.try_construct(&cs("drop1"), &cs(""), FUEL));
    assert_eq!(f.kind, FailureKind::StackUnderflow);
}

#[test]
fn recursive_rule_matches_nested_input() {
    // list = "(" ~ list? ~ ")"
    let body = seq2(
        lit("("),
        seq2(Expression::Optional(Box::new(Expression::RuleRef(cs("list")))), lit(")")),
    );
    let reg = generate_graph(&vec![rule("list", body)]);
    let (next, _, _) = found(reg.try_construct(&cs("list"), &cs("(())"), FUEL));
    assert_eq!(next, 4);
    let f = failed(reg.try_construct(&cs("list"), &cs("(()"), FUEL));
    assert_eq!(f.kind, FailureKind::LiteralMismatch);
}

#[test]
fn atomic_rule_exposes_only_the_span() {
    let body = seq2(lit("a"), lit("b"));
    let rules = vec![Rule { name: cs("word"), kind: RuleKind::Atomic, body }];
    let reg = generate_graph(&rules);
    let (next, value, _) = found(reg.try_construct(&cs("word"), &cs("abc"), FUEL));
    assert_eq!(next, 2);
    assert_eq!(value, Value::Span { lo: 0, hi: 2 });
}

#[test]
fn full_input_variant_rejects_remainder() {
    let reg = compile_one("lit", lit("foo"));
    let (next, _, _) = found(reg.try_construct_full(&cs("lit"), &cs("foo"), FUEL));
    assert_eq!(next, 3);
    let f = failed(reg.try_construct_full(&cs("lit"), &cs("foobar"), FUEL));
    assert_eq!(f.kind, FailureKind::TrailingInput);
    assert_eq!(f.at, 3);
}

#[test]
fn parser_traits_forward_to_the_registry() {
    let reg = compile_one("lit", lit("foo"));
    let attempt = Parser::parse(&reg, &cs("lit"), &cs("foobar"), FUEL);
    assert!(attempt.is_found());
    let (next, _, _) = found(attempt);
    assert_eq!(next, 3);
    let f = failed(TypedParser::parse(&reg, &cs("lit"), &cs("foobar"), FUEL));
    assert_eq!(f.kind, FailureKind::TrailingInput);
}

#[test]
fn restore_on_error_unwinds_stack_writes() {
    // Either push-"a" then demand "x" (fails after the push, unwound), or
    // match "a" and then an echo of whatever the stack still holds: the
    // peek must underflow, showing the failed branch left no stack entry.
    let branch0 = Expression::RestoreOnError(Box::new(seq2(
        Expression::StackPush(Box::new(lit("a"))),
        lit("x"),
    )));
    let branch1 = seq2(lit("a"), Expression::StackSkip(1));
    let reg = compile_one("either", alt2(branch0, branch1));
    let f = failed(reg.try_construct(&cs("either"), &cs("ab"), FUEL));
    assert_eq!(f.kind, FailureKind::AllAlternativesExhausted);
}

#[test]
fn tagged_expression_is_transparent() {
    // The label is metadata only: the node is the inner expression's own,
    // under the derived slot name, with the inner shape and behaviour.
    let reg = compile_one("labeled", Expression::Tagged(Box::new(lit("hi")), cs("greet")));
    let (next, value, _) = found(reg.try_construct(&cs("labeled_0"), &cs("hi"), FUEL));
    assert_eq!(next, 2);
    assert_eq!(value, Value::Span { lo: 0, hi: 2 });
}

#[test]
fn stack_writes_survive_a_failed_branch_without_restore() {
    // As in the restore test, but the failing first branch is not wrapped:
    // its push stays on the stack, so the second branch's skip succeeds.
    let branch0 = seq2(Expression::StackPush(Box::new(lit("a"))), lit("x"));
    let branch1 = seq2(lit("a"), Expression::StackSkip(1));
    let reg = compile_one("either", alt2(branch0, branch1));
    let (next, _, _) = found(reg.try_construct(&cs("either"), &cs("ab"), FUEL));
    assert_eq!(next, 1);
}
