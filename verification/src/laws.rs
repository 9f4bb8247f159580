//! The laws of compilation: the compiler only ever adds entries, re-compiling
//! what a registry already holds changes nothing (so compiling a rule set is
//! idempotent), a rule reference compiles to a single alias node with no
//! expansion of its target, and optional and repetition nodes cannot fail
//! short of exhausting the recursion budget.

use vstd::prelude::*;
use crate::ast::{Expression, Rule};
use crate::compile::{assemble_rules, chain_rank, compile_chain, compile_node, expr_size, node_rank};
use crate::matcher::{spec_match, spec_match_list, Outcome, ValueModel};
use crate::registry::{reg_insert, NodeModel};
use crate::text::role_name;

verus! {

/// `a` is contained in `b`: every entry of `a` stands unchanged in `b`.
pub open spec fn reg_le(a: Map<Seq<char>, NodeModel>, b: Map<Seq<char>, NodeModel>) -> bool {
    forall|k: Seq<char>| #[trigger] a.dom().contains(k) ==> b.dom().contains(k) && a[k] == b[k]
}

proof fn lemma_reg_le_trans(
    a: Map<Seq<char>, NodeModel>,
    b: Map<Seq<char>, NodeModel>,
    c: Map<Seq<char>, NodeModel>,
)
    requires
        reg_le(a, b),
        reg_le(b, c),
    ensures
        reg_le(a, c),
{
}

proof fn lemma_reg_insert_le(m: Map<Seq<char>, NodeModel>, name: Seq<char>, def: NodeModel)
    ensures
        reg_le(m, reg_insert(m, name, def)),
        reg_insert(m, name, def).dom().contains(name),
{
}

/// Compilation only ever adds entries: what the registry held before stands
/// unchanged in the registry it yields.
pub proof fn lemma_compile_extends(
    e: Expression,
    name: Seq<char>,
    reg: Map<Seq<char>, NodeModel>,
)
    ensures
        reg_le(reg, compile_node(e, name, reg).0),
    decreases expr_size(e), node_rank(e),
{
    match e {
        Expression::Sequence(_, _) => {
            lemma_chain_extends(e, name, 0, reg, true);
            let reg1 = compile_chain(e, name, 0, reg, true).0;
            lemma_reg_insert_le(reg1, name, compile_node(e, name, reg).0[name]);
            lemma_reg_le_trans(reg, reg1, compile_node(e, name, reg).0);
        },
        Expression::Choice(_, _) => {
            lemma_chain_extends(e, name, 0, reg, false);
            let reg1 = compile_chain(e, name, 0, reg, false).0;
            lemma_reg_insert_le(reg1, name, compile_node(e, name, reg).0[name]);
            lemma_reg_le_trans(reg, reg1, compile_node(e, name, reg).0);
        },
        Expression::Optional(inner) => {
            lemma_compile_extends(*inner, role_name(name, 'o'), reg);
            let reg1 = compile_node(*inner, role_name(name, 'o'), reg).0;
            let child = compile_node(*inner, role_name(name, 'o'), reg).1;
            lemma_reg_insert_le(reg1, name, NodeModel::Maybe(child));
            lemma_reg_le_trans(reg, reg1, reg_insert(reg1, name, NodeModel::Maybe(child)));
        },
        Expression::Repetition(inner) => {
            lemma_compile_extends(*inner, role_name(name, 'r'), reg);
            let reg1 = compile_node(*inner, role_name(name, 'r'), reg).0;
            let child = compile_node(*inner, role_name(name, 'r'), reg).1;
            lemma_reg_insert_le(reg1, name, NodeModel::ListOf(child));
            lemma_reg_le_trans(reg, reg1, reg_insert(reg1, name, NodeModel::ListOf(child)));
        },
        Expression::PositiveLookahead(inner) => {
            lemma_compile_extends(*inner, role_name(name, 'p'), reg);
            let reg1 = compile_node(*inner, role_name(name, 'p'), reg).0;
            let child = compile_node(*inner, role_name(name, 'p'), reg).1;
            lemma_reg_insert_le(reg1, name, NodeModel::PosLook(child));
            lemma_reg_le_trans(reg, reg1, reg_insert(reg1, name, NodeModel::PosLook(child)));
        },
        Expression::NegativeLookahead(inner) => {
            lemma_compile_extends(*inner, role_name(name, 'n'), reg);
            let reg1 = compile_node(*inner, role_name(name, 'n'), reg).0;
            let child = compile_node(*inner, role_name(name, 'n'), reg).1;
            lemma_reg_insert_le(reg1, name, NodeModel::NegLook(child));
            lemma_reg_le_trans(reg, reg1, reg_insert(reg1, name, NodeModel::NegLook(child)));
        },
        Expression::RestoreOnError(inner) => {
            lemma_compile_extends(*inner, role_name(name, 'e'), reg);
            let reg1 = compile_node(*inner, role_name(name, 'e'), reg).0;
            let child = compile_node(*inner, role_name(name, 'e'), reg).1;
            lemma_reg_insert_le(reg1, name, NodeModel::Restore(child));
            lemma_reg_le_trans(reg, reg1, reg_insert(reg1, name, NodeModel::Restore(child)));
        },
        Expression::StackPush(inner) => {
            lemma_compile_extends(*inner, role_name(name, 's'), reg);
            let reg1 = compile_node(*inner, role_name(name, 's'), reg).0;
            let child = compile_node(*inner, role_name(name, 's'), reg).1;
            lemma_reg_insert_le(reg1, name, NodeModel::Push(child));
            lemma_reg_le_trans(reg, reg1, reg_insert(reg1, name, NodeModel::Push(child)));
        },
        Expression::Tagged(inner, _) => {
            lemma_compile_extends(*inner, crate::text::slot_name(name, 0), reg);
        },
        _ => {
            lemma_reg_insert_le(reg, name, compile_node(e, name, reg).0[name]);
            assert(reg_le(reg, compile_node(e, name, reg).0));
        },
    }
}

proof fn lemma_chain_extends(
    e: Expression,
    base: Seq<char>,
    i: nat,
    reg: Map<Seq<char>, NodeModel>,
    product: bool,
)
    ensures
        reg_le(reg, compile_chain(e, base, i, reg, product).0),
    decreases expr_size(e), chain_rank(e, product),
{
    match e {
        Expression::Sequence(lhs, rhs) if product => {
            lemma_compile_extends(*lhs, crate::text::slot_name(base, i), reg);
            let reg1 = compile_node(*lhs, crate::text::slot_name(base, i), reg).0;
            lemma_chain_extends(*rhs, base, i + 1, reg1, product);
            lemma_reg_le_trans(reg, reg1, compile_chain(*rhs, base, i + 1, reg1, product).0);
        },
        Expression::Choice(lhs, rhs) if !product => {
            lemma_compile_extends(*lhs, crate::text::slot_name(base, i), reg);
            let reg1 = compile_node(*lhs, crate::text::slot_name(base, i), reg).0;
            lemma_chain_extends(*rhs, base, i + 1, reg1, product);
            lemma_reg_le_trans(reg, reg1, compile_chain(*rhs, base, i + 1, reg1, product).0);
        },
        _ => {
            lemma_compile_extends(e, crate::text::slot_name(base, i), reg);
        },
    }
}

/// An insert on top of a containing registry still contains what the smaller
/// one held: `reg_insert` keeps or adds the single key `name`.
proof fn lemma_unary_insert_extends(
    reg: Map<Seq<char>, NodeModel>,
    mid: Map<Seq<char>, NodeModel>,
    name: Seq<char>,
    def: NodeModel,
)
    requires
        reg_le(reg, mid),
    ensures
        reg_le(reg, reg_insert(mid, name, def)),
{
    lemma_reg_insert_le(mid, name, def);
    lemma_reg_le_trans(reg, mid, reg_insert(mid, name, def));
}

/// Re-compiling an expression into a registry that already holds everything
/// its first compilation produced changes nothing, and yields the same node
/// name: the first write won.
pub proof fn lemma_compile_stable(
    e: Expression,
    name: Seq<char>,
    reg: Map<Seq<char>, NodeModel>,
    m: Map<Seq<char>, NodeModel>,
)
    requires
        reg_le(compile_node(e, name, reg).0, m),
    ensures
        compile_node(e, name, m).0 == m,
        compile_node(e, name, m).1 == compile_node(e, name, reg).1,
    decreases expr_size(e), node_rank(e),
{
    match e {
        Expression::Sequence(_, _) => {
            let reg1 = compile_chain(e, name, 0, reg, true).0;
            lemma_reg_insert_le(reg1, name, compile_node(e, name, reg).0[name]);
            lemma_reg_le_trans(reg1, compile_node(e, name, reg).0, m);
            lemma_chain_stable(e, name, 0, reg, true, m);
            assert(compile_node(e, name, reg).0.dom().contains(name));
            assert(m.dom().contains(name));
        },
        Expression::Choice(_, _) => {
            let reg1 = compile_chain(e, name, 0, reg, false).0;
            lemma_reg_insert_le(reg1, name, compile_node(e, name, reg).0[name]);
            lemma_reg_le_trans(reg1, compile_node(e, name, reg).0, m);
            lemma_chain_stable(e, name, 0, reg, false, m);
            assert(compile_node(e, name, reg).0.dom().contains(name));
            assert(m.dom().contains(name));
        },
        Expression::Optional(inner) => {
            let reg1 = compile_node(*inner, role_name(name, 'o'), reg).0;
            let child = compile_node(*inner, role_name(name, 'o'), reg).1;
            lemma_reg_insert_le(reg1, name, NodeModel::Maybe(child));
            lemma_reg_le_trans(reg1, reg_insert(reg1, name, NodeModel::Maybe(child)), m);
            lemma_compile_stable(*inner, role_name(name, 'o'), reg, m);
            assert(m.dom().contains(name));
        },
        Expression::Repetition(inner) => {
            let reg1 = compile_node(*inner, role_name(name, 'r'), reg).0;
            let child = compile_node(*inner, role_name(name, 'r'), reg).1;
            lemma_reg_insert_le(reg1, name, NodeModel::ListOf(child));
            lemma_reg_le_trans(reg1, reg_insert(reg1, name, NodeModel::ListOf(child)), m);
            lemma_compile_stable(*inner, role_name(name, 'r'), reg, m);
            assert(m.dom().contains(name));
        },
        Expression::PositiveLookahead(inner) => {
            let reg1 = compile_node(*inner, role_name(name, 'p'), reg).0;
            let child = compile_node(*inner, role_name(name, 'p'), reg).1;
            lemma_reg_insert_le(reg1, name, NodeModel::PosLook(child));
            lemma_reg_le_trans(reg1, reg_insert(reg1, name, NodeModel::PosLook(child)), m);
            lemma_compile_stable(*inner, role_name(name, 'p'), reg, m);
            assert(m.dom().contains(name));
        },
        Expression::NegativeLookahead(inner) => {
            let reg1 = compile_node(*inner, role_name(name, 'n'), reg).0;
            let child = compile_node(*inner, role_name(name, 'n'), reg).1;
            lemma_reg_insert_le(reg1, name, NodeModel::NegLook(child));
            lemma_reg_le_trans(reg1, reg_insert(reg1, name, NodeModel::NegLook(child)), m);
            lemma_compile_stable(*inner, role_name(name, 'n'), reg, m);
            assert(m.dom().contains(name));
        },
        Expression::RestoreOnError(inner) => {
            let reg1 = compile_node(*inner, role_name(name, 'e'), reg).0;
            let child = compile_node(*inner, role_name(name, 'e'), reg).1;
            lemma_reg_insert_le(reg1, name, NodeModel::Restore(child));
            lemma_reg_le_trans(reg1, reg_insert(reg1, name, NodeModel::Restore(child)), m);
            lemma_compile_stable(*inner, role_name(name, 'e'), reg, m);
            assert(m.dom().contains(name));
        },
        Expression::StackPush(inner) => {
            let reg1 = compile_node(*inner, role_name(name, 's'), reg).0;
            let child = compile_node(*inner, role_name(name, 's'), reg).1;
            lemma_reg_insert_le(reg1, name, NodeModel::Push(child));
            lemma_reg_le_trans(reg1, reg_insert(reg1, name, NodeModel::Push(child)), m);
            lemma_compile_stable(*inner, role_name(name, 's'), reg, m);
            assert(m.dom().contains(name));
        },
        Expression::Tagged(inner, _) => {
            lemma_compile_stable(*inner, crate::text::slot_name(name, 0), reg, m);
        },
        _ => {
            assert(compile_node(e, name, reg).0.dom().contains(name));
        },
    }
}

proof fn lemma_chain_stable(
    e: Expression,
    base: Seq<char>,
    i: nat,
    reg: Map<Seq<char>, NodeModel>,
    product: bool,
    m: Map<Seq<char>, NodeModel>,
)
    requires
        reg_le(compile_chain(e, base, i, reg, product).0, m),
    ensures
        compile_chain(e, base, i, m, product).0 == m,
        compile_chain(e, base, i, m, product).1 == compile_chain(e, base, i, reg, product).1,
    decreases expr_size(e), chain_rank(e, product),
{
    match e {
        Expression::Sequence(lhs, rhs) if product => {
            let reg1 = compile_node(*lhs, crate::text::slot_name(base, i), reg).0;
            lemma_chain_extends(*rhs, base, i + 1, reg1, product);
            lemma_reg_le_trans(reg1, compile_chain(*rhs, base, i + 1, reg1, product).0, m);
            lemma_compile_stable(*lhs, crate::text::slot_name(base, i), reg, m);
            lemma_chain_stable(*rhs, base, i + 1, reg1, product, m);
        },
        Expression::Choice(lhs, rhs) if !product => {
            let reg1 = compile_node(*lhs, crate::text::slot_name(base, i), reg).0;
            lemma_chain_extends(*rhs, base, i + 1, reg1, product);
            lemma_reg_le_trans(reg1, compile_chain(*rhs, base, i + 1, reg1, product).0, m);
            lemma_compile_stable(*lhs, crate::text::slot_name(base, i), reg, m);
            lemma_chain_stable(*rhs, base, i + 1, reg1, product, m);
        },
        _ => {
            lemma_compile_stable(e, crate::text::slot_name(base, i), reg, m);
        },
    }
}

/// Assembling only ever adds entries.
pub proof fn lemma_assemble_extends(rules: Seq<Rule>, reg: Map<Seq<char>, NodeModel>)
    ensures
        reg_le(reg, assemble_rules(rules, reg)),
    decreases rules.len(),
{
    if rules.len() == 0 {
    } else {
        let r0 = rules[0];
        if r0.kind is Atomic {
            let (m1, child) = compile_node(r0.body, role_name(r0.name@, 'a'), reg);
            lemma_compile_extends(r0.body, role_name(r0.name@, 'a'), reg);
            lemma_unary_insert_extends(reg, m1, r0.name@, NodeModel::SpanLeaf(child));
            let reg1 = reg_insert(m1, r0.name@, NodeModel::SpanLeaf(child));
            lemma_assemble_extends(rules.drop_first(), reg1);
            lemma_reg_le_trans(reg, reg1, assemble_rules(rules.drop_first(), reg1));
        } else {
            let reg1 = compile_node(r0.body, r0.name@, reg).0;
            lemma_compile_extends(r0.body, r0.name@, reg);
            lemma_assemble_extends(rules.drop_first(), reg1);
            lemma_reg_le_trans(reg, reg1, assemble_rules(rules.drop_first(), reg1));
        }
    }
}

/// Re-assembling a rule set into a registry that already holds everything its
/// first assembly produced changes nothing.
pub proof fn lemma_assemble_stable(
    rules: Seq<Rule>,
    reg: Map<Seq<char>, NodeModel>,
    m: Map<Seq<char>, NodeModel>,
)
    requires
        reg_le(assemble_rules(rules, reg), m),
    ensures
        assemble_rules(rules, m) == m,
    decreases rules.len(),
{
    if rules.len() == 0 {
    } else {
        let r0 = rules[0];
        if r0.kind is Atomic {
            let (m1, child) = compile_node(r0.body, role_name(r0.name@, 'a'), reg);
            let reg1 = reg_insert(m1, r0.name@, NodeModel::SpanLeaf(child));
            lemma_assemble_extends(rules.drop_first(), reg1);
            lemma_reg_insert_le(m1, r0.name@, NodeModel::SpanLeaf(child));
            lemma_reg_le_trans(m1, reg1, assemble_rules(rules.drop_first(), reg1));
            lemma_reg_le_trans(m1, assemble_rules(rules.drop_first(), reg1), m);
            lemma_reg_le_trans(reg1, assemble_rules(rules.drop_first(), reg1), m);
            lemma_compile_stable(r0.body, role_name(r0.name@, 'a'), reg, m);
            assert(m.dom().contains(r0.name@));
            lemma_assemble_stable(rules.drop_first(), reg1, m);
        } else {
            let reg1 = compile_node(r0.body, r0.name@, reg).0;
            lemma_assemble_extends(rules.drop_first(), reg1);
            lemma_reg_le_trans(reg1, assemble_rules(rules.drop_first(), reg1), m);
            lemma_compile_stable(r0.body, r0.name@, reg, m);
            lemma_assemble_stable(rules.drop_first(), reg1, m);
        }
    }
}

/// First-write-wins makes assembly idempotent: compiling the same rule set a
/// second time into the registry the first compilation produced yields that
/// very registry — the same name set with the same shapes, no duplicate and
/// no divergent entry.
pub proof fn lemma_assemble_idempotent(rules: Seq<Rule>, reg: Map<Seq<char>, NodeModel>)
    ensures
        assemble_rules(rules, assemble_rules(rules, reg)) == assemble_rules(rules, reg),
{
    lemma_assemble_stable(rules, reg, assemble_rules(rules, reg));
}

/// A rule reference compiles to a single alias node under the candidate name
/// and nothing else: the referenced rule's body is never re-expanded, which
/// is what lets a directly or mutually recursive rule set compile in finitely
/// many steps.
pub proof fn lemma_ruleref_is_alias(
    target: Vec<char>,
    name: Seq<char>,
    reg: Map<Seq<char>, NodeModel>,
)
    ensures
        compile_node(Expression::RuleRef(target), name, reg).1 == name,
        compile_node(Expression::RuleRef(target), name, reg).0 == reg_insert(
            reg,
            name,
            NodeModel::Alias(target@),
        ),
        compile_node(Expression::RuleRef(target), name, reg).0.dom() =~= reg.dom().insert(name),
{
    if reg.dom().contains(name) {
        assert(reg.dom() =~= reg.dom().insert(name));
    }
}

/// A repetition node never fails short of the recursion budget: the greedy
/// walk swallows the ordinary failure that stops it and succeeds with the
/// values collected, possibly none.
pub proof fn lemma_list_walk_total(
    reg: Map<Seq<char>, NodeModel>,
    inner: Seq<char>,
    input: Seq<char>,
    pos: int,
    stack: Seq<(int, int)>,
    fuel: nat,
    acc: Seq<ValueModel>,
    fbest: int,
)
    ensures
        spec_match_list(reg, inner, input, pos, stack, fuel, acc, fbest).0 matches Outcome::Failed {
            kind,
            ..
        } ==> kind is DepthLimit,
    decreases fuel,
{
    if fuel > 0 {
        let (o, st1) = spec_match(reg, inner, input, pos, stack, (fuel - 1) as nat);
        match o {
            Outcome::Found { next, value, furthest } => {
                lemma_list_walk_total(
                    reg,
                    inner,
                    input,
                    next,
                    st1,
                    (fuel - 1) as nat,
                    acc.push(value),
                    crate::matcher::pos_max(fbest, furthest),
                );
            },
            Outcome::Failed { .. } => {},
        }
    }
}

/// A repetition node itself never fails short of the recursion budget.
pub proof fn lemma_repetition_never_fails(
    reg: Map<Seq<char>, NodeModel>,
    name: Seq<char>,
    input: Seq<char>,
    pos: int,
    stack: Seq<(int, int)>,
    fuel: nat,
)
    requires
        reg.dom().contains(name),
        reg[name] is ListOf,
    ensures
        spec_match(reg, name, input, pos, stack, fuel).0 matches Outcome::Failed { kind, .. }
            ==> kind is DepthLimit,
{
    if fuel > 0 {
        let inner = reg[name]->ListOf_0;
        lemma_list_walk_total(reg, inner, input, pos, stack, fuel, Seq::empty(), pos);
    }
}

/// An optional node never fails short of the recursion budget, and when its
/// child's attempt fails it succeeds as absent with the input position
/// exactly as given: the failed inner attempt consumes nothing observable.
pub proof fn lemma_optional_total(
    reg: Map<Seq<char>, NodeModel>,
    name: Seq<char>,
    input: Seq<char>,
    pos: int,
    stack: Seq<(int, int)>,
    fuel: nat,
)
    requires
        reg.dom().contains(name),
        reg[name] is Maybe,
    ensures
        spec_match(reg, name, input, pos, stack, fuel).0 matches Outcome::Failed { kind, .. }
            ==> kind is DepthLimit,
        ({
            let o = spec_match(reg, name, input, pos, stack, fuel).0;
            o matches Outcome::Found { next, value, .. } ==> (value == ValueModel::Maybe(
                Option::<Box<ValueModel>>::None,
            ) ==> next == pos)
        }),
{
}

/// A lookahead node never consumes input: whatever its child does, a
/// successful lookahead returns the very position it was given.
pub proof fn lemma_lookahead_consumes_nothing(
    reg: Map<Seq<char>, NodeModel>,
    name: Seq<char>,
    input: Seq<char>,
    pos: int,
    stack: Seq<(int, int)>,
    fuel: nat,
)
    requires
        reg.dom().contains(name),
        reg[name] is PosLook || reg[name] is NegLook,
    ensures
        spec_match(reg, name, input, pos, stack, fuel).0 matches Outcome::Found { next, .. }
            ==> next == pos,
{
}

} // verus!
