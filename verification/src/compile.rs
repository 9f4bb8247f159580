//! The node compiler and rule assembler: walks each rule's expression tree,
//! synthesizes a name for every sub-expression that needs its own identity,
//! and merges one node definition per name into the registry, first write
//! wins.

use vstd::prelude::*;
use crate::ast::{Expression, Rule, RuleKind};
use crate::registry::{reg_insert, NodeDef, NodeModel, Registry};
use crate::text::{make_role_name, make_slot_name, copy_chars, role_name, slot_name};

verus! {

/// Number of combinators in an expression tree.
pub open spec fn expr_size(e: Expression) -> nat
    decreases e,
{
    match e {
        Expression::Sequence(lhs, rhs) => 1 + expr_size(*lhs) + expr_size(*rhs),
        Expression::Choice(lhs, rhs) => 1 + expr_size(*lhs) + expr_size(*rhs),
        Expression::Optional(inner) => 1 + expr_size(*inner),
        Expression::Repetition(inner) => 1 + expr_size(*inner),
        Expression::PositiveLookahead(inner) => 1 + expr_size(*inner),
        Expression::NegativeLookahead(inner) => 1 + expr_size(*inner),
        Expression::RestoreOnError(inner) => 1 + expr_size(*inner),
        Expression::StackPush(inner) => 1 + expr_size(*inner),
        Expression::Tagged(inner, _) => 1 + expr_size(*inner),
        _ => 1,
    }
}

/// How many slots a maximal right-leaning `Sequence` (or `Choice`) chain
/// starting at `e` contributes to the product (or sum) node built for it.
pub open spec fn chain_len(e: Expression, product: bool) -> nat
    decreases e,
{
    match e {
        Expression::Sequence(_, rhs) => if product {
            1 + chain_len(*rhs, product)
        } else {
            1
        },
        Expression::Choice(_, rhs) => if product {
            1
        } else {
            1 + chain_len(*rhs, product)
        },
        _ => 1,
    }
}

/// Termination rank of `compile_node` at `e`, second lexicographic component.
pub open spec fn node_rank(e: Expression) -> nat {
    match e {
        Expression::Sequence(_, _) => 2,
        Expression::Choice(_, _) => 2,
        _ => 0,
    }
}

/// Termination rank of `compile_chain` at `e`, second lexicographic
/// component: a chain head that belongs to the other chain kind falls through
/// to `compile_node`, which in turn opens a chain of its own kind.
pub open spec fn chain_rank(e: Expression, product: bool) -> nat {
    match e {
        Expression::Sequence(_, _) => if product {
            1
        } else {
            3
        },
        Expression::Choice(_, _) => if product {
            3
        } else {
            1
        },
        _ => 1,
    }
}

pub proof fn lemma_chain_len_le_size(e: Expression, product: bool)
    ensures
        chain_len(e, product) <= expr_size(e),
    decreases e,
{
    match e {
        Expression::Sequence(_, rhs) => lemma_chain_len_le_size(*rhs, product),
        Expression::Choice(_, rhs) => lemma_chain_len_le_size(*rhs, product),
        _ => (),
    }
}

/// The registry after compiling `e` under the candidate name `name`, paired
/// with the name of the node that stands for `e`. Every freshly named nested
/// sub-expression gets an entry of its own; an already present name keeps its
/// first definition.
pub open spec fn compile_node(
    e: Expression,
    name: Seq<char>,
    reg: Map<Seq<char>, NodeModel>,
) -> (Map<Seq<char>, NodeModel>, Seq<char>)
    decreases expr_size(e), node_rank(e),
{
    match e {
        Expression::Literal(s) => (reg_insert(reg, name, NodeModel::LitLeaf(s@)), name),
        Expression::Insensitive(s) => (reg_insert(reg, name, NodeModel::InsensLeaf(s@)), name),
        Expression::CharRange(lo, hi) => (reg_insert(reg, name, NodeModel::RangeLeaf(lo, hi)), name),
        Expression::RuleRef(target) => (reg_insert(reg, name, NodeModel::Alias(target@)), name),
        Expression::Sequence(_, _) => {
            let (reg1, children) = compile_chain(e, name, 0, reg, true);
            (reg_insert(reg1, name, NodeModel::Product(children)), name)
        },
        Expression::Choice(_, _) => {
            let (reg1, children) = compile_chain(e, name, 0, reg, false);
            (reg_insert(reg1, name, NodeModel::Sum(children)), name)
        },
        Expression::Optional(inner) => {
            let (reg1, child) = compile_node(*inner, role_name(name, 'o'), reg);
            (reg_insert(reg1, name, NodeModel::Maybe(child)), name)
        },
        Expression::Repetition(inner) => {
            let (reg1, child) = compile_node(*inner, role_name(name, 'r'), reg);
            (reg_insert(reg1, name, NodeModel::ListOf(child)), name)
        },
        Expression::PositiveLookahead(inner) => {
            let (reg1, child) = compile_node(*inner, role_name(name, 'p'), reg);
            (reg_insert(reg1, name, NodeModel::PosLook(child)), name)
        },
        Expression::NegativeLookahead(inner) => {
            let (reg1, child) = compile_node(*inner, role_name(name, 'n'), reg);
            (reg_insert(reg1, name, NodeModel::NegLook(child)), name)
        },
        Expression::RestoreOnError(inner) => {
            let (reg1, child) = compile_node(*inner, role_name(name, 'e'), reg);
            (reg_insert(reg1, name, NodeModel::Restore(child)), name)
        },
        Expression::StackPush(inner) => {
            let (reg1, child) = compile_node(*inner, role_name(name, 's'), reg);
            (reg_insert(reg1, name, NodeModel::Push(child)), name)
        },
        Expression::StackPeekSlice(i, j) => (
            reg_insert(reg, name, NodeModel::PeekSliceLeaf(i as int, j as int)),
            name,
        ),
        Expression::StackSkip(n) => (reg_insert(reg, name, NodeModel::SkipLeaf(n as int)), name),
        Expression::Tagged(inner, _) => compile_node(*inner, slot_name(name, 0), reg),
    }
}

/// Compiles the slots of a maximal `Sequence` (`product`) or `Choice` chain,
/// the slot at `e`'s head getting index `i`; yields the child node names in
/// slot order.
pub open spec fn compile_chain(
    e: Expression,
    base: Seq<char>,
    i: nat,
    reg: Map<Seq<char>, NodeModel>,
    product: bool,
) -> (Map<Seq<char>, NodeModel>, Seq<Seq<char>>)
    decreases expr_size(e), chain_rank(e, product),
{
    match e {
        Expression::Sequence(lhs, rhs) if product => {
            let (reg1, child) = compile_node(*lhs, slot_name(base, i), reg);
            let (reg2, rest) = compile_chain(*rhs, base, i + 1, reg1, product);
            (reg2, seq![child] + rest)
        },
        Expression::Choice(lhs, rhs) if !product => {
            let (reg1, child) = compile_node(*lhs, slot_name(base, i), reg);
            let (reg2, rest) = compile_chain(*rhs, base, i + 1, reg1, product);
            (reg2, seq![child] + rest)
        },
        _ => {
            let (reg1, child) = compile_node(e, slot_name(base, i), reg);
            (reg1, seq![child])
        },
    }
}

/// Compiles one expression into the registry and returns the name of its
/// node, exactly as the model `compile_node` says.
pub fn compile_node_exec(e: &Expression, name: Vec<char>, reg: &mut Registry) -> (r: Vec<char>)
    requires
        old(reg).wf(),
        expr_size(*e) <= usize::MAX,
    ensures
        final(reg).wf(),
        final(reg)@ == compile_node(*e, name@, old(reg)@).0,
        r@ == compile_node(*e, name@, old(reg)@).1,
    decreases expr_size(*e), node_rank(*e),
{
    match e {
        Expression::Literal(s) => {
            let key = copy_chars(&name);
            reg.insert_if_absent(key, NodeDef::LitLeaf(copy_chars(s)));
            name
        },
        Expression::Insensitive(s) => {
            let key = copy_chars(&name);
            reg.insert_if_absent(key, NodeDef::InsensLeaf(copy_chars(s)));
            name
        },
        Expression::CharRange(lo, hi) => {
            let key = copy_chars(&name);
            reg.insert_if_absent(key, NodeDef::RangeLeaf(*lo, *hi));
            name
        },
        Expression::RuleRef(target) => {
            let key = copy_chars(&name);
            reg.insert_if_absent(key, NodeDef::Alias(copy_chars(target)));
            name
        },
        Expression::Sequence(_, _) => {
            proof {
                lemma_chain_len_le_size(*e, true);
            }
            let children = compile_chain_exec(e, &name, 0, reg, true);
            let key = copy_chars(&name);
            reg.insert_if_absent(key, NodeDef::Product(children));
            name
        },
        Expression::Choice(_, _) => {
            proof {
                lemma_chain_len_le_size(*e, false);
            }
            let children = compile_chain_exec(e, &name, 0, reg, false);
            let key = copy_chars(&name);
            reg.insert_if_absent(key, NodeDef::Sum(children));
            name
        },
        Expression::Optional(inner) => {
            let child = compile_node_exec(inner, make_role_name(&name, 'o'), reg);
            let key = copy_chars(&name);
            reg.insert_if_absent(key, NodeDef::Maybe(child));
            name
        },
        Expression::Repetition(inner) => {
            let child = compile_node_exec(inner, make_role_name(&name, 'r'), reg);
            let key = copy_chars(&name);
            reg.insert_if_absent(key, NodeDef::ListOf(child));
            name
        },
        Expression::PositiveLookahead(inner) => {
            let child = compile_node_exec(inner, make_role_name(&name, 'p'), reg);
            let key = copy_chars(&name);
            reg.insert_if_absent(key, NodeDef::PosLook(child));
            name
        },
        Expression::NegativeLookahead(inner) => {
            let child = compile_node_exec(inner, make_role_name(&name, 'n'), reg);
            let key = copy_chars(&name);
            reg.insert_if_absent(key, NodeDef::NegLook(child));
            name
        },
        Expression::RestoreOnError(inner) => {
            let child = compile_node_exec(inner, make_role_name(&name, 'e'), reg);
            let key = copy_chars(&name);
            reg.insert_if_absent(key, NodeDef::Restore(child));
            name
        },
        Expression::StackPush(inner) => {
            let child = compile_node_exec(inner, make_role_name(&name, 's'), reg);
            let key = copy_chars(&name);
            reg.insert_if_absent(key, NodeDef::Push(child));
            name
        },
        Expression::StackPeekSlice(i, j) => {
            let key = copy_chars(&name);
            reg.insert_if_absent(key, NodeDef::PeekSliceLeaf(*i, *j));
            name
        },
        Expression::StackSkip(n) => {
            let key = copy_chars(&name);
            reg.insert_if_absent(key, NodeDef::SkipLeaf(*n));
            name
        },
        Expression::Tagged(inner, _) => compile_node_exec(inner, make_slot_name(&name, 0), reg),
    }
}

fn compile_chain_exec(
    e: &Expression,
    base: &Vec<char>,
    i: usize,
    reg: &mut Registry,
    product: bool,
) -> (r: Vec<Vec<char>>)
    requires
        old(reg).wf(),
        expr_size(*e) <= usize::MAX,
        i + chain_len(*e, product) <= usize::MAX,
    ensures
        final(reg).wf(),
        final(reg)@ == compile_chain(*e, base@, i as nat, old(reg)@, product).0,
        crate::registry::names_view(r@) == compile_chain(*e, base@, i as nat, old(reg)@, product).1,
    decreases expr_size(*e), chain_rank(*e, product),
{
    match e {
        Expression::Sequence(lhs, rhs) if product => {
            let child = compile_node_exec(lhs, make_slot_name(base, i), reg);
            let mut rest = compile_chain_exec(rhs, base, i + 1, reg, product);
            let mut out: Vec<Vec<char>> = Vec::new();
            out.push(child);
            let ghost head = out@;
            out.append(&mut rest);
            proof {
                let m = compile_chain(*e, base@, i as nat, old(reg)@, product).1;
                assert(crate::registry::names_view(out@) =~= m);
            }
            out
        },
        Expression::Choice(lhs, rhs) if !product => {
            let child = compile_node_exec(lhs, make_slot_name(base, i), reg);
            let mut rest = compile_chain_exec(rhs, base, i + 1, reg, product);
            let mut out: Vec<Vec<char>> = Vec::new();
            out.push(child);
            out.append(&mut rest);
            proof {
                let m = compile_chain(*e, base@, i as nat, old(reg)@, product).1;
                assert(crate::registry::names_view(out@) =~= m);
            }
            out
        },
        _ => {
            let child = compile_node_exec(e, make_slot_name(base, i), reg);
            let mut out: Vec<Vec<char>> = Vec::new();
            out.push(child);
            proof {
                let m = compile_chain(*e, base@, i as nat, old(reg)@, product).1;
                assert(crate::registry::names_view(out@) =~= m);
            }
            out
        },
    }
}

/// The registry after assembling the rules in order: a non-atomic rule's body
/// is expanded under the rule's own name; an atomic rule gets a span leaf
/// over its body, compiled under a derived name.
pub open spec fn assemble_rules(
    rules: Seq<Rule>,
    reg: Map<Seq<char>, NodeModel>,
) -> Map<Seq<char>, NodeModel>
    decreases rules.len(),
{
    if rules.len() == 0 {
        reg
    } else {
        let r0 = rules[0];
        let reg1 = if r0.kind is Atomic {
            let (m, child) = compile_node(r0.body, role_name(r0.name@, 'a'), reg);
            reg_insert(m, r0.name@, NodeModel::SpanLeaf(child))
        } else {
            compile_node(r0.body, r0.name@, reg).0
        };
        assemble_rules(rules.drop_first(), reg1)
    }
}

/// Compiles every rule of the set into one registry, first write wins.
pub fn generate_graph(rules: &Vec<Rule>) -> (r: Registry)
    requires
        forall|k: int| 0 <= k < rules@.len() ==> expr_size(#[trigger] rules@[k].body) <= usize::MAX,
    ensures
        r.wf(),
        r@ == assemble_rules(rules@, Map::<Seq<char>, NodeModel>::empty()),
{
    let mut reg = Registry::new();
    let n = rules.len();
    let mut idx: usize = 0;
    proof {
        assert(rules@.subrange(0, n as int) =~= rules@);
    }
    while idx < n
        invariant
            reg.wf(),
            n == rules@.len(),
            idx <= n,
            forall|k: int|
                0 <= k < rules@.len() ==> expr_size(#[trigger] rules@[k].body) <= usize::MAX,
            assemble_rules(rules@.subrange(idx as int, n as int), reg@) == assemble_rules(
                rules@,
                Map::<Seq<char>, NodeModel>::empty(),
            ),
        decreases n - idx,
    {
        let ghost pending = rules@.subrange(idx as int, n as int);
        let rule = &rules[idx];
        let name = copy_chars(&rule.name);
        match &rule.kind {
            RuleKind::Atomic => {
                let child = compile_node_exec(&rule.body, make_role_name(&name, 'a'), &mut reg);
                reg.insert_if_absent(name, NodeDef::SpanLeaf(child));
            },
            _ => {
                let _ = compile_node_exec(&rule.body, name, &mut reg);
            },
        }
        idx = idx + 1;
        proof {
            assert(pending[0] == rules@[idx - 1]);
            assert(pending.drop_first() =~= rules@.subrange(idx as int, n as int));
        }
    }
    proof {
        assert(rules@.subrange(n as int, n as int) =~= Seq::<Rule>::empty());
    }
    reg
}

} // verus!
