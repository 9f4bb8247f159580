//! The input algebra: rules and the combinator expressions their bodies are
//! built from. Rule sets arrive here already optimized and fully resolved;
//! this crate only compiles them and gives their nodes matching semantics.

use vstd::prelude::*;

verus! {

/// One combinator of a rule body. `Sequence` and `Choice` are right-leaning
/// binary chains; the compiler flattens a maximal chain into one node.
pub enum Expression {
    /// Matches the exact text.
    Literal(Vec<char>),
    /// Matches the text under ASCII case-insensitive comparison.
    Insensitive(Vec<char>),
    /// Matches one character whose codepoint lies in the inclusive range.
    CharRange(char, char),
    /// Delegates to the named rule's own node.
    RuleRef(Vec<char>),
    /// Both parts in order; the second may itself be a further `Sequence`.
    Sequence(Box<Expression>, Box<Expression>),
    /// Ordered alternation; the second may itself be a further `Choice`.
    Choice(Box<Expression>, Box<Expression>),
    /// The inner expression or nothing; never fails.
    Optional(Box<Expression>),
    /// The inner expression zero or more times, greedily; never fails.
    Repetition(Box<Expression>),
    /// Succeeds iff the inner expression matches; consumes nothing.
    PositiveLookahead(Box<Expression>),
    /// Succeeds iff the inner expression fails; consumes nothing.
    NegativeLookahead(Box<Expression>),
    /// Same result as the inner expression, but on failure the backreference
    /// stack is restored to its state on entry.
    RestoreOnError(Box<Expression>),
    /// Matches the inner expression and pushes the matched span onto the
    /// backreference stack.
    StackPush(Box<Expression>),
    /// Matches the concatenated text of stack entries `i..j` (bottom-indexed).
    StackPeekSlice(usize, usize),
    /// Removes the top `n` stack entries; consumes no input.
    StackSkip(usize),
    /// Metadata label; transparent for compilation and matching.
    Tagged(Box<Expression>, Vec<char>),
}

/// How a rule's body is exposed: every kind but `Atomic` is structurally
/// expanded; an `Atomic` rule is collapsed to its matched span.
pub enum RuleKind {
    Normal,
    Silent,
    NonAtomic,
    CompoundAtomic,
    Atomic,
}

/// A named grammar production.
pub struct Rule {
    pub name: Vec<char>,
    pub kind: RuleKind,
    pub body: Expression,
}

impl RuleKind {
    pub open spec fn is_atomic(self) -> bool {
        self is Atomic
    }
}

} // verus!
