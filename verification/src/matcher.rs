//! The matching contract every generated node satisfies: given the remaining
//! input window (a position into the source) and the shared backreference
//! stack, attempt construction. Success yields the next position and a value
//! of the node's shape; failure yields a structured diagnostic carrying the
//! furthest position any attempt reached, and the caller can retry exactly as
//! if the failed attempt never happened.

use vstd::prelude::*;
use crate::registry::NodeModel;
use crate::text::fold_code;

verus! {

broadcast use vstd::std_specs::vec::group_vec_axioms, vstd::seq::group_seq_axioms;

/// Why a match attempt failed. The first five are ordinary, recoverable
/// control data; `DepthLimit` means the recursion budget ran out and is
/// propagated through every combinator; `TrailingInput` only arises from the
/// full-input entry point.
#[derive(Debug, Clone, Copy, PartialEq, Eq, Structural)]
pub enum FailureKind {
    LiteralMismatch,
    CharOutOfRange,
    UnknownRule,
    AllAlternativesExhausted,
    LookaheadFailed,
    StackUnderflow,
    DepthLimit,
    TrailingInput,
}

/// A structured match failure: where this failure happened, why, and the
/// furthest position any attempt reached on the way to it.
#[derive(Debug, Clone, Copy, PartialEq, Eq)]
pub struct ParseFailure {
    pub at: usize,
    pub kind: FailureKind,
    pub furthest: usize,
}

/// A matched value, of the shape the matched node declares.
#[derive(Debug, PartialEq, Eq)]
pub enum Value {
    /// A span of the source, as half-open positions.
    Span { lo: usize, hi: usize },
    /// One character and its span.
    Single { c: char, lo: usize, hi: usize },
    /// One value per field of a product node, in declared order.
    Record(Vec<Value>),
    /// The first succeeding alternative of a sum node, tagged by its index.
    Variant { index: usize, inner: Box<Value> },
    /// The inner value if the optional child matched.
    Maybe(Option<Box<Value>>),
    /// The greedily collected values of a list node.
    Many(Vec<Value>),
    /// The unit value of a zero-width assertion.
    Blank,
}

/// The mathematical value of a `Value`.
pub ghost enum ValueModel {
    Span { lo: int, hi: int },
    Single { c: char, lo: int, hi: int },
    Record(Seq<ValueModel>),
    Variant { index: int, inner: Box<ValueModel> },
    Maybe(Option<Box<ValueModel>>),
    Many(Seq<ValueModel>),
    Blank,
}

impl Value {
    pub open spec fn model(self) -> ValueModel
        decreases self, 1nat,
    {
        match self {
            Value::Span { lo, hi } => ValueModel::Span { lo: lo as int, hi: hi as int },
            Value::Single { c, lo, hi } => ValueModel::Single {
                c,
                lo: lo as int,
                hi: hi as int,
            },
            Value::Record(vs) => ValueModel::Record(models_of(vs@)),
            Value::Variant { index, inner } => ValueModel::Variant {
                index: index as int,
                inner: Box::new(inner.model()),
            },
            Value::Maybe(o) => match o {
                Option::Some(b) => ValueModel::Maybe(Option::Some(Box::new(b.model()))),
                Option::None => ValueModel::Maybe(Option::None),
            },
            Value::Many(vs) => ValueModel::Many(models_of(vs@)),
            Value::Blank => ValueModel::Blank,
        }
    }
}

/// The models of a list of values, in order.
pub open spec fn models_of(vs: Seq<Value>) -> Seq<ValueModel>
    decreases vs, 0nat,
{
    if vs.len() == 0 {
        Seq::empty()
    } else {
        models_of(vs.drop_last()).push(vs.last().model())
    }
}

/// The result of one match attempt.
#[derive(Debug, PartialEq, Eq)]
pub enum MatchOutcome {
    Found { next: usize, value: Value, furthest: usize },
    Failed(ParseFailure),
}

/// The mathematical value of a `MatchOutcome`.
pub ghost enum Outcome {
    Found { next: int, value: ValueModel, furthest: int },
    Failed { at: int, kind: FailureKind, furthest: int },
}

impl MatchOutcome {
    pub open spec fn model(self) -> Outcome {
        match self {
            MatchOutcome::Found { next, value, furthest } => Outcome::Found {
                next: next as int,
                value: value.model(),
                furthest: furthest as int,
            },
            MatchOutcome::Failed(f) => Outcome::Failed {
                at: f.at as int,
                kind: f.kind,
                furthest: f.furthest as int,
            },
        }
    }

    /// Whether the attempt succeeded.
    pub fn is_found(&self) -> (r: bool)
        ensures
            r == (self.model() is Found),
    {
        match self {
            MatchOutcome::Found { .. } => true,
            MatchOutcome::Failed(_) => false,
        }
    }
}

/// The mathematical value of a backreference stack: spans of the source that
/// earlier `StackPush` nodes matched, bottom first.
pub open spec fn stack_view(s: Seq<(usize, usize)>) -> Seq<(int, int)> {
    Seq::new(s.len(), |i: int| (s[i].0 as int, s[i].1 as int))
}

/// Every stack entry is a well-formed span of an input of length `len`.
pub open spec fn stack_wf(s: Seq<(int, int)>, len: int) -> bool {
    forall|i: int| 0 <= i < s.len() ==> 0 <= (#[trigger] s[i]).0 <= s[i].1 <= len
}

/// Text matched case-insensitively (ASCII folding), position by position.
pub open spec fn insens_eq(a: Seq<char>, b: Seq<char>) -> bool {
    a.len() == b.len() && forall|k: int|
        0 <= k < a.len() ==> fold_code(#[trigger] a[k] as u32) == fold_code(b[k] as u32)
}

/// The concatenated text of the stack entries `i..j`, bottom-indexed.
pub open spec fn peek_text(input: Seq<char>, stack: Seq<(int, int)>, i: int, j: int) -> Seq<char>
    decreases j - i,
{
    if i >= j {
        Seq::empty()
    } else {
        input.subrange(stack[i].0, stack[i].1) + peek_text(input, stack, i + 1, j)
    }
}

/// Matching a literal leaf: success iff the input at `pos` starts with the
/// text; consumes exactly its length.
pub open spec fn lit_outcome(input: Seq<char>, pos: int, s: Seq<char>) -> Outcome {
    if pos + s.len() <= input.len() && input.subrange(pos, pos + s.len()) == s {
        Outcome::Found {
            next: pos + s.len(),
            value: ValueModel::Span { lo: pos, hi: pos + s.len() },
            furthest: pos,
        }
    } else {
        Outcome::Failed { at: pos, kind: FailureKind::LiteralMismatch, furthest: pos }
    }
}

/// Matching a case-insensitive leaf: as `lit_outcome`, under ASCII folding.
pub open spec fn insens_outcome(input: Seq<char>, pos: int, s: Seq<char>) -> Outcome {
    if pos + s.len() <= input.len() && insens_eq(input.subrange(pos, pos + s.len()), s) {
        Outcome::Found {
            next: pos + s.len(),
            value: ValueModel::Span { lo: pos, hi: pos + s.len() },
            furthest: pos,
        }
    } else {
        Outcome::Failed { at: pos, kind: FailureKind::LiteralMismatch, furthest: pos }
    }
}

/// Matching a character-range leaf: reads one character; success iff its
/// codepoint lies in the inclusive range.
pub open spec fn range_outcome(input: Seq<char>, pos: int, lo: char, hi: char) -> Outcome {
    if pos < input.len() && lo as u32 <= input[pos] as u32 && input[pos] as u32 <= hi as u32 {
        Outcome::Found {
            next: pos + 1,
            value: ValueModel::Single { c: input[pos], lo: pos, hi: pos + 1 },
            furthest: pos,
        }
    } else {
        Outcome::Failed { at: pos, kind: FailureKind::CharOutOfRange, furthest: pos }
    }
}

/// The greater of two positions.
pub open spec fn pos_max(a: int, b: int) -> int {
    if a >= b {
        a
    } else {
        b
    }
}

/// What matching the node `name` against `input` at `pos` yields, together
/// with the backreference stack it leaves behind. `fuel` bounds the recursion
/// depth; when it runs out the attempt fails with `DepthLimit`, which no
/// combinator swallows. On ordinary failure the input position is untouched
/// from the caller's view (the failed attempt returns no position at all);
/// the stack is left as the attempt left it, except where a node restores it.
pub open spec fn spec_match(
    reg: Map<Seq<char>, NodeModel>,
    name: Seq<char>,
    input: Seq<char>,
    pos: int,
    stack: Seq<(int, int)>,
    fuel: nat,
) -> (Outcome, Seq<(int, int)>)
    decreases fuel, 3nat, 0nat,
{
    if fuel == 0 {
        (Outcome::Failed { at: pos, kind: FailureKind::DepthLimit, furthest: pos }, stack)
    } else if !reg.dom().contains(name) {
        (Outcome::Failed { at: pos, kind: FailureKind::UnknownRule, furthest: pos }, stack)
    } else {
        let f1 = (fuel - 1) as nat;
        match reg[name] {
            NodeModel::LitLeaf(s) => (lit_outcome(input, pos, s), stack),
            NodeModel::InsensLeaf(s) => (insens_outcome(input, pos, s), stack),
            NodeModel::RangeLeaf(lo, hi) => (range_outcome(input, pos, lo, hi), stack),
            NodeModel::Alias(target) => spec_match(reg, target, input, pos, stack, f1),
            NodeModel::Product(children) => spec_match_fields(
                reg,
                children,
                0,
                input,
                pos,
                stack,
                fuel,
                Seq::empty(),
                pos,
            ),
            NodeModel::Sum(children) => spec_match_alts(
                reg,
                children,
                0,
                input,
                pos,
                stack,
                fuel,
                pos,
            ),
            NodeModel::Maybe(inner) => {
                let (o, st1) = spec_match(reg, inner, input, pos, stack, f1);
                match o {
                    Outcome::Found { next, value, furthest } => (
                        Outcome::Found {
                            next,
                            value: ValueModel::Maybe(Option::Some(Box::new(value))),
                            furthest,
                        },
                        st1,
                    ),
                    Outcome::Failed { at, kind, furthest } => {
                        if kind is DepthLimit {
                            (Outcome::Failed { at, kind, furthest }, st1)
                        } else {
                            (
                                Outcome::Found {
                                    next: pos,
                                    value: ValueModel::Maybe(Option::None),
                                    furthest,
                                },
                                st1,
                            )
                        }
                    },
                }
            },
            NodeModel::ListOf(inner) => spec_match_list(
                reg,
                inner,
                input,
                pos,
                stack,
                fuel,
                Seq::empty(),
                pos,
            ),
            NodeModel::PosLook(inner) => {
                let (o, st1) = spec_match(reg, inner, input, pos, stack, f1);
                match o {
                    Outcome::Found { next, value, furthest } => (
                        Outcome::Found { next: pos, value: ValueModel::Blank, furthest },
                        stack,
                    ),
                    Outcome::Failed { at, kind, furthest } => {
                        if kind is DepthLimit {
                            (Outcome::Failed { at, kind, furthest }, st1)
                        } else {
                            (
                                Outcome::Failed {
                                    at: pos,
                                    kind: FailureKind::LookaheadFailed,
                                    furthest,
                                },
                                stack,
                            )
                        }
                    },
                }
            },
            NodeModel::NegLook(inner) => {
                let (o, st1) = spec_match(reg, inner, input, pos, stack, f1);
                match o {
                    Outcome::Found { next, value, furthest } => (
                        Outcome::Failed {
                            at: pos,
                            kind: FailureKind::LookaheadFailed,
                            furthest,
                        },
                        stack,
                    ),
                    Outcome::Failed { at, kind, furthest } => {
                        if kind is DepthLimit {
                            (Outcome::Failed { at, kind, furthest }, st1)
                        } else {
                            (
                                Outcome::Found { next: pos, value: ValueModel::Blank, furthest },
                                stack,
                            )
                        }
                    },
                }
            },
            NodeModel::Restore(inner) => {
                let (o, st1) = spec_match(reg, inner, input, pos, stack, f1);
                match o {
                    Outcome::Found { next, value, furthest } => (o, st1),
                    Outcome::Failed { at, kind, furthest } => (o, stack),
                }
            },
            NodeModel::Push(inner) => {
                let (o, st1) = spec_match(reg, inner, input, pos, stack, f1);
                match o {
                    Outcome::Found { next, value, furthest } => (o, st1.push((pos, next))),
                    Outcome::Failed { at, kind, furthest } => (o, st1),
                }
            },
            NodeModel::PeekSliceLeaf(i, j) => {
                if 0 <= i && i <= j && j <= stack.len() {
                    let text = peek_text(input, stack, i, j);
                    (lit_outcome(input, pos, text), stack)
                } else {
                    (
                        Outcome::Failed {
                            at: pos,
                            kind: FailureKind::StackUnderflow,
                            furthest: pos,
                        },
                        stack,
                    )
                }
            },
            NodeModel::SkipLeaf(n) => {
                if 0 <= n && n <= stack.len() {
                    (
                        Outcome::Found {
                            next: pos,
                            value: ValueModel::Span { lo: pos, hi: pos },
                            furthest: pos,
                        },
                        stack.take(stack.len() - n),
                    )
                } else {
                    (
                        Outcome::Failed {
                            at: pos,
                            kind: FailureKind::StackUnderflow,
                            furthest: pos,
                        },
                        stack,
                    )
                }
            },
            NodeModel::SpanLeaf(inner) => {
                let (o, st1) = spec_match(reg, inner, input, pos, stack, f1);
                match o {
                    Outcome::Found { next, value, furthest } => (
                        Outcome::Found {
                            next,
                            value: ValueModel::Span { lo: pos, hi: next },
                            furthest,
                        },
                        st1,
                    ),
                    Outcome::Failed { at, kind, furthest } => (o, st1),
                }
            },
        }
    }
}

/// The fields of a product node from index `k` on: each child matched against
/// the remainder the previous one left; the first failure aborts the product,
/// which then has no observable effect beyond the stack the attempt left.
/// `acc` carries the values matched so far, `fbest` the furthest position
/// reached so far.
pub open spec fn spec_match_fields(
    reg: Map<Seq<char>, NodeModel>,
    children: Seq<Seq<char>>,
    k: int,
    input: Seq<char>,
    pos: int,
    stack: Seq<(int, int)>,
    fuel: nat,
    acc: Seq<ValueModel>,
    fbest: int,
) -> (Outcome, Seq<(int, int)>)
    decreases fuel, 2nat, children.len() - k,
{
    if fuel == 0 || k < 0 || k >= children.len() {
        (
            Outcome::Found { next: pos, value: ValueModel::Record(acc), furthest: fbest },
            stack,
        )
    } else {
        let (o, st1) = spec_match(reg, children[k], input, pos, stack, (fuel - 1) as nat);
        match o {
            Outcome::Found { next, value, furthest } => spec_match_fields(
                reg,
                children,
                k + 1,
                input,
                next,
                st1,
                fuel,
                acc.push(value),
                pos_max(fbest, furthest),
            ),
            Outcome::Failed { at, kind, furthest } => (
                Outcome::Failed { at, kind, furthest: pos_max(fbest, furthest) },
                st1,
            ),
        }
    }
}

/// The alternatives of a sum node from index `k` on: ordered alternation, the
/// first success wins and is tagged with its index; when every alternative
/// has failed the sum fails with `AllAlternativesExhausted`, carrying the
/// furthest position any alternative reached.
pub open spec fn spec_match_alts(
    reg: Map<Seq<char>, NodeModel>,
    children: Seq<Seq<char>>,
    k: int,
    input: Seq<char>,
    pos: int,
    stack: Seq<(int, int)>,
    fuel: nat,
    fbest: int,
) -> (Outcome, Seq<(int, int)>)
    decreases fuel, 2nat, children.len() - k,
{
    if fuel == 0 || k < 0 || k >= children.len() {
        (
            Outcome::Failed {
                at: pos,
                kind: FailureKind::AllAlternativesExhausted,
                furthest: fbest,
            },
            stack,
        )
    } else {
        let (o, st1) = spec_match(reg, children[k], input, pos, stack, (fuel - 1) as nat);
        match o {
            Outcome::Found { next, value, furthest } => (
                Outcome::Found {
                    next,
                    value: ValueModel::Variant { index: k, inner: Box::new(value) },
                    furthest: pos_max(fbest, furthest),
                },
                st1,
            ),
            Outcome::Failed { at, kind, furthest } => {
                if kind is DepthLimit {
                    (Outcome::Failed { at, kind, furthest: pos_max(fbest, furthest) }, st1)
                } else {
                    spec_match_alts(
                        reg,
                        children,
                        k + 1,
                        input,
                        pos,
                        st1,
                        fuel,
                        pos_max(fbest, furthest),
                    )
                }
            },
        }
    }
}

/// A list node's greedy walk: the inner node is applied repeatedly, each
/// success appending its value and advancing; the first ordinary failure
/// stops the walk, which then succeeds with what was collected and the
/// position before the failed attempt.
pub open spec fn spec_match_list(
    reg: Map<Seq<char>, NodeModel>,
    inner: Seq<char>,
    input: Seq<char>,
    pos: int,
    stack: Seq<(int, int)>,
    fuel: nat,
    acc: Seq<ValueModel>,
    fbest: int,
) -> (Outcome, Seq<(int, int)>)
    decreases fuel, 1nat, 0nat,
{
    if fuel == 0 {
        (
            Outcome::Failed { at: pos, kind: FailureKind::DepthLimit, furthest: fbest },
            stack,
        )
    } else {
        let (o, st1) = spec_match(reg, inner, input, pos, stack, (fuel - 1) as nat);
        match o {
            Outcome::Found { next, value, furthest } => spec_match_list(
                reg,
                inner,
                input,
                next,
                st1,
                (fuel - 1) as nat,
                acc.push(value),
                pos_max(fbest, furthest),
            ),
            Outcome::Failed { at, kind, furthest } => {
                if kind is DepthLimit {
                    (Outcome::Failed { at, kind, furthest: pos_max(fbest, furthest) }, st1)
                } else {
                    (
                        Outcome::Found {
                            next: pos,
                            value: ValueModel::Many(acc),
                            furthest: pos_max(fbest, furthest),
                        },
                        st1,
                    )
                }
            },
        }
    }
}

} // verus!
