//! The executable matcher: attempts construction of a named node against the
//! input at a position, threading the backreference stack, and returns
//! exactly what the mathematical matching semantics (`spec_match`) says. On
//! success the next position never moves backwards and never passes the end
//! of the input, so the remainder is always a suffix of the window given.

use vstd::prelude::*;
use crate::matcher::{
    insens_eq, peek_text, spec_match, spec_match_alts, spec_match_fields, spec_match_list,
    stack_view, stack_wf, models_of, FailureKind, MatchOutcome, ParseFailure, Value,
};
use crate::registry::{names_view, NodeDef, Registry};
use crate::text::fold_code;

verus! {

broadcast use vstd::std_specs::vec::group_vec_axioms, vstd::seq::group_seq_axioms;

/// A fresh copy of a backreference stack.
fn copy_stack(s: &Vec<(usize, usize)>) -> (r: Vec<(usize, usize)>)
    ensures
        r@ == s@,
{
    let mut out: Vec<(usize, usize)> = Vec::new();
    let mut i: usize = 0;
    while i < s.len()
        invariant
            i <= s.len(),
            out@ == s@.subrange(0, i as int),
        decreases s.len() - i,
    {
        out.push(s[i]);
        i = i + 1;
    }
    assert(out@ =~= s@);
    out
}

/// Whether the input at `pos` starts with the exact text.
fn input_starts_with(input: &Vec<char>, pos: usize, text: &Vec<char>) -> (r: bool)
    requires
        pos <= input@.len(),
    ensures
        r == (pos + text@.len() <= input@.len() && input@.subrange(
            pos as int,
            pos + text@.len(),
        ) == text@),
{
    let ilen = input.len();
    if text.len() > ilen - pos {
        return false;
    }
    let mut k: usize = 0;
    while k < text.len()
        invariant
            ilen == input@.len(),
            pos + text@.len() <= ilen,
            k <= text@.len(),
            forall|j: int| 0 <= j < k ==> input@[pos + j] == text@[j],
        decreases text@.len() - k,
    {
        if input[pos + k] != text[k] {
            assert(input@.subrange(pos as int, pos + text@.len())[k as int] != text@[k as int]);
            return false;
        }
        k = k + 1;
    }
    assert(input@.subrange(pos as int, pos + text@.len()) =~= text@);
    true
}

/// Whether the input at `pos` starts with the text under ASCII case folding.
fn input_starts_with_insens(input: &Vec<char>, pos: usize, text: &Vec<char>) -> (r: bool)
    requires
        pos <= input@.len(),
    ensures
        r == (pos + text@.len() <= input@.len() && insens_eq(
            input@.subrange(pos as int, pos + text@.len()),
            text@,
        )),
{
    let ilen = input.len();
    if text.len() > ilen - pos {
        return false;
    }
    let ghost window = input@.subrange(pos as int, pos + text@.len());
    let mut k: usize = 0;
    while k < text.len()
        invariant
            ilen == input@.len(),
            pos + text@.len() <= ilen,
            k <= text@.len(),
            window == input@.subrange(pos as int, pos + text@.len()),
            forall|j: int|
                0 <= j < k ==> fold_code(#[trigger] window[j] as u32) == fold_code(
                    text@[j] as u32,
                ),
        decreases text@.len() - k,
    {
        let a = input[pos + k] as u32;
        let b = text[k] as u32;
        let fa = if 65 <= a && a <= 90 {
            a + 32
        } else {
            a
        };
        let fb = if 65 <= b && b <= 90 {
            b + 32
        } else {
            b
        };
        if fa != fb {
            assert(fold_code(window[k as int] as u32) != fold_code(text@[k as int] as u32));
            return false;
        }
        k = k + 1;
    }
    true
}

proof fn lemma_peek_snoc(input: Seq<char>, stack: Seq<(int, int)>, i: int, j: int)
    requires
        i <= j,
    ensures
        peek_text(input, stack, i, j + 1) == peek_text(input, stack, i, j) + input.subrange(
            stack[j].0,
            stack[j].1,
        ),
    decreases j - i,
{
    if i >= j {
        assert(peek_text(input, stack, i + 1, i + 1) =~= Seq::<char>::empty());
        assert(peek_text(input, stack, i, i + 1) =~= input.subrange(stack[i].0, stack[i].1));
        assert(peek_text(input, stack, i, i) =~= Seq::<char>::empty());
        assert(peek_text(input, stack, i, j) + input.subrange(stack[j].0, stack[j].1)
            =~= peek_text(input, stack, i, j + 1));
    } else {
        lemma_peek_snoc(input, stack, i + 1, j);
        assert(peek_text(input, stack, i, j) + input.subrange(stack[j].0, stack[j].1)
            =~= peek_text(input, stack, i, j + 1));
    }
}

/// The concatenated text of the stack entries `i..j`, collected for matching.
fn build_peek_text(input: &Vec<char>, stack: &Vec<(usize, usize)>, i: usize, j: usize) -> (r: Vec<
    char,
>)
    requires
        stack_wf(stack_view(stack@), input@.len() as int),
        i <= j,
        j <= stack@.len(),
    ensures
        r@ == peek_text(input@, stack_view(stack@), i as int, j as int),
{
    let mut out: Vec<char> = Vec::new();
    let mut k: usize = i;
    assert(out@ =~= peek_text(input@, stack_view(stack@), i as int, i as int));
    while k < j
        invariant
            stack_wf(stack_view(stack@), input@.len() as int),
            i <= k <= j,
            j <= stack@.len(),
            out@ == peek_text(input@, stack_view(stack@), i as int, k as int),
        decreases j - k,
    {
        let (lo, hi) = stack[k];
        assert(stack_view(stack@)[k as int] == (lo as int, hi as int));
        assert(0 <= lo as int <= hi as int <= input@.len());
        let ghost before = out@;
        let mut p: usize = lo;
        while p < hi
            invariant
                lo <= p <= hi,
                hi <= input@.len(),
                out@ == before + input@.subrange(lo as int, p as int),
            decreases hi - p,
        {
            out.push(input[p]);
            p = p + 1;
            assert(out@ =~= before + input@.subrange(lo as int, p as int));
        }
        proof {
            lemma_peek_snoc(input@, stack_view(stack@), i as int, k as int);
            assert(out@ =~= peek_text(input@, stack_view(stack@), i as int, k + 1));
        }
        k = k + 1;
    }
    out
}

/// The greater of two positions.
fn take_max(a: usize, b: usize) -> (r: usize)
    ensures
        r as int == crate::matcher::pos_max(a as int, b as int),
{
    if a >= b {
        a
    } else {
        b
    }
}

/// The character of the input at `pos`.
fn char_at(input: &Vec<char>, pos: usize) -> (c: char)
    requires
        pos < input@.len(),
    ensures
        c == input@[pos as int],
{
    input[pos]
}

/// Attempts construction of the node `name` against `input` at `pos` with the
/// given backreference stack, and returns the outcome together with the stack
/// it leaves behind — exactly what `spec_match` says. On success the next
/// position lies between `pos` and the end of the input: the remainder is a
/// suffix of the window given, and a failed attempt hands the caller back the
/// very position it supplied, so a sibling alternative can retry unaffected.
#[verifier::rlimit(100)]
#[verifier::spinoff_prover]
pub fn try_construct_at(
    reg: &Registry,
    name: &Vec<char>,
    input: &Vec<char>,
    pos: usize,
    stack: Vec<(usize, usize)>,
    fuel: usize,
) -> (r: (MatchOutcome, Vec<(usize, usize)>))
    requires
        reg.wf(),
        pos <= input@.len(),
        stack_wf(stack_view(stack@), input@.len() as int),
    ensures
        r.0.model() == spec_match(
            reg@,
            name@,
            input@,
            pos as int,
            stack_view(stack@),
            fuel as nat,
        ).0,
        stack_view(r.1@) == spec_match(
            reg@,
            name@,
            input@,
            pos as int,
            stack_view(stack@),
            fuel as nat,
        ).1,
        stack_wf(stack_view(r.1@), input@.len() as int),
        r.0 matches MatchOutcome::Found { next, .. } ==> pos <= next <= input@.len(),
    decreases fuel, 3nat, 0nat,
{
    if fuel == 0 {
        return (
            MatchOutcome::Failed(
                ParseFailure { at: pos, kind: FailureKind::DepthLimit, furthest: pos },
            ),
            stack,
        );
    }
    let ghost ilen = input@.len();
    proof {
        assert(ilen == input.len());
    }
    let def = match reg.get(name) {
        Option::Some(d) => d,
        Option::None => {
            return (
                MatchOutcome::Failed(
                    ParseFailure { at: pos, kind: FailureKind::UnknownRule, furthest: pos },
                ),
                stack,
            );
        },
    };
    match def {
        NodeDef::LitLeaf(s) => {
            if input_starts_with(input, pos, s) {
                (
                    MatchOutcome::Found {
                        next: pos + s.len(),
                        value: Value::Span { lo: pos, hi: pos + s.len() },
                        furthest: pos,
                    },
                    stack,
                )
            } else {
                (
                    MatchOutcome::Failed(
                        ParseFailure {
                            at: pos,
                            kind: FailureKind::LiteralMismatch,
                            furthest: pos,
                        },
                    ),
                    stack,
                )
            }
        },
        NodeDef::InsensLeaf(s) => {
            if input_starts_with_insens(input, pos, s) {
                (
                    MatchOutcome::Found {
                        next: pos + s.len(),
                        value: Value::Span { lo: pos, hi: pos + s.len() },
                        furthest: pos,
                    },
                    stack,
                )
            } else {
                (
                    MatchOutcome::Failed(
                        ParseFailure {
                            at: pos,
                            kind: FailureKind::LiteralMismatch,
                            furthest: pos,
                        },
                    ),
                    stack,
                )
            }
        },
        NodeDef::RangeLeaf(lo, hi) => {
            if pos < input.len() {
                let c = char_at(input, pos);
                if *lo as u32 <= c as u32 && c as u32 <= *hi as u32 {
                    let out = MatchOutcome::Found {
                        next: pos + 1,
                        value: Value::Single { c, lo: pos, hi: pos + 1 },
                        furthest: pos,
                    };
                    proof {
                        let so = crate::matcher::range_outcome(input@, pos as int, *lo, *hi);
                        assert(pos < input@.len());
                        assert(*lo as u32 <= input@[pos as int] as u32);
                        assert(input@[pos as int] as u32 <= *hi as u32);
                        assert(so is Found);
                        assert(out.model() is Found);
                        assert(so->Found_next == pos + 1);
                        assert(out.model()->Found_next == pos + 1);
                        assert(c == input@[pos as int]);
                        assert(so->Found_value is Single);
                        assert(out.model()->Found_value is Single);
                        assert(out.model()->Found_value->Single_c == c);
                        assert(so->Found_value->Single_c == c);
                        assert(out.model()->Found_value->Single_lo == pos as int);
                        assert(so->Found_value->Single_lo == pos as int);
                        assert(out.model()->Found_value->Single_hi == pos + 1);
                        assert(so->Found_value->Single_hi == pos + 1);
                        assert(so->Found_value == out.model()->Found_value);
                        assert(so->Found_furthest == out.model()->Found_furthest);
                        assert(out.model() == so);
                    }
                    return (out, stack);
                }
            }
            let out = MatchOutcome::Failed(
                ParseFailure { at: pos, kind: FailureKind::CharOutOfRange, furthest: pos },
            );
            assert(out.model() == crate::matcher::range_outcome(input@, pos as int, *lo, *hi));
            (out, stack)
        },
        NodeDef::Alias(target) => try_construct_at(reg, target, input, pos, stack, fuel - 1),
        NodeDef::Product(children) => try_fields(
            reg,
            children,
            0,
            input,
            pos,
            stack,
            fuel,
            Vec::new(),
            pos,
        ),
        NodeDef::Sum(children) => try_alts(reg, children, 0, input, pos, stack, fuel, pos),
        NodeDef::Maybe(inner) => {
            let (o, st1) = try_construct_at(reg, inner, input, pos, stack, fuel - 1);
            match o {
                MatchOutcome::Found { next, value, furthest } => (
                    MatchOutcome::Found {
                        next,
                        value: Value::Maybe(Option::Some(Box::new(value))),
                        furthest,
                    },
                    st1,
                ),
                MatchOutcome::Failed(f) => {
                    if f.kind == FailureKind::DepthLimit {
                        (MatchOutcome::Failed(f), st1)
                    } else {
                        (
                            MatchOutcome::Found {
                                next: pos,
                                value: Value::Maybe(Option::None),
                                furthest: f.furthest,
                            },
                            st1,
                        )
                    }
                },
            }
        },
        NodeDef::ListOf(inner) => try_list(reg, inner, input, pos, stack, fuel, Vec::new(), pos),
        NodeDef::PosLook(inner) => {
            let saved = copy_stack(&stack);
            let (o, st1) = try_construct_at(reg, inner, input, pos, stack, fuel - 1);
            match o {
                MatchOutcome::Found { furthest, .. } => (
                    MatchOutcome::Found { next: pos, value: Value::Blank, furthest },
                    saved,
                ),
                MatchOutcome::Failed(f) => {
                    if f.kind == FailureKind::DepthLimit {
                        (MatchOutcome::Failed(f), st1)
                    } else {
                        (
                            MatchOutcome::Failed(
                                ParseFailure {
                                    at: pos,
                                    kind: FailureKind::LookaheadFailed,
                                    furthest: f.furthest,
                                },
                            ),
                            saved,
                        )
                    }
                },
            }
        },
        NodeDef::NegLook(inner) => {
            let saved = copy_stack(&stack);
            let (o, st1) = try_construct_at(reg, inner, input, pos, stack, fuel - 1);
            match o {
                MatchOutcome::Found { furthest, .. } => (
                    MatchOutcome::Failed(
                        ParseFailure {
                            at: pos,
                            kind: FailureKind::LookaheadFailed,
                            furthest,
                        },
                    ),
                    saved,
                ),
                MatchOutcome::Failed(f) => {
                    if f.kind == FailureKind::DepthLimit {
                        (MatchOutcome::Failed(f), st1)
                    } else {
                        (
                            MatchOutcome::Found {
                                next: pos,
                                value: Value::Blank,
                                furthest: f.furthest,
                            },
                            saved,
                        )
                    }
                },
            }
        },
        NodeDef::Restore(inner) => {
            let saved = copy_stack(&stack);
            let (o, st1) = try_construct_at(reg, inner, input, pos, stack, fuel - 1);
            match o {
                MatchOutcome::Found { .. } => (o, st1),
                MatchOutcome::Failed(_) => (o, saved),
            }
        },
        NodeDef::Push(inner) => {
            let (o, st1) = try_construct_at(reg, inner, input, pos, stack, fuel - 1);
            match o {
                MatchOutcome::Found { next, value, furthest } => {
                    let mut st2 = st1;
                    let ghost st_before = st2@;
                    st2.push((pos, next));
                    proof {
                        assert(stack_view(st2@) =~= stack_view(st_before).push(
                            (pos as int, next as int),
                        ));
                    }
                    (MatchOutcome::Found { next, value, furthest }, st2)
                },
                MatchOutcome::Failed(_) => (o, st1),
            }
        },
        NodeDef::PeekSliceLeaf(i, j) => {
            if *i <= *j && *j <= stack.len() {
                let text = build_peek_text(input, &stack, *i, *j);
                if input_starts_with(input, pos, &text) {
                    (
                        MatchOutcome::Found {
                            next: pos + text.len(),
                            value: Value::Span { lo: pos, hi: pos + text.len() },
                            furthest: pos,
                        },
                        stack,
                    )
                } else {
                    (
                        MatchOutcome::Failed(
                            ParseFailure {
                                at: pos,
                                kind: FailureKind::LiteralMismatch,
                                furthest: pos,
                            },
                        ),
                        stack,
                    )
                }
            } else {
                (
                    MatchOutcome::Failed(
                        ParseFailure {
                            at: pos,
                            kind: FailureKind::StackUnderflow,
                            furthest: pos,
                        },
                    ),
                    stack,
                )
            }
        },
        NodeDef::SkipLeaf(n) => {
            if *n <= stack.len() {
                let mut st2 = stack;
                let keep = st2.len() - *n;
                let ghost st_before = st2@;
                st2.truncate(keep);
                proof {
                    assert(stack_view(st2@) =~= stack_view(st_before).take(
                        stack_view(st_before).len() - (*n as int),
                    ));
                }
                (
                    MatchOutcome::Found {
                        next: pos,
                        value: Value::Span { lo: pos, hi: pos },
                        furthest: pos,
                    },
                    st2,
                )
            } else {
                (
                    MatchOutcome::Failed(
                        ParseFailure {
                            at: pos,
                            kind: FailureKind::StackUnderflow,
                            furthest: pos,
                        },
                    ),
                    stack,
                )
            }
        },
        NodeDef::SpanLeaf(inner) => {
            let (o, st1) = try_construct_at(reg, inner, input, pos, stack, fuel - 1);
            match o {
                MatchOutcome::Found { next, furthest, .. } => (
                    MatchOutcome::Found {
                        next,
                        value: Value::Span { lo: pos, hi: next },
                        furthest,
                    },
                    st1,
                ),
                MatchOutcome::Failed(_) => (o, st1),
            }
        },
    }
}

/// The fields of a product node from slot `k` on; `acc` holds the values
/// matched so far and `fbest` the furthest position reached so far.
fn try_fields(
    reg: &Registry,
    children: &Vec<Vec<char>>,
    k: usize,
    input: &Vec<char>,
    pos: usize,
    stack: Vec<(usize, usize)>,
    fuel: usize,
    acc: Vec<Value>,
    fbest: usize,
) -> (r: (MatchOutcome, Vec<(usize, usize)>))
    requires
        reg.wf(),
        k <= children@.len(),
        pos <= input@.len(),
        stack_wf(stack_view(stack@), input@.len() as int),
    ensures
        r.0.model() == spec_match_fields(
            reg@,
            names_view(children@),
            k as int,
            input@,
            pos as int,
            stack_view(stack@),
            fuel as nat,
            models_of(acc@),
            fbest as int,
        ).0,
        stack_view(r.1@) == spec_match_fields(
            reg@,
            names_view(children@),
            k as int,
            input@,
            pos as int,
            stack_view(stack@),
            fuel as nat,
            models_of(acc@),
            fbest as int,
        ).1,
        stack_wf(stack_view(r.1@), input@.len() as int),
        r.0 matches MatchOutcome::Found { next, .. } ==> pos <= next <= input@.len(),
    decreases fuel, 2nat, children@.len() - k,
{
    if fuel == 0 || k >= children.len() {
        return (
            MatchOutcome::Found { next: pos, value: Value::Record(acc), furthest: fbest },
            stack,
        );
    }
    let child = &children[k];
    assert(names_view(children@)[k as int] == child@);
    let (o, st1) = try_construct_at(reg, child, input, pos, stack, fuel - 1);
    match o {
        MatchOutcome::Found { next, value, furthest } => {
            let mut acc2 = acc;
            let ghost acc_before = acc2@;
            acc2.push(value);
            proof {
                assert(acc2@.drop_last() =~= acc_before);
            }
            try_fields(
                reg,
                children,
                k + 1,
                input,
                next,
                st1,
                fuel,
                acc2,
                take_max(fbest, furthest),
            )
        },
        MatchOutcome::Failed(f) => (
            MatchOutcome::Failed(
                ParseFailure { at: f.at, kind: f.kind, furthest: take_max(fbest, f.furthest) },
            ),
            st1,
        ),
    }
}

/// The alternatives of a sum node from index `k` on; `fbest` is the furthest
/// position any earlier alternative reached.
fn try_alts(
    reg: &Registry,
    children: &Vec<Vec<char>>,
    k: usize,
    input: &Vec<char>,
    pos: usize,
    stack: Vec<(usize, usize)>,
    fuel: usize,
    fbest: usize,
) -> (r: (MatchOutcome, Vec<(usize, usize)>))
    requires
        reg.wf(),
        k <= children@.len(),
        pos <= input@.len(),
        stack_wf(stack_view(stack@), input@.len() as int),
    ensures
        r.0.model() == spec_match_alts(
            reg@,
            names_view(children@),
            k as int,
            input@,
            pos as int,
            stack_view(stack@),
            fuel as nat,
            fbest as int,
        ).0,
        stack_view(r.1@) == spec_match_alts(
            reg@,
            names_view(children@),
            k as int,
            input@,
            pos as int,
            stack_view(stack@),
            fuel as nat,
            fbest as int,
        ).1,
        stack_wf(stack_view(r.1@), input@.len() as int),
        r.0 matches MatchOutcome::Found { next, .. } ==> pos <= next <= input@.len(),
    decreases fuel, 2nat, children@.len() - k,
{
    if fuel == 0 || k >= children.len() {
        return (
            MatchOutcome::Failed(
                ParseFailure {
                    at: pos,
                    kind: FailureKind::AllAlternativesExhausted,
                    furthest: fbest,
                },
            ),
            stack,
        );
    }
    let child = &children[k];
    assert(names_view(children@)[k as int] == child@);
    let (o, st1) = try_construct_at(reg, child, input, pos, stack, fuel - 1);
    match o {
        MatchOutcome::Found { next, value, furthest } => (
            MatchOutcome::Found {
                next,
                value: Value::Variant { index: k, inner: Box::new(value) },
                furthest: take_max(fbest, furthest),
            },
            st1,
        ),
        MatchOutcome::Failed(f) => {
            if f.kind == FailureKind::DepthLimit {
                (
                    MatchOutcome::Failed(
                        ParseFailure {
                            at: f.at,
                            kind: f.kind,
                            furthest: take_max(fbest, f.furthest),
                        },
                    ),
                    st1,
                )
            } else {
                try_alts(reg, children, k + 1, input, pos, st1, fuel, take_max(fbest, f.furthest))
            }
        },
    }
}

/// The greedy walk of a list node; `acc` holds the values collected so far.
fn try_list(
    reg: &Registry,
    inner: &Vec<char>,
    input: &Vec<char>,
    pos: usize,
    stack: Vec<(usize, usize)>,
    fuel: usize,
    acc: Vec<Value>,
    fbest: usize,
) -> (r: (MatchOutcome, Vec<(usize, usize)>))
    requires
        reg.wf(),
        pos <= input@.len(),
        stack_wf(stack_view(stack@), input@.len() as int),
    ensures
        r.0.model() == spec_match_list(
            reg@,
            inner@,
            input@,
            pos as int,
            stack_view(stack@),
            fuel as nat,
            models_of(acc@),
            fbest as int,
        ).0,
        stack_view(r.1@) == spec_match_list(
            reg@,
            inner@,
            input@,
            pos as int,
            stack_view(stack@),
            fuel as nat,
            models_of(acc@),
            fbest as int,
        ).1,
        stack_wf(stack_view(r.1@), input@.len() as int),
        r.0 matches MatchOutcome::Found { next, .. } ==> pos <= next <= input@.len(),
    decreases fuel, 1nat, 0nat,
{
    if fuel == 0 {
        return (
            MatchOutcome::Failed(
                ParseFailure { at: pos, kind: FailureKind::DepthLimit, furthest: fbest },
            ),
            stack,
        );
    }
    let (o, st1) = try_construct_at(reg, inner, input, pos, stack, fuel - 1);
    match o {
        MatchOutcome::Found { next, value, furthest } => {
            let mut acc2 = acc;
            let ghost acc_before = acc2@;
            acc2.push(value);
            proof {
                assert(acc2@.drop_last() =~= acc_before);
            }
            try_list(reg, inner, input, next, st1, fuel - 1, acc2, take_max(fbest, furthest))
        },
        MatchOutcome::Failed(f) => {
            if f.kind == FailureKind::DepthLimit {
                (
                    MatchOutcome::Failed(
                        ParseFailure {
                            at: f.at,
                            kind: f.kind,
                            furthest: take_max(fbest, f.furthest),
                        },
                    ),
                    st1,
                )
            } else {
                (
                    MatchOutcome::Found {
                        next: pos,
                        value: Value::Many(acc),
                        furthest: take_max(fbest, f.furthest),
                    },
                    st1,
                )
            }
        },
    }
}

} // verus!
