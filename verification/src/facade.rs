//! The entry points a finished registry exposes: a raw attempt from the start
//! of the input, a full-input variant that also demands an empty remainder,
//! and the check that the registry's namespace stays clear of the reserved
//! built-in leaf names.

use vstd::prelude::*;
use crate::ast::Rule;
use crate::compile::{assemble_rules, expr_size, generate_graph};
use crate::interp::try_construct_at;
use crate::matcher::{spec_match, stack_view, FailureKind, MatchOutcome, Outcome, ParseFailure};
use crate::registry::{NodeModel, Registry};

verus! {

broadcast use vstd::std_specs::vec::group_vec_axioms, vstd::seq::group_seq_axioms;

/// The reserved built-in leaf names, provided by the hosting facade: any
/// single character, the zero-width start and end of input, and the line
/// terminator. The compiler never generates them and a rule set must not
/// redefine them.
pub open spec fn is_builtin_name(n: Seq<char>) -> bool {
    ||| n == seq!['A', 'N', 'Y']
    ||| n == seq!['S', 'O', 'I']
    ||| n == seq!['E', 'O', 'I']
    ||| n == seq!['N', 'E', 'W', 'L', 'I', 'N', 'E']
}

/// A defect in the rule set handed to the assembler, as opposed to an
/// ordinary match failure: the compiled namespace collides with a reserved
/// built-in name.
#[derive(Debug, PartialEq, Eq)]
pub enum AssembleError {
    ReservedName(Vec<char>),
}

impl Registry {
    /// Attempts construction of the node `name` against the whole input,
    /// starting from an empty backreference stack. `fuel` bounds the
    /// recursion depth; a run that exhausts it fails with `DepthLimit`.
    pub fn try_construct(&self, name: &Vec<char>, input: &Vec<char>, fuel: usize) -> (r:
        MatchOutcome)
        requires
            self.wf(),
        ensures
            r.model() == spec_match(self@, name@, input@, 0, Seq::empty(), fuel as nat).0,
            r matches MatchOutcome::Found { next, .. } ==> next <= input@.len(),
    {
        let stack: Vec<(usize, usize)> = Vec::new();
        proof {
            assert(stack_view(stack@) =~= Seq::<(int, int)>::empty());
        }
        let (o, _st) = try_construct_at(self, name, input, 0, stack, fuel);
        o
    }

    /// The full-input variant: as `try_construct`, but an attempt that
    /// succeeds without consuming the whole input is turned into a
    /// `TrailingInput` failure at the position where matching stopped.
    pub fn try_construct_full(&self, name: &Vec<char>, input: &Vec<char>, fuel: usize) -> (r:
        MatchOutcome)
        requires
            self.wf(),
        ensures
            ({
                let o = spec_match(self@, name@, input@, 0, Seq::empty(), fuel as nat).0;
                match o {
                    Outcome::Found { next, value, furthest } => {
                        if next == input@.len() {
                            r.model() == o
                        } else {
                            r.model() == (Outcome::Failed {
                                at: next,
                                kind: FailureKind::TrailingInput,
                                furthest,
                            })
                        }
                    },
                    Outcome::Failed { .. } => r.model() == o,
                }
            }),
    {
        let o = self.try_construct(name, input, fuel);
        match o {
            MatchOutcome::Found { next, value, furthest } => {
                if next == input.len() {
                    MatchOutcome::Found { next, value, furthest }
                } else {
                    MatchOutcome::Failed(
                        ParseFailure { at: next, kind: FailureKind::TrailingInput, furthest },
                    )
                }
            },
            MatchOutcome::Failed(f) => MatchOutcome::Failed(f),
        }
    }

    /// The names the registry holds, in insertion order.
    pub fn names(&self) -> (r: Vec<Vec<char>>)
        ensures
            r@.len() == self.entries@.len(),
            forall|i: int| 0 <= i < r@.len() ==> r@[i]@ == self.entries@[i].0@,
    {
        let mut out: Vec<Vec<char>> = Vec::new();
        let mut i: usize = 0;
        while i < self.entries.len()
            invariant
                i <= self.entries@.len(),
                out@.len() == i,
                forall|j: int| 0 <= j < i ==> out@[j]@ == self.entries@[j].0@,
            decreases self.entries@.len() - i,
        {
            out.push(crate::text::copy_chars(&self.entries[i].0));
            i = i + 1;
        }
        out
    }
}

/// A parser over a finished registry: the raw attempt of §matching, from the
/// start of the input.
pub trait Parser {
    /// Attempts to match the node `start` against `input`.
    fn parse(&self, start: &Vec<char>, input: &Vec<char>, fuel: usize) -> MatchOutcome;
}

/// A parser into a typed tree: the whole input must be consumed.
pub trait TypedParser {
    /// Matches the node `start` against all of `input`; a remainder is a
    /// failure.
    fn parse(&self, start: &Vec<char>, input: &Vec<char>, fuel: usize) -> MatchOutcome;
}

impl Parser for Registry {
    fn parse(&self, start: &Vec<char>, input: &Vec<char>, fuel: usize) -> MatchOutcome {
        if !self.well_formed() {
            return MatchOutcome::Failed(
                ParseFailure { at: 0, kind: FailureKind::UnknownRule, furthest: 0 },
            );
        }
        self.try_construct(start, input, fuel)
    }
}

impl TypedParser for Registry {
    fn parse(&self, start: &Vec<char>, input: &Vec<char>, fuel: usize) -> MatchOutcome {
        if !self.well_formed() {
            return MatchOutcome::Failed(
                ParseFailure { at: 0, kind: FailureKind::UnknownRule, furthest: 0 },
            );
        }
        self.try_construct_full(start, input, fuel)
    }
}

impl Registry {
    /// Decides well-formedness (unique keys) at run time, so unverified
    /// callers can establish what verified callers prove.
    pub fn well_formed(&self) -> (r: bool)
        ensures
            r == self.wf(),
    {
        let n = self.entries.len();
        let mut i: usize = 0;
        while i < n
            invariant
                n == self.entries@.len(),
                i <= n,
                forall|p: int, q: int| 0 <= p < q < i ==> self.entries@[p].0@ != self.entries@[q].0@,
            decreases n - i,
        {
            let mut j: usize = 0;
            while j < i
                invariant
                    i < n,
                    n == self.entries@.len(),
                    j <= i,
                    forall|p: int, q: int|
                        0 <= p < q < i ==> self.entries@[p].0@ != self.entries@[q].0@,
                    forall|p: int| 0 <= p < j ==> self.entries@[p].0@ != self.entries@[i as int].0@,
                decreases i - j,
            {
                if crate::text::chars_eq(&self.entries[j].0, &self.entries[i].0) {
                    return false;
                }
                j = j + 1;
            }
            i = i + 1;
        }
        true
    }
}

/// Compiles the rule set and hands the finished registry to the downstream
/// facade, after checking that no generated name collides with a reserved
/// built-in: exactly the rule sets whose compiled namespace stays clear
/// assemble successfully.
pub fn generate_typed_pair_from_rule(rules: &Vec<Rule>) -> (r: Result<Registry, AssembleError>)
    requires
        forall|k: int| 0 <= k < rules@.len() ==> expr_size(#[trigger] rules@[k].body) <= usize::MAX,
    ensures
        ({
            let m = assemble_rules(rules@, Map::<Seq<char>, NodeModel>::empty());
            match r {
                Result::Ok(reg) => reg.wf() && reg@ == m && (forall|k: Seq<char>|
                    m.dom().contains(k) ==> !is_builtin_name(k)),
                Result::Err(e) => (exists|k: Seq<char>|
                    m.dom().contains(k) && is_builtin_name(k)) && (e matches
                AssembleError::ReservedName(n) && m.dom().contains(n@) && is_builtin_name(n@)),
            }
        }),
{
    let reg = generate_graph(rules);
    let any_name: Vec<char> = vec!['A', 'N', 'Y'];
    let soi_name: Vec<char> = vec!['S', 'O', 'I'];
    let eoi_name: Vec<char> = vec!['E', 'O', 'I'];
    let newline_name: Vec<char> = vec!['N', 'E', 'W', 'L', 'I', 'N', 'E'];
    proof {
        assert(any_name@ =~= seq!['A', 'N', 'Y']);
        assert(soi_name@ =~= seq!['S', 'O', 'I']);
        assert(eoi_name@ =~= seq!['E', 'O', 'I']);
        assert(newline_name@ =~= seq!['N', 'E', 'W', 'L', 'I', 'N', 'E']);
    }
    let n = reg.entries.len();
    let mut i: usize = 0;
    while i < n
        invariant
            reg.wf(),
            reg@ == assemble_rules(rules@, Map::<Seq<char>, NodeModel>::empty()),
            n == reg.entries@.len(),
            i <= n,
            any_name@ == seq!['A', 'N', 'Y'],
            soi_name@ == seq!['S', 'O', 'I'],
            eoi_name@ == seq!['E', 'O', 'I'],
            newline_name@ == seq!['N', 'E', 'W', 'L', 'I', 'N', 'E'],
            forall|j: int| 0 <= j < i ==> !is_builtin_name(#[trigger] reg.entries@[j].0@),
        decreases n - i,
    {
        let key = &reg.entries[i].0;
        if crate::text::chars_eq(key, &any_name) || crate::text::chars_eq(key, &soi_name)
            || crate::text::chars_eq(key, &eoi_name) || crate::text::chars_eq(
            key,
            &newline_name,
        ) {
            let bad = crate::text::copy_chars(key);
            proof {
                crate::registry::lemma_entries_map_get(reg.entries@, i as int);
                assert(reg@.dom().contains(reg.entries@[i as int].0@));
                assert(bad@ == reg.entries@[i as int].0@);
                assert(reg@.dom().contains(bad@) && is_builtin_name(bad@));
                let m = assemble_rules(rules@, Map::<Seq<char>, NodeModel>::empty());
                assert(m.dom().contains(bad@));
                assert(exists|k: Seq<char>| m.dom().contains(k) && is_builtin_name(k));
            }
            return Result::Err(AssembleError::ReservedName(bad));
        }
        i = i + 1;
    }
    proof {
        assert forall|k: Seq<char>| reg@.dom().contains(k) implies !is_builtin_name(k) by {
            crate::registry::lemma_entries_map_dom(reg.entries@, k);
            let j = choose|j: int| 0 <= j < reg.entries@.len() && reg.entries@[j].0@ == k;
            assert(!is_builtin_name(reg.entries@[j].0@));
        }
    }
    Result::Ok(reg)
}

} // verus!
