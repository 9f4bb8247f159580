//! The node registry: a first-write-wins mapping from generated node name to
//! node definition. Re-deriving a name never overwrites the first entry; this
//! is what lets directly or mutually recursive rule sets compile in finitely
//! many steps.

use vstd::prelude::*;

verus! {

/// One generated node definition: its shape together with the names of the
/// child nodes its matcher delegates to.
#[derive(Debug, PartialEq, Eq)]
pub enum NodeDef {
    /// Leaf: the exact text to match.
    LitLeaf(Vec<char>),
    /// Leaf: text matched under ASCII case-insensitive comparison.
    InsensLeaf(Vec<char>),
    /// Leaf: one character in the inclusive codepoint range.
    RangeLeaf(char, char),
    /// Alias to the referenced rule's node; no expansion.
    Alias(Vec<char>),
    /// Product: one field per child, matched in order.
    Product(Vec<Vec<char>>),
    /// Sum: ordered alternatives, first success wins.
    Sum(Vec<Vec<char>>),
    /// Optional child: present on success, absent on failure.
    Maybe(Vec<char>),
    /// Greedy list of the child.
    ListOf(Vec<char>),
    /// Unit leaf: succeeds iff the child matches; consumes nothing.
    PosLook(Vec<char>),
    /// Unit leaf: succeeds iff the child fails; consumes nothing.
    NegLook(Vec<char>),
    /// Same result as the child, but the backreference stack is restored on
    /// failure.
    Restore(Vec<char>),
    /// Matches the child, then pushes the matched span onto the stack.
    Push(Vec<char>),
    /// Leaf: matches the concatenated text of stack entries `i..j`.
    PeekSliceLeaf(usize, usize),
    /// Leaf: removes the top `n` stack entries; consumes no input.
    SkipLeaf(usize),
    /// Leaf for an atomic rule: runs the child and exposes only the span.
    SpanLeaf(Vec<char>),
}

/// The mathematical value of a node definition, over character sequences.
pub ghost enum NodeModel {
    LitLeaf(Seq<char>),
    InsensLeaf(Seq<char>),
    RangeLeaf(char, char),
    Alias(Seq<char>),
    Product(Seq<Seq<char>>),
    Sum(Seq<Seq<char>>),
    Maybe(Seq<char>),
    ListOf(Seq<char>),
    PosLook(Seq<char>),
    NegLook(Seq<char>),
    Restore(Seq<char>),
    Push(Seq<char>),
    PeekSliceLeaf(int, int),
    SkipLeaf(int),
    SpanLeaf(Seq<char>),
}

/// The views of a list of names.
pub open spec fn names_view(v: Seq<Vec<char>>) -> Seq<Seq<char>> {
    Seq::new(v.len(), |i: int| v[i]@)
}

impl NodeDef {
    pub open spec fn model(self) -> NodeModel {
        match self {
            NodeDef::LitLeaf(s) => NodeModel::LitLeaf(s@),
            NodeDef::InsensLeaf(s) => NodeModel::InsensLeaf(s@),
            NodeDef::RangeLeaf(lo, hi) => NodeModel::RangeLeaf(lo, hi),
            NodeDef::Alias(n) => NodeModel::Alias(n@),
            NodeDef::Product(ns) => NodeModel::Product(names_view(ns@)),
            NodeDef::Sum(ns) => NodeModel::Sum(names_view(ns@)),
            NodeDef::Maybe(n) => NodeModel::Maybe(n@),
            NodeDef::ListOf(n) => NodeModel::ListOf(n@),
            NodeDef::PosLook(n) => NodeModel::PosLook(n@),
            NodeDef::NegLook(n) => NodeModel::NegLook(n@),
            NodeDef::Restore(n) => NodeModel::Restore(n@),
            NodeDef::Push(n) => NodeModel::Push(n@),
            NodeDef::PeekSliceLeaf(i, j) => NodeModel::PeekSliceLeaf(i as int, j as int),
            NodeDef::SkipLeaf(n) => NodeModel::SkipLeaf(n as int),
            NodeDef::SpanLeaf(n) => NodeModel::SpanLeaf(n@),
        }
    }
}

/// First-write-wins insertion on the mathematical registry: an existing entry
/// is never overwritten.
pub open spec fn reg_insert(
    m: Map<Seq<char>, NodeModel>,
    name: Seq<char>,
    def: NodeModel,
) -> Map<Seq<char>, NodeModel> {
    if m.dom().contains(name) {
        m
    } else {
        m.insert(name, def)
    }
}

/// The mapping a list of uniquely-keyed entries stands for.
pub open spec fn entries_map(s: Seq<(Vec<char>, NodeDef)>) -> Map<Seq<char>, NodeModel>
    decreases s.len(),
{
    if s.len() == 0 {
        Map::empty()
    } else {
        entries_map(s.drop_last()).insert(s.last().0@, s.last().1.model())
    }
}

/// The finished artifact of compilation: node definitions keyed by name.
#[derive(Debug, PartialEq, Eq)]
pub struct Registry {
    pub entries: Vec<(Vec<char>, NodeDef)>,
}

impl View for Registry {
    type V = Map<Seq<char>, NodeModel>;

    open spec fn view(&self) -> Map<Seq<char>, NodeModel> {
        entries_map(self.entries@)
    }
}

pub proof fn lemma_entries_map_dom(s: Seq<(Vec<char>, NodeDef)>, k: Seq<char>)
    ensures
        entries_map(s).dom().contains(k) <==> exists|i: int| 0 <= i < s.len() && s[i].0@ == k,
    decreases s.len(),
{
    if s.len() > 0 {
        lemma_entries_map_dom(s.drop_last(), k);
        if entries_map(s).dom().contains(k) {
            if s.last().0@ != k {
                let i = choose|i: int| 0 <= i < s.drop_last().len() && s.drop_last()[i].0@ == k;
                assert(s[i].0@ == k);
            } else {
                assert(s[s.len() - 1].0@ == k);
            }
        } else {
            assert(forall|i: int| 0 <= i < s.len() - 1 ==> s.drop_last()[i] == s[i]);
        }
    }
}

pub proof fn lemma_entries_map_get(s: Seq<(Vec<char>, NodeDef)>, i: int)
    requires
        forall|p: int, q: int| 0 <= p < q < s.len() ==> s[p].0@ != s[q].0@,
        0 <= i < s.len(),
    ensures
        entries_map(s).dom().contains(s[i].0@),
        entries_map(s)[s[i].0@] == s[i].1.model(),
    decreases s.len(),
{
    lemma_entries_map_dom(s, s[i].0@);
    if i < s.len() - 1 {
        assert(s.drop_last()[i] == s[i]);
        lemma_entries_map_get(s.drop_last(), i);
        assert(s.last().0@ != s[i].0@);
    }
}

impl Registry {
    /// Every key occurs once.
    pub open spec fn wf(self) -> bool {
        forall|p: int, q: int|
            0 <= p < q < self.entries@.len() ==> self.entries@[p].0@ != self.entries@[q].0@
    }

    /// An empty registry.
    pub fn new() -> (r: Registry)
        ensures
            r.wf(),
            r@ == Map::<Seq<char>, NodeModel>::empty(),
    {
        Registry { entries: Vec::new() }
    }

    /// Looks a node definition up by name.
    pub fn get(&self, name: &Vec<char>) -> (r: Option<&NodeDef>)
        requires
            self.wf(),
        ensures
            match r {
                Option::Some(d) => self@.dom().contains(name@) && d.model() == self@[name@],
                Option::None => !self@.dom().contains(name@),
            },
    {
        let n = self.entries.len();
        let mut i: usize = 0;
        while i < n
            invariant
                self.wf(),
                n == self.entries@.len(),
                i <= n,
                forall|j: int| 0 <= j < i ==> self.entries@[j].0@ != name@,
            decreases n - i,
        {
            if crate::text::chars_eq(&self.entries[i].0, name) {
                proof {
                    lemma_entries_map_get(self.entries@, i as int);
                }
                return Option::Some(&self.entries[i].1);
            }
            i = i + 1;
        }
        proof {
            lemma_entries_map_dom(self.entries@, name@);
        }
        Option::None
    }

    /// Whether the registry already holds an entry under the name.
    pub fn contains(&self, name: &Vec<char>) -> (r: bool)
        requires
            self.wf(),
        ensures
            r == self@.dom().contains(name@),
    {
        match self.get(name) {
            Option::Some(_) => true,
            Option::None => false,
        }
    }

    /// First-write-wins insertion: a present key keeps its first definition.
    pub fn insert_if_absent(&mut self, name: Vec<char>, def: NodeDef)
        requires
            old(self).wf(),
        ensures
            final(self).wf(),
            final(self)@ == reg_insert(old(self)@, name@, def.model()),
    {
        if self.contains(&name) {
            return ;
        }
        proof {
            lemma_entries_map_dom(self.entries@, name@);
            assert(forall|i: int|
                0 <= i < self.entries@.len() ==> self.entries@[i].0@ != name@);
        }
        let ghost before = self.entries@;
        self.entries.push((name, def));
        proof {
            assert(self.entries@.drop_last() =~= before);
        }
    }

    /// How many node definitions the registry holds.
    pub fn len(&self) -> (r: usize)
        ensures
            r == self.entries@.len(),
    {
        self.entries.len()
    }
}

} // verus!
