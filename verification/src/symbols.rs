//! Symbols: named, ordered lists of cells that a life file defines once and
//! then stamps onto the grid at any offset.

use vstd::prelude::*;
use vstd::slice::slice_to_vec;
use crate::error::ParseErrorKind;
use crate::text::CellCoords;

verus! {

/// The sum of two coordinates, held at `usize::MAX` where it would pass it.
///
/// A grid is never wider or higher than `usize::MAX`, so a coordinate held
/// there is outside every grid, as the true sum is.
pub open spec fn add_coordinate(a: usize, b: usize) -> usize {
    if a + b > usize::MAX {
        usize::MAX
    } else {
        (a + b) as usize
    }
}

/// `cell` moved by `offset`, component by component.
pub open spec fn shift(cell: CellCoords, offset: CellCoords) -> CellCoords {
    (add_coordinate(cell.0, offset.0), add_coordinate(cell.1, offset.1))
}

/// Every cell of `cells` moved by `offset`, in the same order.
pub open spec fn translate(cells: Seq<CellCoords>, offset: CellCoords) -> Seq<CellCoords> {
    Seq::new(cells.len(), |i: int| shift(cells[i], offset))
}

/// What the symbols of a file are, as mathematics: each name with its cells
/// in the order in which they were given.
pub type SymbolMap = Map<Seq<char>, Seq<CellCoords>>;

/// The symbols after a definition of `name` was opened: a new name starts
/// with no cells, a known one keeps those it has.
pub open spec fn define_in(symbols: SymbolMap, name: Seq<char>) -> SymbolMap {
    if symbols.contains_key(name) {
        symbols
    } else {
        symbols.insert(name, Seq::empty())
    }
}

/// The symbols after `cell` was added at the end of `name`.
pub open spec fn append_literal_in(symbols: SymbolMap, name: Seq<char>, cell: CellCoords) -> SymbolMap {
    if symbols.contains_key(name) {
        symbols.insert(name, symbols[name].push(cell))
    } else {
        symbols
    }
}

/// The symbols after the cells of `other`, moved by `offset`, were added at
/// the end of `name`.
pub open spec fn append_translated_in(
    symbols: SymbolMap,
    name: Seq<char>,
    other: Seq<char>,
    offset: CellCoords,
) -> SymbolMap {
    if symbols.contains_key(name) && symbols.contains_key(other) {
        symbols.insert(name, symbols[name] + translate(symbols[other], offset))
    } else {
        symbols
    }
}

/// Holding a sum at `usize::MAX` changes nothing that a grid can show: the
/// held sum lies inside a grid's bound exactly when the true sum does.
pub proof fn law_held_sum_keeps_bounds(a: usize, b: usize, bound: usize)
    ensures
        add_coordinate(a, b) < bound <==> a + b < bound,
        add_coordinate(a, b) < bound ==> add_coordinate(a, b) == a + b,
{
}

/// Adds two coordinates, stopping at `usize::MAX`.
pub fn add_coordinates(a: usize, b: usize) -> (r: usize)
    ensures
        r == add_coordinate(a, b),
{
    if a > usize::MAX - b {
        usize::MAX
    } else {
        a + b
    }
}

/// Moves every cell of `cells` by `offset`.
pub fn translate_cells(cells: &[CellCoords], offset: CellCoords) -> (r: Vec<CellCoords>)
    ensures
        r@ == translate(cells@, offset),
{
    let mut out: Vec<CellCoords> = Vec::new();
    let n: usize = cells.len();
    let mut i: usize = 0;
    while i < n
        invariant
            i <= n,
            n == cells@.len(),
            out@.len() == i,
            forall|j: int| 0 <= j < i ==> out@[j] == shift(cells@[j], offset),
        decreases n - i,
    {
        let c: CellCoords = cells[i];
        out.push((add_coordinates(c.0, offset.0), add_coordinates(c.1, offset.1)));
        i += 1;
    }
    assert(out@ =~= translate(cells@, offset));
    out
}

/// Tells whether two names are the same, character by character.
pub fn same_name(a: &[char], b: &[char]) -> (r: bool)
    ensures
        r == (a@ == b@),
{
    let n: usize = a.len();
    if b.len() != n {
        return false;
    }
    let mut i: usize = 0;
    while i < n
        invariant
            i <= n,
            n == a@.len(),
            n == b@.len(),
            forall|j: int| 0 <= j < i ==> a@[j] == b@[j],
        decreases n - i,
    {
        if a[i] != b[i] {
            return false;
        }
        i += 1;
    }
    assert(a@ =~= b@);
    true
}

/// One symbol: its name and its cells, in the order in which they were
/// added. That order is the order in which a use of the symbol lists them.
pub struct SymbolDefinition {
    name: Vec<char>,
    cells: Vec<CellCoords>,
}

impl SymbolDefinition {
    pub closed spec fn name_view(&self) -> Seq<char> {
        self.name@
    }

    pub closed spec fn cells_view(&self) -> Seq<CellCoords> {
        self.cells@
    }

    /// A symbol called `name`, with no cells yet.
    pub fn new(name: &[char]) -> (r: Self)
        ensures
            r.name_view() == name@,
            r.cells_view() == Seq::<CellCoords>::empty(),
    {
        Self { name: slice_to_vec(name), cells: Vec::new() }
    }

    /// The symbol's name.
    pub fn name(&self) -> (r: &[char])
        ensures
            r@ == self.name_view(),
    {
        self.name.as_slice()
    }

    /// The symbol's cells, oldest first.
    pub fn cells(&self) -> (r: &[CellCoords])
        ensures
            r@ == self.cells_view(),
    {
        self.cells.as_slice()
    }

    /// Adds one cell at the end.
    pub fn push_cell(&mut self, cell: CellCoords)
        ensures
            final(self).name_view() == old(self).name_view(),
            final(self).cells_view() == old(self).cells_view().push(cell),
    {
        self.cells.push(cell);
    }

    /// Adds `cells` at the end, in their order.
    pub fn push_cells(&mut self, cells: &[CellCoords])
        ensures
            final(self).name_view() == old(self).name_view(),
            final(self).cells_view() == old(self).cells_view() + cells@,
    {
        let n: usize = cells.len();
        let mut i: usize = 0;
        while i < n
            invariant
                i <= n,
                n == cells@.len(),
                self.name@ == old(self).name@,
                self.cells@ == old(self).cells@ + cells@.subrange(0, i as int),
            decreases n - i,
        {
            self.cells.push(cells[i]);
            i += 1;
            assert(self.cells@ =~= old(self).cells@ + cells@.subrange(0, i as int));
        }
        assert(cells@.subrange(0, n as int) =~= cells@);
    }
}

spec fn has_name(defs: Seq<SymbolDefinition>, name: Seq<char>) -> bool {
    exists|i: int| 0 <= i < defs.len() && (#[trigger] defs[i]).name_view() == name
}

spec fn position(defs: Seq<SymbolDefinition>, name: Seq<char>) -> int {
    choose|i: int| 0 <= i < defs.len() && (#[trigger] defs[i]).name_view() == name
}

spec fn distinct_names(defs: Seq<SymbolDefinition>) -> bool {
    forall|i: int, j: int|
        0 <= i < j < defs.len() ==> (#[trigger] defs[i]).name_view() != (#[trigger] defs[j]).name_view()
}

spec fn as_map(defs: Seq<SymbolDefinition>) -> SymbolMap {
    Map::new(|n: Seq<char>| has_name(defs, n), |n: Seq<char>| defs[position(defs, n)].cells_view())
}

proof fn lemma_position(defs: Seq<SymbolDefinition>, i: int)
    requires
        distinct_names(defs),
        0 <= i < defs.len(),
    ensures
        has_name(defs, defs[i].name_view()),
        position(defs, defs[i].name_view()) == i,
        as_map(defs).contains_key(defs[i].name_view()),
        as_map(defs)[defs[i].name_view()] == defs[i].cells_view(),
{
    let n = defs[i].name_view();
    assert(has_name(defs, n));
    let p = position(defs, n);
    assert(0 <= p < defs.len() && defs[p].name_view() == n);
    if p < i {
        assert(defs[p].name_view() != defs[i].name_view());
    } else if i < p {
        assert(defs[i].name_view() != defs[p].name_view());
    }
}

proof fn lemma_has_name(defs: Seq<SymbolDefinition>, name: Seq<char>)
    requires
        has_name(defs, name),
    ensures
        0 <= position(defs, name) < defs.len(),
        defs[position(defs, name)].name_view() == name,
{
}

proof fn lemma_push(defs: Seq<SymbolDefinition>, d: SymbolDefinition)
    requires
        distinct_names(defs),
        !has_name(defs, d.name_view()),
    ensures
        distinct_names(defs.push(d)),
        as_map(defs.push(d)) == as_map(defs).insert(d.name_view(), d.cells_view()),
{
    let after = defs.push(d);
    assert forall|i: int, j: int| 0 <= i < j < after.len() implies (#[trigger] after[i]).name_view()
        != (#[trigger] after[j]).name_view() by {
        if j == defs.len() {
            assert(after[i] == defs[i]);
            if defs[i].name_view() == d.name_view() {
                assert(has_name(defs, d.name_view()));
            }
        } else {
            assert(after[i] == defs[i] && after[j] == defs[j]);
        }
    }
    lemma_same_names(defs, after, defs.len() as int);
}

/// Two lists that agree but at `at`, where only the cells may differ (or
/// where the second list has one definition more), give maps that agree but
/// at that definition's name.
proof fn lemma_same_names(before: Seq<SymbolDefinition>, after: Seq<SymbolDefinition>, at: int)
    requires
        distinct_names(before),
        distinct_names(after),
        0 <= at < after.len(),
        at <= before.len() <= after.len() <= before.len() + 1,
        after.len() == before.len() + 1 ==> at == before.len(),
        forall|i: int| 0 <= i < before.len() && i != at ==> before[i] == after[i],
        at < before.len() ==> before[at].name_view() == after[at].name_view(),
    ensures
        as_map(after) == as_map(before).insert(after[at].name_view(), after[at].cells_view()),
{
    let target = as_map(before).insert(after[at].name_view(), after[at].cells_view());
    assert forall|n: Seq<char>| as_map(after).contains_key(n) == target.contains_key(n) by {
        if has_name(after, n) {
            lemma_has_name(after, n);
            let p = position(after, n);
            if p != at {
                assert(before[p].name_view() == n);
                assert(has_name(before, n));
            }
        }
        if has_name(before, n) {
            lemma_has_name(before, n);
            let p = position(before, n);
            assert(after[p].name_view() == n);
            assert(has_name(after, n));
        }
        if n == after[at].name_view() {
            assert(has_name(after, n));
        }
    }
    assert forall|n: Seq<char>| as_map(after).contains_key(n) implies as_map(after)[n] == target[n] by {
        lemma_has_name(after, n);
        let p = position(after, n);
        lemma_position(after, p);
        if p != at {
            lemma_position(before, p);
            if n == after[at].name_view() {
                lemma_position(after, at);
            }
        }
    }
    assert(as_map(after) =~= target);
}

/// The symbols of one parse. A name is held once; defining it again adds to
/// the cells it has.
pub struct SymbolTable {
    defs: Vec<SymbolDefinition>,
}

impl View for SymbolTable {
    type V = SymbolMap;

    closed spec fn view(&self) -> SymbolMap {
        as_map(self.defs@)
    }
}

impl SymbolTable {
    /// No name is held twice.
    pub closed spec fn wf(&self) -> bool {
        distinct_names(self.defs@)
    }

    /// A table with no symbols.
    pub fn new() -> (r: Self)
        ensures
            r.wf(),
            r@ == SymbolMap::empty(),
    {
        let r = Self { defs: Vec::new() };
        assert(r@ =~= SymbolMap::empty());
        r
    }

    fn find(&self, name: &[char]) -> (r: Option<usize>)
        requires
            self.wf(),
        ensures
            r is Some <==> self@.contains_key(name@),
            r matches Some(i) ==> i < self.defs@.len() && self.defs@[i as int].name_view() == name@
                && self.defs@[i as int].cells_view() == self@[name@],
    {
        let n: usize = self.defs.len();
        let mut i: usize = 0;
        while i < n
            invariant
                i <= n,
                n == self.defs@.len(),
                self.wf(),
                forall|j: int| 0 <= j < i ==> (#[trigger] self.defs@[j]).name_view() != name@,
            decreases n - i,
        {
            if same_name(self.defs[i].name(), name) {
                proof {
                    lemma_position(self.defs@, i as int);
                }
                return Some(i);
            }
            i += 1;
        }
        proof {
            if has_name(self.defs@, name@) {
                lemma_has_name(self.defs@, name@);
            }
        }
        None
    }

    /// Tells whether `name` has been defined.
    pub fn contains(&self, name: &[char]) -> (r: bool)
        requires
            self.wf(),
        ensures
            r == self@.contains_key(name@),
    {
        self.find(name).is_some()
    }

    /// Opens a definition of `name`: a new name enters the table with no
    /// cells, a known one keeps its cells. The empty name is refused.
    pub fn define_or_extend(&mut self, name: &[char]) -> (r: Result<(), ParseErrorKind>)
        requires
            old(self).wf(),
        ensures
            final(self).wf(),
            name@.len() == 0 ==> r == Err::<(), ParseErrorKind>(ParseErrorKind::EmptySymbolName)
                && final(self)@ == old(self)@,
            name@.len() > 0 ==> r is Ok && final(self)@ == define_in(old(self)@, name@),
    {
        if name.len() == 0 {
            return Err(ParseErrorKind::EmptySymbolName);
        }
        if self.find(name).is_none() {
            let d = SymbolDefinition::new(name);
            proof {
                lemma_push(self.defs@, d);
            }
            self.defs.push(d);
        }
        Ok(())
    }

    /// Adds `cell` at the end of `name`'s cells. A name that is not in the
    /// table gets nothing.
    pub fn append_literal(&mut self, name: &[char], cell: CellCoords)
        requires
            old(self).wf(),
        ensures
            final(self).wf(),
            final(self)@ == append_literal_in(old(self)@, name@, cell),
    {
        match self.find(name) {
            Some(i) => {
                let ghost before = self.defs@;
                self.defs[i].push_cell(cell);
                proof {
                    lemma_update(before, self.defs@, i as int);
                }
            },
            None => {},
        }
    }

    /// Adds the cells of `other_name`, each moved by `offset`, at the end of
    /// `name`'s cells, in `other_name`'s order. Fails when `other_name` is
    /// not in the table; a `name` that is not in the table gets nothing.
    pub fn append_translated(&mut self, name: &[char], other_name: &[char], offset: CellCoords) -> (r:
        Result<(), ParseErrorKind>)
        requires
            old(self).wf(),
        ensures
            final(self).wf(),
            final(self)@ == append_translated_in(old(self)@, name@, other_name@, offset),
            old(self)@.contains_key(other_name@) ==> r is Ok,
            !old(self)@.contains_key(other_name@) ==> r == Err::<(), ParseErrorKind>(
                ParseErrorKind::UnknownSymbol,
            ),
    {
        let moved = match self.find(other_name) {
            Some(j) => translate_cells(self.defs[j].cells(), offset),
            None => {
                return Err(ParseErrorKind::UnknownSymbol);
            },
        };
        match self.find(name) {
            Some(i) => {
                let ghost before = self.defs@;
                self.defs[i].push_cells(moved.as_slice());
                proof {
                    lemma_update(before, self.defs@, i as int);
                }
            },
            None => {},
        }
        Ok(())
    }

    /// Gives the cells of `name`, each moved by `offset`, in the symbol's
    /// own order. Fails when `name` is not in the table.
    pub fn instantiate(&self, name: &[char], offset: CellCoords) -> (r: Result<
        Vec<CellCoords>,
        ParseErrorKind,
    >)
        requires
            self.wf(),
        ensures
            self@.contains_key(name@) ==> r is Ok && r->Ok_0@ == translate(self@[name@], offset),
            !self@.contains_key(name@) ==> r == Err::<Vec<CellCoords>, ParseErrorKind>(
                ParseErrorKind::UnknownSymbol,
            ),
    {
        match self.find(name) {
            Some(i) => Ok(translate_cells(self.defs[i].cells(), offset)),
            None => Err(ParseErrorKind::UnknownSymbol),
        }
    }
}

proof fn lemma_update(before: Seq<SymbolDefinition>, after: Seq<SymbolDefinition>, at: int)
    requires
        distinct_names(before),
        0 <= at < before.len(),
        after.len() == before.len(),
        forall|i: int| 0 <= i < before.len() && i != at ==> before[i] == after[i],
        before[at].name_view() == after[at].name_view(),
    ensures
        distinct_names(after),
        as_map(after) == as_map(before).insert(after[at].name_view(), after[at].cells_view()),
{
    assert forall|i: int, j: int| 0 <= i < j < after.len() implies (#[trigger] after[i]).name_view()
        != (#[trigger] after[j]).name_view() by {
        assert(before[i].name_view() != before[j].name_view());
    }
    lemma_same_names(before, after, at);
}

} // verus!
