//! The line-by-line rules of the life-file format: what each kind of line
//! does to the symbols, to the open definition and to the cells waiting to
//! be yielded.

use vstd::prelude::*;
use vstd::slice::slice_subrange;
use vstd::slice::slice_to_vec;
use crate::error::ParseErrorKind;
use crate::symbols::{
    append_literal_in, append_translated_in, define_in, translate, SymbolMap, SymbolTable,
};
use crate::text::{
    find_char, first_index, parse_pair, parse_pair_slice, trim, trim_slice, CellCoords,
};

verus! {

/// What std's `char::is_numeric` answers for `c`: whether `c` is in one of
/// Unicode's general categories for numbers.
pub uninterp spec fn numeric_char(c: char) -> bool;

/// What std's `char::is_alphanumeric` answers for `c`: whether `c` is
/// alphabetic or numeric in Unicode's sense.
pub uninterp spec fn alphanumeric_char(c: char) -> bool;

/// Calls std's `char::is_numeric`. Nothing is proved of the answer: the
/// contract only gives it the name `numeric_char`.
#[verifier::external_body]
fn char_is_numeric(c: char) -> (r: bool)
    ensures
        r == numeric_char(c),
{
    c.is_numeric()
}

/// Calls std's `char::is_alphanumeric`. Nothing is proved of the answer:
/// the contract only gives it the name `alphanumeric_char`.
#[verifier::external_body]
fn char_is_alphanumeric(c: char) -> (r: bool)
    ensures
        r == alphanumeric_char(c),
{
    c.is_alphanumeric()
}

/// The kinds of line, told apart by a line's first character.
#[derive(Clone, Copy, Debug, PartialEq, Eq, Structural)]
pub enum LineKind {
    /// Starts with a numeric character: a coordinate pair.
    DimensionOrCell,
    /// Starts with `:` and opens a definition.
    DefinitionStart,
    /// Starts with `;` and closes the open definition.
    DefinitionEnd,
    /// Starts with another alphanumeric character: `name x,y`.
    SymbolUse,
    /// Starts with anything else.
    Unrecognised,
}

/// The kind of a line that starts with `first`, where `numeric` and
/// `alphanumeric` say whether `first` is a numeric and whether it is an
/// alphanumeric character. A numeric character starts a coordinate line,
/// also where it is no decimal digit.
pub open spec fn kind_of(first: char, numeric: bool, alphanumeric: bool) -> LineKind {
    if numeric {
        LineKind::DimensionOrCell
    } else if first == ':' {
        LineKind::DefinitionStart
    } else if first == ';' {
        LineKind::DefinitionEnd
    } else if alphanumeric {
        LineKind::SymbolUse
    } else {
        LineKind::Unrecognised
    }
}

/// The kind of a line that starts with `first`.
pub open spec fn line_kind(first: char) -> LineKind {
    kind_of(first, numeric_char(first), alphanumeric_char(first))
}

/// Tells the kind of a line from its first character and from what is
/// known of that character.
pub fn kind_from(first: char, numeric: bool, alphanumeric: bool) -> (r: LineKind)
    ensures
        r == kind_of(first, numeric, alphanumeric),
{
    if numeric {
        LineKind::DimensionOrCell
    } else if first == ':' {
        LineKind::DefinitionStart
    } else if first == ';' {
        LineKind::DefinitionEnd
    } else if alphanumeric {
        LineKind::SymbolUse
    } else {
        LineKind::Unrecognised
    }
}

/// Tells the kind of a line from its first character.
pub fn classify(first: char) -> (r: LineKind)
    ensures
        r == line_kind(first),
{
    kind_from(first, char_is_numeric(first), char_is_alphanumeric(first))
}

/// `cell` lies inside a grid of size `dims`.
pub open spec fn in_bounds(cell: CellCoords, dims: CellCoords) -> bool {
    cell.0 < dims.0 && cell.1 < dims.1
}

pub open spec fn all_in_bounds(cells: Seq<CellCoords>, dims: CellCoords) -> bool {
    forall|i: int| 0 <= i < cells.len() ==> in_bounds(#[trigger] cells[i], dims)
}

/// The state of a parse between two lines, as mathematics.
#[verifier::ext_equal]
pub struct ParserModel {
    /// The symbols defined so far.
    pub symbols: SymbolMap,
    /// The name of the definition that is open, if one is.
    pub open: Option<Seq<char>>,
    /// The cells waiting to be yielded. The last one leaves first.
    pub pending: Seq<CellCoords>,
    /// The grid's size, once the first coordinate pair outside a definition
    /// has been read.
    pub dims: Option<CellCoords>,
}

/// What holds of the state between any two lines: the open definition is
/// in the table, and cells wait only once the grid's size is known, all of
/// them inside the grid.
pub open spec fn model_wf(m: ParserModel) -> bool {
    &&& m.open matches Some(name) ==> m.symbols.contains_key(name)
    &&& match m.dims {
        Some(d) => all_in_bounds(m.pending, d),
        None => m.pending.len() == 0,
    }
}

/// The state in which every parse starts.
pub open spec fn initial_model() -> ParserModel {
    ParserModel { symbols: SymbolMap::empty(), open: None, pending: Seq::empty(), dims: None }
}

/// What one line comes to.
#[verifier::ext_equal]
pub enum LineOutcome {
    /// The line yields nothing; the parse goes on in the state given.
    Continue(ParserModel),
    /// The line yields a cell; the parse goes on in the state given.
    Emit(ParserModel, CellCoords),
    /// The line is in error and the parse stops.
    Fail(ParseErrorKind),
}

/// A coordinate line. Inside a definition the pair joins the open symbol.
/// Outside, the first pair is the grid's size and is yielded as it is;
/// every later one is a live cell and must lie inside the grid.
pub open spec fn cell_line(m: ParserModel, line: Seq<char>) -> LineOutcome {
    match parse_pair(line) {
        None => LineOutcome::Fail(ParseErrorKind::MalformedCoordinatePair),
        Some(cell) => match m.open {
            Some(name) => LineOutcome::Continue(
                ParserModel { symbols: append_literal_in(m.symbols, name, cell), ..m },
            ),
            None => match m.dims {
                None => LineOutcome::Emit(ParserModel { dims: Some(cell), ..m }, cell),
                Some(d) => if in_bounds(cell, d) {
                    LineOutcome::Emit(m, cell)
                } else {
                    LineOutcome::Fail(ParseErrorKind::OutOfBoundsCoordinate)
                },
            },
        },
    }
}

/// The name on a definition line: what follows the colon, trimmed.
pub open spec fn definition_name(line: Seq<char>) -> Seq<char> {
    if line.len() == 0 {
        line
    } else {
        trim(line.subrange(1, line.len() as int))
    }
}

/// A line `:name`. It opens a definition, unless the name is empty or a
/// definition is open already.
pub open spec fn definition_start_line(m: ParserModel, line: Seq<char>) -> LineOutcome {
    let name = definition_name(line);
    if name.len() == 0 {
        LineOutcome::Fail(ParseErrorKind::EmptySymbolName)
    } else if m.open is Some {
        LineOutcome::Fail(ParseErrorKind::NestedDefinition)
    } else {
        LineOutcome::Continue(
            ParserModel { symbols: define_in(m.symbols, name), open: Some(name), ..m },
        )
    }
}

/// A line `;`. It closes the open definition.
pub open spec fn definition_end_line(m: ParserModel) -> LineOutcome {
    if m.open is None {
        LineOutcome::Fail(ParseErrorKind::UnexpectedDefinitionEnd)
    } else {
        LineOutcome::Continue(ParserModel { open: None, ..m })
    }
}

/// The symbol named on a use line: what stands before the first space.
pub open spec fn use_name(line: Seq<char>) -> Seq<char> {
    trim(line.subrange(0, first_index(line, ' ')))
}

/// The offset on a use line: the pair that follows the first space. `None`
/// when the line has no space or what follows is no pair.
pub open spec fn use_offset(line: Seq<char>) -> Option<CellCoords> {
    let k = first_index(line, ' ');
    if k >= line.len() {
        None
    } else {
        parse_pair(line.subrange(k + 1, line.len() as int))
    }
}

/// A line `name x,y`. Inside a definition the symbol's cells, moved by the
/// offset, join the open symbol. Outside, they join the waiting cells, and
/// the last of the waiting cells is yielded at once.
pub open spec fn symbol_use_line(m: ParserModel, line: Seq<char>) -> LineOutcome {
    let name = use_name(line);
    match use_offset(line) {
        None => LineOutcome::Fail(ParseErrorKind::MalformedCoordinatePair),
        Some(offset) => match m.open {
            Some(open) => if m.symbols.contains_key(name) {
                LineOutcome::Continue(
                    ParserModel {
                        symbols: append_translated_in(m.symbols, open, name, offset),
                        ..m
                    },
                )
            } else {
                LineOutcome::Fail(ParseErrorKind::UnknownSymbol)
            },
            None => match m.dims {
                None => LineOutcome::Fail(ParseErrorKind::SymbolUsedBeforeDimensionsKnown),
                Some(d) => if !m.symbols.contains_key(name) {
                    LineOutcome::Fail(ParseErrorKind::UnknownSymbol)
                } else if !all_in_bounds(translate(m.symbols[name], offset), d) {
                    LineOutcome::Fail(ParseErrorKind::OutOfBoundsCoordinate)
                } else {
                    let waiting = m.pending + translate(m.symbols[name], offset);
                    if waiting.len() == 0 {
                        LineOutcome::Continue(m)
                    } else {
                        LineOutcome::Emit(
                            ParserModel { pending: waiting.drop_last(), ..m },
                            waiting.last(),
                        )
                    }
                },
            },
        },
    }
}

/// What a line of the given kind comes to.
pub open spec fn apply_kind(m: ParserModel, kind: LineKind, line: Seq<char>) -> LineOutcome {
    match kind {
        LineKind::DimensionOrCell => cell_line(m, line),
        LineKind::DefinitionStart => definition_start_line(m, line),
        LineKind::DefinitionEnd => definition_end_line(m),
        LineKind::SymbolUse => symbol_use_line(m, line),
        LineKind::Unrecognised => LineOutcome::Fail(ParseErrorKind::UnrecognisedLineStart),
    }
}

/// What a line comes to, by the kind that its first character gives it.
/// A line without characters starts with nothing that begins a line.
pub open spec fn apply_line(m: ParserModel, line: Seq<char>) -> LineOutcome {
    if line.len() == 0 {
        LineOutcome::Fail(ParseErrorKind::UnrecognisedLineStart)
    } else {
        apply_kind(m, line_kind(line[0]), line)
    }
}

/// The outcome that a returned value and the state left behind stand for.
pub open spec fn outcome_of(after: ParserModel, r: Result<Option<CellCoords>, ParseErrorKind>) -> LineOutcome {
    match r {
        Ok(None) => LineOutcome::Continue(after),
        Ok(Some(cell)) => LineOutcome::Emit(after, cell),
        Err(kind) => LineOutcome::Fail(kind),
    }
}

/// Tells whether every cell of `cells` lies inside a grid of size `dims`.
pub fn all_within(cells: &[CellCoords], dims: CellCoords) -> (r: bool)
    ensures
        r == all_in_bounds(cells@, dims),
{
    let n: usize = cells.len();
    let mut i: usize = 0;
    while i < n
        invariant
            i <= n,
            n == cells@.len(),
            forall|j: int| 0 <= j < i ==> in_bounds(#[trigger] cells@[j], dims),
        decreases n - i,
    {
        let c: CellCoords = cells[i];
        if c.0 >= dims.0 || c.1 >= dims.1 {
            return false;
        }
        i += 1;
    }
    true
}

/// The state of a parse between two lines.
pub struct ParserState {
    symbols: SymbolTable,
    buffered_cells: Vec<CellCoords>,
    symbol_name: Option<Vec<char>>,
    grid_dimensions: Option<CellCoords>,
}

impl View for ParserState {
    type V = ParserModel;

    closed spec fn view(&self) -> ParserModel {
        ParserModel {
            symbols: self.symbols@,
            open: match self.symbol_name {
                Some(name) => Some(name@),
                None => None,
            },
            pending: self.buffered_cells@,
            dims: self.grid_dimensions,
        }
    }
}

impl ParserState {
    pub closed spec fn wf(&self) -> bool {
        self.symbols.wf() && model_wf(self@)
    }

    /// A well-formed state has a well-formed model.
    pub proof fn lemma_wf(&self)
        requires
            self.wf(),
        ensures
            model_wf(self@),
    {
    }

    /// The state before the first line: no symbols, no open definition, no
    /// cells waiting, the grid's size unknown.
    pub fn new() -> (r: Self)
        ensures
            r.wf(),
            r@ == initial_model(),
    {
        let r = Self {
            symbols: SymbolTable::new(),
            buffered_cells: Vec::new(),
            symbol_name: None,
            grid_dimensions: None,
        };
        assert(r@ =~= initial_model());
        r
    }

    /// The grid's size, once it has been read.
    pub fn grid_dimensions(&self) -> (r: Option<CellCoords>)
        ensures
            r == self@.dims,
    {
        self.grid_dimensions
    }

    /// Tells whether cells are waiting to be yielded.
    pub fn has_buffered(&self) -> (r: bool)
        ensures
            r == (self@.pending.len() > 0),
    {
        self.buffered_cells.len() > 0
    }

    /// Takes the cell that was buffered last; `None` when no cell waits.
    /// A cell that waits lies inside the grid.
    pub fn pop_buffered(&mut self) -> (r: Option<CellCoords>)
        requires
            old(self).wf(),
        ensures
            final(self).wf(),
            old(self)@.pending.len() == 0 ==> r is None && final(self)@ == old(self)@,
            old(self)@.pending.len() > 0 ==> r == Some(old(self)@.pending.last()),
            old(self)@.pending.len() > 0 ==> final(self)@ == (ParserModel {
                pending: old(self)@.pending.drop_last(),
                ..old(self)@
            }),
            old(self)@.pending.len() > 0 ==> old(self)@.dims is Some && in_bounds(
                old(self)@.pending.last(),
                old(self)@.dims->Some_0,
            ),
    {
        let r = self.buffered_cells.pop();
        proof {
            if old(self)@.pending.len() > 0 {
                assert(self@ =~= (ParserModel {
                    pending: old(self)@.pending.drop_last(),
                    ..old(self)@
                }));
                assert(old(self)@.pending[old(self)@.pending.len() - 1] == r->Some_0);
            } else {
                assert(self@ =~= old(self)@);
            }
        }
        r
    }

    /// Tells whether `(x, y)` may be a live cell: whether the grid's size is
    /// known and the cell lies inside the grid.
    pub fn validate_cell(&self, x: usize, y: usize) -> (r: Result<(), ParseErrorKind>)
        ensures
            r is Ok <==> (self@.dims matches Some(d) && in_bounds((x, y), d)),
            r matches Err(kind) ==> kind == ParseErrorKind::OutOfBoundsCoordinate,
    {
        match self.grid_dimensions {
            Some((width, height)) => {
                if x >= width || y >= height {
                    Err(ParseErrorKind::OutOfBoundsCoordinate)
                } else {
                    Ok(())
                }
            },
            None => Err(ParseErrorKind::OutOfBoundsCoordinate),
        }
    }

    /// Handles a coordinate line.
    pub fn parse_cell(&mut self, line: &[char]) -> (r: Result<Option<CellCoords>, ParseErrorKind>)
        requires
            old(self).wf(),
        ensures
            final(self).wf(),
            outcome_of(final(self)@, r) == cell_line(old(self)@, line@),
            r is Err ==> final(self)@ == old(self)@,
    {
        let cell = match parse_pair_slice(line) {
            Some(cell) => cell,
            None => {
                return Err(ParseErrorKind::MalformedCoordinatePair);
            },
        };
        match &self.symbol_name {
            Some(name) => {
                self.symbols.append_literal(name.as_slice(), cell);
                proof {
                    let expected = ParserModel {
                        symbols: append_literal_in(old(self)@.symbols, name@, cell),
                        ..old(self)@
                    };
                    assert(self@ =~= expected);
                }
                Ok(None)
            },
            None => {
                match self.grid_dimensions {
                    Some(_) => {
                        match self.validate_cell(cell.0, cell.1) {
                            Ok(()) => Ok(Some(cell)),
                            Err(kind) => Err(kind),
                        }
                    },
                    None => {
                        self.grid_dimensions = Some(cell);
                        assert(self@ =~= (ParserModel { dims: Some(cell), ..old(self)@ }));
                        Ok(Some(cell))
                    },
                }
            },
        }
    }

    /// Handles a line that opens a definition.
    pub fn parse_symbol_define_start(&mut self, line: &[char]) -> (r: Result<
        Option<CellCoords>,
        ParseErrorKind,
    >)
        requires
            old(self).wf(),
        ensures
            final(self).wf(),
            outcome_of(final(self)@, r) == definition_start_line(old(self)@, line@),
            r is Err ==> final(self)@ == old(self)@,
    {
        if line.len() == 0 {
            return Err(ParseErrorKind::EmptySymbolName);
        }
        let name = trim_slice(slice_subrange(line, 1, line.len()));
        if name.len() == 0 {
            return Err(ParseErrorKind::EmptySymbolName);
        }
        if self.symbol_name.is_some() {
            return Err(ParseErrorKind::NestedDefinition);
        }
        match self.symbols.define_or_extend(name) {
            Ok(()) => {},
            Err(kind) => {
                return Err(kind);
            },
        }
        self.symbol_name = Some(slice_to_vec(name));
        proof {
            let expected = ParserModel {
                symbols: define_in(old(self)@.symbols, name@),
                open: Some(name@),
                ..old(self)@
            };
            assert(self@ =~= expected);
        }
        Ok(None)
    }

    /// Handles a line that closes the open definition.
    pub fn parse_symbol_define_end(&mut self) -> (r: Result<Option<CellCoords>, ParseErrorKind>)
        requires
            old(self).wf(),
        ensures
            final(self).wf(),
            outcome_of(final(self)@, r) == definition_end_line(old(self)@),
            r is Err ==> final(self)@ == old(self)@,
    {
        if self.symbol_name.is_some() {
            self.symbol_name = None;
            assert(self@ =~= (ParserModel { open: None, ..old(self)@ }));
            Ok(None)
        } else {
            Err(ParseErrorKind::UnexpectedDefinitionEnd)
        }
    }

    /// Handles a line that uses a symbol.
    pub fn parse_symbol_use(&mut self, line: &[char]) -> (r: Result<Option<CellCoords>, ParseErrorKind>)
        requires
            old(self).wf(),
        ensures
            final(self).wf(),
            outcome_of(final(self)@, r) == symbol_use_line(old(self)@, line@),
            r is Err ==> final(self)@ == old(self)@,
    {
        let n: usize = line.len();
        let k: usize = find_char(line, ' ');
        if k >= n {
            return Err(ParseErrorKind::MalformedCoordinatePair);
        }
        let name = trim_slice(slice_subrange(line, 0, k));
        let offset = match parse_pair_slice(slice_subrange(line, k + 1, n)) {
            Some(offset) => offset,
            None => {
                return Err(ParseErrorKind::MalformedCoordinatePair);
            },
        };
        match &self.symbol_name {
            Some(open) => {
                match self.symbols.append_translated(open.as_slice(), name, offset) {
                    Ok(()) => {
                        proof {
                            let expected = ParserModel {
                                symbols: append_translated_in(
                                    old(self)@.symbols,
                                    open@,
                                    name@,
                                    offset,
                                ),
                                ..old(self)@
                            };
                            assert(self@ =~= expected);
                        }
                        Ok(None)
                    },
                    Err(kind) => {
                        assert(self@ =~= old(self)@);
                        Err(kind)
                    },
                }
            },
            None => {
                let dims = match self.grid_dimensions {
                    Some(dims) => dims,
                    None => {
                        return Err(ParseErrorKind::SymbolUsedBeforeDimensionsKnown);
                    },
                };
                let mut cells = match self.symbols.instantiate(name, offset) {
                    Ok(cells) => cells,
                    Err(kind) => {
                        return Err(kind);
                    },
                };
                if !all_within(cells.as_slice(), dims) {
                    return Err(ParseErrorKind::OutOfBoundsCoordinate);
                }
                let ghost moved = cells@;
                self.buffered_cells.append(&mut cells);
                let ghost waiting = old(self)@.pending + moved;
                assert(self.buffered_cells@ == waiting);
                match self.buffered_cells.pop() {
                    Some(cell) => {
                        proof {
                            let expected = ParserModel {
                                pending: waiting.drop_last(),
                                ..old(self)@
                            };
                            assert(self@ =~= expected);
                        }
                        Ok(Some(cell))
                    },
                    None => {
                        assert(self@ =~= old(self)@);
                        Ok(None)
                    },
                }
            },
        }
    }

    /// Handles one line of the given kind.
    pub fn apply_kind(&mut self, kind: LineKind, line: &[char]) -> (r: Result<
        Option<CellCoords>,
        ParseErrorKind,
    >)
        requires
            old(self).wf(),
        ensures
            final(self).wf(),
            outcome_of(final(self)@, r) == apply_kind(old(self)@, kind, line@),
            r is Err ==> final(self)@ == old(self)@,
    {
        match kind {
            LineKind::DimensionOrCell => self.parse_cell(line),
            LineKind::DefinitionStart => self.parse_symbol_define_start(line),
            LineKind::DefinitionEnd => self.parse_symbol_define_end(),
            LineKind::SymbolUse => self.parse_symbol_use(line),
            LineKind::Unrecognised => Err(ParseErrorKind::UnrecognisedLineStart),
        }
    }

    /// Handles one line, by the kind that its first character gives it.
    pub fn apply_line(&mut self, line: &[char]) -> (r: Result<Option<CellCoords>, ParseErrorKind>)
        requires
            old(self).wf(),
        ensures
            final(self).wf(),
            outcome_of(final(self)@, r) == apply_line(old(self)@, line@),
            r is Err ==> final(self)@ == old(self)@,
    {
        if line.len() == 0 {
            return Err(ParseErrorKind::UnrecognisedLineStart);
        }
        self.apply_kind(classify(line[0]), line)
    }
}

/// A line leaves a well-formed state well-formed.
pub proof fn lemma_apply_line_wf(m: ParserModel, line: Seq<char>)
    requires
        model_wf(m),
    ensures
        match apply_line(m, line) {
            LineOutcome::Continue(p) => model_wf(p) && p.pending == m.pending,
            LineOutcome::Emit(p, cell) => model_wf(p) && (m.dims matches Some(d) ==> p.dims == m.dims
                && in_bounds(cell, d)) && (m.dims is None ==> p.dims == Some(cell)),
            LineOutcome::Fail(_) => true,
        },
{
    match apply_line(m, line) {
        LineOutcome::Emit(p, cell) => {
            if m.dims is Some && m.open is None && line_kind(line[0])
                == LineKind::SymbolUse {
                let offset = use_offset(line)->Some_0;
                let name = use_name(line);
                let waiting = m.pending + translate(m.symbols[name], offset);
                let d = m.dims->Some_0;
                assert forall|i: int| 0 <= i < waiting.len() implies in_bounds(
                    #[trigger] waiting[i],
                    d,
                ) by {
                    if i < m.pending.len() {
                        assert(waiting[i] == m.pending[i]);
                    } else {
                        assert(waiting[i] == translate(m.symbols[name], offset)[i
                            - m.pending.len()]);
                    }
                }
                assert forall|i: int| 0 <= i < p.pending.len() implies in_bounds(
                    #[trigger] p.pending[i],
                    d,
                ) by {
                    assert(p.pending[i] == waiting[i]);
                }
            }
        },
        _ => {},
    }
}

/// A line that yields nothing leaves the grid's size as it was.
pub proof fn lemma_line_keeps_grid_size(m: ParserModel, line: Seq<char>)
    ensures
        apply_line(m, line) matches LineOutcome::Continue(p) ==> p.dims == m.dims,
{
}

/// The first coordinate line outside a definition gives the grid's size:
/// its pair is yielded as written, whatever its values, and is the bound
/// for every cell after it.
pub proof fn law_first_pair_is_grid_size(m: ParserModel, line: Seq<char>, pair: CellCoords)
    requires
        m.open is None,
        m.dims is None,
        line_kind(line[0]) == LineKind::DimensionOrCell,
        parse_pair(line) == Some(pair),
    ensures
        apply_line(m, line) == LineOutcome::Emit(ParserModel { dims: Some(pair), ..m }, pair),
{
}

/// Once the grid's size is known, a coordinate line outside a definition
/// yields its own pair and leaves the state as it was, so that such lines
/// are yielded in the order in which they stand.
pub proof fn law_literal_cell_is_yielded(m: ParserModel, line: Seq<char>, pair: CellCoords, dims: CellCoords)
    requires
        m.open is None,
        m.dims == Some(dims),
        line_kind(line[0]) == LineKind::DimensionOrCell,
        parse_pair(line) == Some(pair),
        in_bounds(pair, dims),
    ensures
        apply_line(m, line) == LineOutcome::Emit(m, pair),
{
}

/// A use of a symbol outside a definition, with no cells waiting, hands out
/// as many cells as the symbol holds, each the stored cell plus the offset.
/// The last of them is yielded at once and the others wait, so that they
/// leave in the reverse of the symbol's order.
pub proof fn law_symbol_use_hands_out_moved_cells(
    m: ParserModel,
    line: Seq<char>,
    offset: CellCoords,
    dims: CellCoords,
)
    requires
        m.open is None,
        m.dims == Some(dims),
        m.pending.len() == 0,
        line_kind(line[0]) == LineKind::SymbolUse,
        use_offset(line) == Some(offset),
        m.symbols.contains_key(use_name(line)),
        forall|i: int|
            0 <= i < m.symbols[use_name(line)].len() ==> (#[trigger] m.symbols[use_name(line)][i]).0
                + offset.0 < dims.0 && m.symbols[use_name(line)][i].1 + offset.1 < dims.1,
    ensures
        ({
            let stored = m.symbols[use_name(line)];
            match apply_line(m, line) {
                LineOutcome::Continue(p) => stored.len() == 0 && p == m,
                LineOutcome::Emit(p, cell) => {
                    &&& p == (ParserModel { pending: p.pending, ..m })
                    &&& p.pending.len() + 1 == stored.len()
                    &&& cell.0 == stored.last().0 + offset.0
                    &&& cell.1 == stored.last().1 + offset.1
                    &&& forall|i: int|
                        0 <= i < p.pending.len() ==> (#[trigger] p.pending[i]).0 == stored[i].0
                            + offset.0 && p.pending[i].1 == stored[i].1 + offset.1
                },
                LineOutcome::Fail(_) => false,
            }
        }),
{
    let stored = m.symbols[use_name(line)];
    let moved = translate(stored, offset);
    assert forall|i: int| 0 <= i < moved.len() implies in_bounds(#[trigger] moved[i], dims) by {
        assert(stored[i].0 + offset.0 < dims.0);
    }
    assert(m.pending + moved =~= moved);
    if moved.len() > 0 {
        assert(stored[stored.len() - 1].0 + offset.0 < dims.0);
        assert forall|i: int| 0 <= i < moved.drop_last().len() implies (
        #[trigger] moved.drop_last()[i]).0 == stored[i].0 + offset.0 && moved.drop_last()[i].1
            == stored[i].1 + offset.1 by {
            assert(stored[i].0 + offset.0 < dims.0);
            assert(moved.drop_last()[i] == moved[i]);
        }
    }
}

/// A use of a name that has not been defined is an error, inside a
/// definition and outside one.
pub proof fn law_unknown_symbol_is_refused(m: ParserModel, line: Seq<char>)
    requires
        line_kind(line[0]) == LineKind::SymbolUse,
        use_offset(line) is Some,
        !m.symbols.contains_key(use_name(line)),
        m.open is Some || m.dims is Some,
    ensures
        apply_line(m, line) == LineOutcome::Fail(ParseErrorKind::UnknownSymbol),
{
}

/// A use of a symbol outside a definition, before the grid's size has been
/// read, is an error.
pub proof fn law_symbol_use_needs_grid_size(m: ParserModel, line: Seq<char>)
    requires
        line_kind(line[0]) == LineKind::SymbolUse,
        use_offset(line) is Some,
        m.open is None,
        m.dims is None,
    ensures
        apply_line(m, line) == LineOutcome::Fail(ParseErrorKind::SymbolUsedBeforeDimensionsKnown),
{
}

/// Once the grid's size is known, a coordinate line outside a definition
/// whose pair lies outside the grid is an error.
pub proof fn law_literal_cell_out_of_bounds(m: ParserModel, line: Seq<char>, pair: CellCoords, dims: CellCoords)
    requires
        m.open is None,
        m.dims == Some(dims),
        line_kind(line[0]) == LineKind::DimensionOrCell,
        parse_pair(line) == Some(pair),
        pair.0 >= dims.0 || pair.1 >= dims.1,
    ensures
        apply_line(m, line) == LineOutcome::Fail(ParseErrorKind::OutOfBoundsCoordinate),
{
}

/// A use of a symbol outside a definition is an error when one of the
/// symbol's cells, moved by the offset, lies outside the grid.
pub proof fn law_symbol_cell_out_of_bounds(
    m: ParserModel,
    line: Seq<char>,
    offset: CellCoords,
    dims: CellCoords,
    i: int,
)
    requires
        m.open is None,
        m.dims == Some(dims),
        line_kind(line[0]) == LineKind::SymbolUse,
        use_offset(line) == Some(offset),
        m.symbols.contains_key(use_name(line)),
        0 <= i < m.symbols[use_name(line)].len(),
        m.symbols[use_name(line)][i].0 + offset.0 >= dims.0 || m.symbols[use_name(line)][i].1
            + offset.1 >= dims.1,
    ensures
        apply_line(m, line) == LineOutcome::Fail(ParseErrorKind::OutOfBoundsCoordinate),
{
    let moved = translate(m.symbols[use_name(line)], offset);
    assert(!in_bounds(moved[i], dims));
}

/// Inside a definition, a use of a symbol that has been defined adds that
/// symbol's cells, moved by the offset and in their order, to the open
/// symbol, and changes no other symbol; a use of a name that has not been
/// defined is an error.
pub proof fn law_composition(m: ParserModel, line: Seq<char>, offset: CellCoords, open: Seq<char>)
    requires
        model_wf(m),
        m.open == Some(open),
        line_kind(line[0]) == LineKind::SymbolUse,
        use_offset(line) == Some(offset),
    ensures
        m.symbols.contains_key(use_name(line)) ==> (apply_line(m, line) matches LineOutcome::Continue(p)
            && p.open == m.open && p.pending == m.pending && p.dims == m.dims && p.symbols.dom()
            == m.symbols.dom() && p.symbols[open] == m.symbols[open] + translate(
            m.symbols[use_name(line)],
            offset,
        ) && forall|other: Seq<char>|
            other != open && m.symbols.contains_key(other) ==> #[trigger] p.symbols[other]
                == m.symbols[other]),
        !m.symbols.contains_key(use_name(line)) ==> apply_line(m, line) == LineOutcome::Fail(
            ParseErrorKind::UnknownSymbol,
        ),
{
    if m.symbols.contains_key(use_name(line)) {
        let p = append_translated_in(m.symbols, open, use_name(line), offset);
        assert(p.dom() =~= m.symbols.dom());
    }
}

} // verus!
