//! Reading a life file: the buffer that holds its bytes, the parser that
//! owns the buffer, and the stream of coordinate pairs that the parser
//! yields, the grid's size first and the live cells after it.

use vstd::prelude::*;
use vstd::slice::slice_subrange;
use vstd::slice::slice_to_vec;
use vstd::string::StrSliceExecFns;
use vstd::utf8::{decode_utf8, encode_utf8, valid_utf8};
use crate::error::{clone_path, message_text, path_view, ParseError, ParseErrorKind};
use crate::parser::{
    apply_line, in_bounds, initial_model, law_symbol_use_hands_out_moved_cells, lemma_apply_line_wf,
    lemma_line_keeps_grid_size, line_kind, model_wf, use_name, use_offset, LineKind, LineOutcome,
    ParserModel, ParserState,
};
use crate::text::{chars_of, parse_pair, parse_pair_slice, trim, trim_slice, CellCoords};

verus! {

pub type BufferType = u8;

pub type BufferSlice<'t> = &'t [BufferType];

/// The bytes of a life file, from a file or from a string.
pub struct ReadBuffer {
    buffer: Vec<u8>,
}

impl View for ReadBuffer {
    type V = Seq<u8>;

    closed spec fn view(&self) -> Seq<u8> {
        self.buffer@
    }
}

impl ReadBuffer {
    /// Initialises the buffer with the bytes of a string: its UTF-8 form.
    pub fn from_string(text: &str) -> (r: Self)
        ensures
            r@ == encode_utf8(text@),
    {
        Self { buffer: text.as_bytes_vec() }
    }

    /// Initialises the buffer with bytes that were read elsewhere.
    pub fn from_bytes(bytes: Vec<u8>) -> (r: Self)
        ensures
            r@ == bytes@,
    {
        Self { buffer: bytes }
    }

    /// Gives a reference to the contents of the buffer.
    pub fn as_vec(&self) -> (r: &Vec<u8>)
        ensures
            r@ == self@,
    {
        &self.buffer
    }

    /// Gives a reference to the contents of the buffer.
    pub fn as_slice(&self) -> (r: BufferSlice<'_>)
        ensures
            r@ == self@,
    {
        self.buffer.as_slice()
    }
}

/// The index of the first line feed at or after `pos`, or the length of
/// `bytes` when none follows.
pub open spec fn line_end(bytes: Seq<u8>, pos: int) -> int
    decreases bytes.len() - pos,
{
    if pos >= bytes.len() {
        bytes.len() as int
    } else if pos < 0 || bytes[pos] == 10 {
        pos
    } else {
        line_end(bytes, pos + 1)
    }
}

/// Where the line that follows the one at `pos` starts.
pub open spec fn after_line(bytes: Seq<u8>, pos: int) -> int {
    let end = line_end(bytes, pos);
    if end < bytes.len() {
        end + 1
    } else {
        end
    }
}

/// The text of the line that starts at `pos`, without the white space
/// around it. `None` when the line's bytes are not UTF-8.
pub open spec fn line_text(bytes: Seq<u8>, pos: int) -> Option<Seq<char>> {
    let raw = bytes.subrange(pos, line_end(bytes, pos));
    if valid_utf8(raw) {
        Some(trim(decode_utf8(raw)))
    } else {
        None
    }
}

/// A line that the reader passes over: an empty one, or a comment.
pub open spec fn is_skipped(text: Seq<char>) -> bool {
    text.len() == 0 || text[0] == '#'
}

pub proof fn lemma_line_end(bytes: Seq<u8>, pos: int)
    requires
        0 <= pos <= bytes.len(),
    ensures
        pos <= line_end(bytes, pos) <= bytes.len(),
        line_end(bytes, pos) < bytes.len() ==> bytes[line_end(bytes, pos)] == 10,
        forall|j: int| pos <= j < line_end(bytes, pos) ==> bytes[j] != 10,
        pos < bytes.len() ==> pos < after_line(bytes, pos) <= bytes.len(),
    decreases bytes.len() - pos,
{
    if pos < bytes.len() && bytes[pos] != 10 {
        lemma_line_end(bytes, pos + 1);
    }
}

/// The state of a stream between two pulls, as mathematics.
#[verifier::ext_equal]
pub struct StreamModel {
    /// The bytes of the file.
    pub bytes: Seq<u8>,
    /// How many of them have been read.
    pub pos: int,
    /// How many lines have been read.
    pub line_number: nat,
    /// Whether an error has ended the stream.
    pub done: bool,
    /// The state of the parse.
    pub parser: ParserModel,
}

/// An error as the stream's model gives it: its kind and its line.
pub struct Fault {
    pub kind: ParseErrorKind,
    pub line: nat,
}

pub open spec fn stream_wf(s: StreamModel) -> bool {
    &&& 0 <= s.pos <= s.bytes.len()
    &&& s.line_number <= s.pos
    &&& model_wf(s.parser)
}

/// Where a stream stands.
#[derive(Clone, Copy, Debug, PartialEq, Eq, Structural)]
pub enum StreamPhase {
    /// No pair has been yielded yet: the next one is the grid's size.
    AwaitingDimensions,
    /// The grid's size is known: the pairs yielded are live cells.
    Streaming,
    /// Nothing more is yielded: the input has ended with no cell waiting,
    /// or an error has ended the stream.
    Exhausted,
}

/// Where the stream `s` stands.
pub open spec fn phase_of(s: StreamModel) -> StreamPhase {
    if s.done || (s.parser.pending.len() == 0 && s.pos >= s.bytes.len()) {
        StreamPhase::Exhausted
    } else if s.parser.dims is None {
        StreamPhase::AwaitingDimensions
    } else {
        StreamPhase::Streaming
    }
}

/// The stream over `bytes` before the first pull.
pub open spec fn initial_stream(bytes: Seq<u8>) -> StreamModel {
    StreamModel { bytes, pos: 0, line_number: 0, done: false, parser: initial_model() }
}

/// Reads lines until one is neither empty nor a comment. Gives the stream
/// after the read and that line, trimmed; `None` at the end of the bytes
/// and at a line that is not UTF-8, which ends the input.
pub open spec fn read_line_of(s: StreamModel) -> (StreamModel, Option<Seq<char>>)
    decreases s.bytes.len() - s.pos,
    when 0 <= s.pos <= s.bytes.len()
    via read_line_decreases
{
    if s.pos >= s.bytes.len() {
        (s, None)
    } else {
        let read = StreamModel {
            pos: after_line(s.bytes, s.pos),
            line_number: s.line_number + 1,
            ..s
        };
        match line_text(s.bytes, s.pos) {
            None => (StreamModel { pos: s.bytes.len() as int, ..read }, None),
            Some(text) => if is_skipped(text) {
                read_line_of(read)
            } else {
                (read, Some(text))
            },
        }
    }
}

#[via_fn]
proof fn read_line_decreases(s: StreamModel) {
    lemma_line_end(s.bytes, s.pos);
}

pub proof fn lemma_read_line(s: StreamModel)
    requires
        stream_wf(s),
    ensures
        stream_wf(read_line_of(s).0),
        read_line_of(s).0.bytes == s.bytes,
        read_line_of(s).0.done == s.done,
        read_line_of(s).0.parser == s.parser,
        read_line_of(s).0.pos >= s.pos,
        read_line_of(s).1 matches Some(text) ==> read_line_of(s).0.pos > s.pos && !is_skipped(text),
        read_line_of(s).1 is None ==> read_line_of(s).0.pos == s.bytes.len(),
    decreases s.bytes.len() - s.pos,
{
    if s.pos < s.bytes.len() {
        lemma_line_end(s.bytes, s.pos);
        let read = StreamModel {
            pos: after_line(s.bytes, s.pos),
            line_number: s.line_number + 1,
            ..s
        };
        match line_text(s.bytes, s.pos) {
            None => {},
            Some(text) => {
                if is_skipped(text) {
                    lemma_read_line(read);
                }
            },
        }
    }
}

/// One pull. A stream that an error has ended yields nothing more. Cells
/// that wait are yielded first, the last one first. Otherwise lines are
/// read until one yields a cell, one is in error, or the input ends.
pub open spec fn next_of(s: StreamModel) -> (StreamModel, Option<Result<CellCoords, Fault>>)
    decreases s.bytes.len() - s.pos,
    when stream_wf(s)
    via next_decreases
{
    if s.done {
        (s, None)
    } else if s.parser.pending.len() > 0 {
        (
            StreamModel {
                parser: ParserModel { pending: s.parser.pending.drop_last(), ..s.parser },
                ..s
            },
            Some(Ok(s.parser.pending.last())),
        )
    } else {
        let (read, line) = read_line_of(s);
        match line {
            None => (read, None),
            Some(text) => match apply_line(s.parser, text) {
                LineOutcome::Continue(p) => next_of(StreamModel { parser: p, ..read }),
                LineOutcome::Emit(p, cell) => (StreamModel { parser: p, ..read }, Some(Ok(cell))),
                LineOutcome::Fail(kind) => (
                    StreamModel { done: true, ..read },
                    Some(Err(Fault { kind, line: read.line_number })),
                ),
            },
        }
    }
}

#[via_fn]
proof fn next_decreases(s: StreamModel) {
    lemma_read_line(s);
    let (read, line) = read_line_of(s);
    if !s.done && s.parser.pending.len() == 0 && line is Some {
        lemma_apply_line_wf(s.parser, line->Some_0);
    }
}

/// A pull moves the stream on: it never goes back in the bytes, and where
/// it yields a cell it either reads on or takes one of the waiting cells.
pub proof fn lemma_next_progress(s: StreamModel)
    requires
        stream_wf(s),
    ensures
        stream_wf(next_of(s).0),
        next_of(s).0.bytes == s.bytes,
        next_of(s).0.pos >= s.pos,
        next_of(s).1 is Some ==> !s.done,
        next_of(s).1 matches Some(Ok(_)) ==> !next_of(s).0.done && (next_of(s).0.pos > s.pos || (
            next_of(s).0.pos == s.pos && next_of(s).0.parser.pending.len()
                < s.parser.pending.len())),
        next_of(s).1 matches Some(Err(_)) ==> next_of(s).0.done,
    decreases s.bytes.len() - s.pos,
{
    if s.done {
    } else if s.parser.pending.len() > 0 {
        let p = ParserModel { pending: s.parser.pending.drop_last(), ..s.parser };
        assert forall|i: int| 0 <= i < p.pending.len() implies s.parser.dims is Some
            && in_bounds(#[trigger] p.pending[i], s.parser.dims->Some_0) by {
            assert(p.pending[i] == s.parser.pending[i]);
        }
    } else {
        lemma_read_line(s);
        let (read, line) = read_line_of(s);
        match line {
            None => {},
            Some(text) => {
                lemma_apply_line_wf(s.parser, text);
                match apply_line(s.parser, text) {
                    LineOutcome::Continue(p) => {
                        lemma_next_progress(StreamModel { parser: p, ..read });
                    },
                    _ => {},
                }
            },
        }
    }
}

/// Every pull until the stream ends: the cells yielded, in order, and the
/// error that ended the stream, if one did.
pub open spec fn collect_of(s: StreamModel) -> (Seq<CellCoords>, Option<Fault>)
    decreases s.bytes.len() - s.pos, s.parser.pending.len(),
    when stream_wf(s)
    via collect_decreases
{
    let (after, pulled) = next_of(s);
    match pulled {
        None => (Seq::empty(), None),
        Some(Err(fault)) => (Seq::empty(), Some(fault)),
        Some(Ok(cell)) => {
            let (rest, fault) = collect_of(after);
            (seq![cell] + rest, fault)
        },
    }
}

#[via_fn]
proof fn collect_decreases(s: StreamModel) {
    lemma_next_progress(s);
}

/// Calls std's `str::from_utf8`. The contract says, in vstd's account of
/// UTF-8, that the call succeeds on well-formed bytes and on no others, and
/// that the text it gives is the bytes decoded.
#[verifier::external_body]
fn utf8_text<'a>(bytes: &'a [u8]) -> (r: Option<&'a str>)
    ensures
        r is Some <==> valid_utf8(bytes@),
        r matches Some(text) ==> text@ == decode_utf8(bytes@),
{
    std::str::from_utf8(bytes).ok()
}

/// Parses the contents of a life file.
///
/// A life file holds the size of a grid and the live cells that the grid
/// starts with. The consumer sees a stream of coordinate pairs: the first is
/// the width and height of the grid, the others are the live cells.
pub struct FileParser {
    buffer: ReadBuffer,
    path: Option<String>,
    allow_fatal: bool,
}

impl FileParser {
    pub closed spec fn buffer_view(&self) -> Seq<u8> {
        self.buffer@
    }

    pub closed spec fn path(&self) -> Option<String> {
        self.path
    }

    /// Whether an error may end the process. When it may not, the caller is
    /// handed the error.
    pub closed spec fn allows_fatal(&self) -> bool {
        self.allow_fatal
    }

    /// Initialise the parser from the contents of a string.
    pub fn from_string(contents: &str) -> (r: Self)
        ensures
            r.buffer_view() == encode_utf8(contents@),
            r.path() is None,
            r.allows_fatal(),
    {
        Self::init(ReadBuffer::from_string(contents), None)
    }

    /// Initialise the parser with a buffer that has been filled, and with
    /// the path that the bytes came from, if they came from a file.
    pub fn init(buffer: ReadBuffer, path: Option<String>) -> (r: Self)
        ensures
            r.buffer_view() == buffer@,
            r.path() == path,
            r.allows_fatal(),
    {
        Self { buffer, path, allow_fatal: true }
    }

    /// Gives the stream of the file's coordinate pairs, before the first
    /// pull.
    pub fn iter(&mut self) -> (r: FileIterator<'_>)
        ensures
            r.wf(),
            r@ == initial_stream(old(self).buffer_view()),
            r.path() == old(self).path(),
            r.allows_fatal() == old(self).allows_fatal(),
            *final(self) == *old(self),
    {
        let r = FileIterator {
            bytes: self.buffer.as_slice(),
            pos: 0,
            path: clone_path(&self.path),
            line_number: 0,
            allow_fatal: self.allow_fatal,
            done: false,
            state: ParserState::new(),
        };
        proof {
            r.state.lemma_wf();
            assert(r@ =~= initial_stream(self.buffer@));
        }
        r
    }

    /// Gives a reference to the internal buffer.
    pub fn get_buffer(&self) -> (r: &ReadBuffer)
        ensures
            r@ == self.buffer_view(),
    {
        &self.buffer
    }

    /// Gives the path, if any.
    pub fn get_path(&self) -> (r: Option<String>)
        ensures
            r == self.path(),
    {
        clone_path(&self.path)
    }

    /// Asks that an error be handed to the caller and never end the
    /// process.
    pub fn set_test(&mut self)
        ensures
            !final(self).allows_fatal(),
            final(self).buffer_view() == old(self).buffer_view(),
            final(self).path() == old(self).path(),
    {
        self.allow_fatal = false;
    }
}

/// The stream of a life file's coordinate pairs.
pub struct FileIterator<'a> {
    bytes: &'a [u8],
    pos: usize,
    path: Option<String>,
    line_number: usize,
    allow_fatal: bool,
    done: bool,
    state: ParserState,
}

impl<'a> View for FileIterator<'a> {
    type V = StreamModel;

    closed spec fn view(&self) -> StreamModel {
        StreamModel {
            bytes: self.bytes@,
            pos: self.pos as int,
            line_number: self.line_number as nat,
            done: self.done,
            parser: self.state@,
        }
    }
}

/// What is done with an error of the parse.
#[derive(Clone, Copy, Debug, PartialEq, Eq, Structural)]
pub enum ReportingMode {
    /// The error's message is printed and the process ends.
    Terminate,
    /// The error is handed to the caller, who goes on.
    Propagate,
}

/// What the program is to do with an error.
#[derive(Debug, PartialEq, Eq)]
pub enum Report {
    /// Print this message and end the process.
    Exit(String),
    /// Hand this error to the caller.
    Raise(ParseError),
}

/// What a pull returned, as the model gives it.
pub open spec fn pulled_view(r: Option<Result<CellCoords, ParseError>>) -> Option<Result<CellCoords, Fault>> {
    match r {
        None => None,
        Some(Ok(cell)) => Some(Ok(cell)),
        Some(Err(e)) => Some(Err(Fault { kind: e.kind, line: e.line as nat })),
    }
}

impl<'a> FileIterator<'a> {
    pub closed spec fn wf(&self) -> bool {
        stream_wf(self@) && self.state.wf()
    }

    pub closed spec fn path(&self) -> Option<String> {
        self.path
    }

    pub closed spec fn allows_fatal(&self) -> bool {
        self.allow_fatal
    }

    /// A well-formed stream has a well-formed model.
    pub proof fn lemma_wf(&self)
        requires
            self.wf(),
        ensures
            stream_wf(self@),
    {
    }

    /// Tells whether an error may end the process.
    pub fn allow_fatal(&self) -> (r: bool)
        ensures
            r == self.allows_fatal(),
    {
        self.allow_fatal
    }

    /// Tells what is done with an error of this stream.
    pub fn reporting_mode(&self) -> (r: ReportingMode)
        ensures
            r == (if self.allows_fatal() {
                ReportingMode::Terminate
            } else {
                ReportingMode::Propagate
            }),
    {
        if self.allow_fatal {
            ReportingMode::Terminate
        } else {
            ReportingMode::Propagate
        }
    }

    /// Says what the program is to do with `error`: to end with the
    /// error's message where the stream's errors end the process, to hand
    /// the error on where they do not.
    pub fn report(&self, error: ParseError) -> (r: Report)
        ensures
            self.allows_fatal() ==> (r matches Report::Exit(message) && message@ == message_text(
                error.kind,
                error.line as nat,
                path_view(error.path),
            )),
            !self.allows_fatal() ==> r == Report::Raise(error),
    {
        if self.allow_fatal {
            Report::Exit(error.message())
        } else {
            Report::Raise(error)
        }
    }

    /// Tells where the stream stands.
    pub fn phase(&self) -> (r: StreamPhase)
        ensures
            r == phase_of(self@),
    {
        if self.done || (!self.state.has_buffered() && self.pos >= self.bytes.len()) {
            StreamPhase::Exhausted
        } else if self.state.grid_dimensions().is_none() {
            StreamPhase::AwaitingDimensions
        } else {
            StreamPhase::Streaming
        }
    }

    /// The number of lines read so far.
    pub fn line_number(&self) -> (r: usize)
        ensures
            r == self@.line_number,
    {
        self.line_number
    }

    /// Converts a string containing a numeric pair into the pair.
    pub fn parse_pair(pair: &str) -> (r: Option<CellCoords>)
        ensures
            r == parse_pair(pair@),
    {
        let chars = chars_of(pair);
        parse_pair_slice(chars.as_slice())
    }

    /// Reads a line, ignoring comments and blank lines. Gives the line
    /// without the white space around it, or `None` when the input has
    /// ended.
    pub fn read_line(&mut self) -> (r: Option<Vec<char>>)
        requires
            old(self).wf(),
        ensures
            final(self).wf(),
            final(self)@ == read_line_of(old(self)@).0,
            match r {
                Some(line) => read_line_of(old(self)@).1 == Some(line@),
                None => read_line_of(old(self)@).1 is None,
            },
            final(self).path() == old(self).path(),
            final(self).allows_fatal() == old(self).allows_fatal(),
    {
        let n: usize = self.bytes.len();
        loop
            invariant
                self.wf(),
                n == self.bytes@.len(),
                read_line_of(self@) == read_line_of(old(self)@),
                self.path == old(self).path,
                self.allow_fatal == old(self).allow_fatal,
            decreases n - self.pos,
        {
            if self.pos >= n {
                return None;
            }
            let start: usize = self.pos;
            let mut end: usize = start;
            while end < n && self.bytes[end] != 10
                invariant
                    start <= end <= n,
                    n == self.bytes@.len(),
                    forall|j: int| start <= j < end ==> self.bytes@[j] != 10,
                decreases n - end,
            {
                end += 1;
            }
            proof {
                lemma_line_end(self.bytes@, start as int);
                let e = line_end(self.bytes@, start as int);
                if e < end {
                    assert(self.bytes@[e] != 10);
                }
            }
            let ghost before = self@;
            self.pos = if end < n { end + 1 } else { end };
            self.line_number = self.line_number + 1;
            match utf8_text(slice_subrange(self.bytes, start, end)) {
                None => {
                    self.pos = n;
                    assert(self@ =~= read_line_of(before).0);
                    return None;
                },
                Some(text) => {
                    let chars = chars_of(text);
                    let line = trim_slice(chars.as_slice());
                    if line.len() == 0 || line[0] == '#' {
                        assert(is_skipped(line@));
                        assert(self@ =~= (StreamModel {
                            pos: after_line(before.bytes, before.pos),
                            line_number: before.line_number + 1,
                            ..before
                        }));
                        continue ;
                    }
                    assert(self@ =~= read_line_of(before).0);
                    return Some(slice_to_vec(line));
                },
            }
        }
    }

    /// Makes the error of kind `kind` at the line that was read last.
    pub fn fatal_error(&self, kind: ParseErrorKind) -> (r: ParseError)
        ensures
            r.kind == kind,
            r.line == self@.line_number,
            r.path == self.path(),
    {
        ParseError { kind, line: self.line_number, path: clone_path(&self.path) }
    }

    /// Gives the next coordinate pair: `Some(Ok(..))` for a pair,
    /// `Some(Err(..))` once for the error that ends the stream, `None` when
    /// the stream has ended.
    pub fn next(&mut self) -> (r: Option<Result<CellCoords, ParseError>>)
        requires
            old(self).wf(),
        ensures
            final(self).wf(),
            final(self)@ == next_of(old(self)@).0,
            pulled_view(r) == next_of(old(self)@).1,
            r matches Some(Err(e)) ==> e.path == old(self).path(),
            final(self).path() == old(self).path(),
            final(self).allows_fatal() == old(self).allows_fatal(),
    {
        let n: usize = self.bytes.len();
        loop
            invariant
                self.wf(),
                n == self.bytes@.len(),
                next_of(self@) == next_of(old(self)@),
                self.path == old(self).path,
                self.allow_fatal == old(self).allow_fatal,
            decreases n - self.pos,
        {
            if self.done {
                return None;
            }
            let ghost before = self@;
            match self.state.pop_buffered() {
                Some(cell) => {
                    assert(self@ =~= next_of(before).0);
                    return Some(Ok(cell));
                },
                None => {},
            }
            proof {
                lemma_read_line(before);
            }
            match self.read_line() {
                None => {
                    return None;
                },
                Some(line) => {
                    let ghost read = self@;
                    match self.state.apply_line(line.as_slice()) {
                        Ok(None) => {
                            proof {
                                self.state.lemma_wf();
                                assert(self@ =~= (StreamModel { parser: self.state@, ..read }));
                            }
                        },
                        Ok(Some(cell)) => {
                            proof {
                                self.state.lemma_wf();
                                assert(self@ =~= (StreamModel { parser: self.state@, ..read }));
                            }
                            return Some(Ok(cell));
                        },
                        Err(kind) => {
                            self.done = true;
                            assert(self@ =~= (StreamModel { done: true, ..read }));
                            return Some(Err(self.fatal_error(kind)));
                        },
                    }
                },
            }
        }
    }

    /// Pulls until the stream ends. Gives every pair that the stream yields,
    /// in order, or the error that ends it.
    pub fn collect(self) -> (r: Result<Vec<CellCoords>, ParseError>)
        requires
            self.wf(),
        ensures
            match collect_of(self@).1 {
                None => r matches Ok(cells) && cells@ == collect_of(self@).0,
                Some(fault) => r matches Err(e) && e.kind == fault.kind && e.line == fault.line
                    && e.path == self.path(),
            },
    {
        let ghost start = self@;
        let ghost path = self.path;
        let mut stream = self;
        let mut cells: Vec<CellCoords> = Vec::new();
        proof {
            stream.lemma_wf();
        }
        loop
            invariant
                stream.wf(),
                stream_wf(start),
                start == self@,
                path == self.path,
                stream.path == path,
                collect_of(start).0 == cells@ + collect_of(stream@).0,
                collect_of(start).1 == collect_of(stream@).1,
            decreases stream@.bytes.len() - stream@.pos, stream@.parser.pending.len(),
        {
            proof {
                stream.lemma_wf();
                lemma_next_progress(stream@);
            }
            
            match stream.next() {
                None => {
                    assert(cells@ + Seq::<CellCoords>::empty() =~= cells@);
                    return Ok(cells);
                },
                Some(Err(e)) => {
                    return Err(e);
                },
                Some(Ok(cell)) => {
                    cells.push(cell);
                    assert(cells@ + collect_of(stream@).0 =~= cells@.drop_last() + (seq![cell]
                        + collect_of(stream@).0));
                },
            }
        }
    }
}

/// The stream after `count` pulls.
pub open spec fn after_pulls(s: StreamModel, count: nat) -> StreamModel
    decreases count,
{
    if count == 0 {
        s
    } else {
        next_of(after_pulls(s, (count - 1) as nat)).0
    }
}

/// The first pair that a stream yields is the grid's size: it is the pair
/// against which every later cell is held.
pub proof fn law_first_item_is_grid_size(s: StreamModel, cell: CellCoords)
    requires
        stream_wf(s),
        s.parser.dims is None,
        next_of(s).1 == Some(Ok::<CellCoords, Fault>(cell)),
    ensures
        next_of(s).0.parser.dims == Some(cell),
    decreases s.bytes.len() - s.pos,
{
    lemma_read_line(s);
    let (read, line) = read_line_of(s);
    let text = line->Some_0;
    lemma_apply_line_wf(s.parser, text);
    match apply_line(s.parser, text) {
        LineOutcome::Continue(p) => {
            assert(p.dims is None) by {
                lemma_line_keeps_grid_size(s.parser, text);
            }
            law_first_item_is_grid_size(StreamModel { parser: p, ..read }, cell);
        },
        _ => {},
    }
}

/// With no cells waiting, a coordinate line outside a definition is
/// yielded by the pull that reads it: the first such line as the grid's
/// size, every later one, inside the grid, as a live cell. So these lines
/// are yielded in the order in which they stand in the file.
pub proof fn law_literal_lines_in_file_order(s: StreamModel, text: Seq<char>, pair: CellCoords)
    requires
        stream_wf(s),
        !s.done,
        s.parser.pending.len() == 0,
        s.parser.open is None,
        read_line_of(s).1 == Some(text),
        line_kind(text[0]) == LineKind::DimensionOrCell,
        parse_pair(text) == Some(pair),
        s.parser.dims matches Some(d) ==> in_bounds(pair, d),
    ensures
        next_of(s).1 == Some(Ok::<CellCoords, Fault>(pair)),
        next_of(s).0.pos == read_line_of(s).0.pos,
        next_of(s).0.parser.pending.len() == 0,
        next_of(s).0.parser.open is None,
        next_of(s).0.parser.dims == (if s.parser.dims is None {
            Some(pair)
        } else {
            s.parser.dims
        }),
{
}

/// The cells that wait leave before any line is read, the last one first:
/// pull number `k` yields the cell that stands `k` places before the end.
pub proof fn law_waiting_cells_leave_in_reverse(s: StreamModel, k: nat)
    requires
        stream_wf(s),
        !s.done,
        k < s.parser.pending.len(),
    ensures
        stream_wf(after_pulls(s, k)),
        after_pulls(s, k) == (StreamModel {
            parser: ParserModel {
                pending: s.parser.pending.take(s.parser.pending.len() - k),
                ..s.parser
            },
            ..s
        }),
        next_of(after_pulls(s, k)).1 == Some(
            Ok::<CellCoords, Fault>(s.parser.pending[s.parser.pending.len() - 1 - k]),
        ),
    decreases k,
{
    let n = s.parser.pending.len() as int;
    if k == 0 {
        assert(s.parser.pending.take(n) =~= s.parser.pending);
        assert(after_pulls(s, k) =~= s);
    } else {
        let j = (k - 1) as nat;
        law_waiting_cells_leave_in_reverse(s, j);
        let before = after_pulls(s, j);
        lemma_next_progress(before);
        assert(before.parser.pending.drop_last() =~= s.parser.pending.take(n - k));
        assert(after_pulls(s, k) =~= (StreamModel {
            parser: ParserModel { pending: s.parser.pending.take(n - k), ..s.parser },
            ..s
        }));
    }
}

/// Once the grid's size is known, every cell that the stream yields lies
/// inside the grid.
pub proof fn law_yielded_cells_are_in_bounds(s: StreamModel, dims: CellCoords, cell: CellCoords)
    requires
        stream_wf(s),
        s.parser.dims == Some(dims),
        next_of(s).1 == Some(Ok::<CellCoords, Fault>(cell)),
    ensures
        in_bounds(cell, dims),
        next_of(s).0.parser.dims == Some(dims),
    decreases s.bytes.len() - s.pos,
{
    if s.parser.pending.len() > 0 {
        assert(in_bounds(s.parser.pending[s.parser.pending.len() - 1], dims));
    } else {
        lemma_read_line(s);
        let (read, line) = read_line_of(s);
        let text = line->Some_0;
        lemma_apply_line_wf(s.parser, text);
        match apply_line(s.parser, text) {
            LineOutcome::Continue(p) => {
                lemma_line_keeps_grid_size(s.parser, text);
                law_yielded_cells_are_in_bounds(StreamModel { parser: p, ..read }, dims, cell);
            },
            _ => {},
        }
    }
}

/// The end of the input ends the stream without an error, also while a
/// definition is open: the definition is closed by the end of the input.
pub proof fn law_end_of_input_is_no_error(s: StreamModel)
    requires
        stream_wf(s),
        !s.done,
        s.parser.pending.len() == 0,
        s.pos == s.bytes.len(),
    ensures
        next_of(s) == (s, None::<Result<CellCoords, Fault>>),
        collect_of(s) == (Seq::<CellCoords>::empty(), None::<Fault>),
{
}

/// After an error the stream yields nothing more.
pub proof fn law_error_ends_the_stream(s: StreamModel)
    requires
        stream_wf(s),
        next_of(s).1 matches Some(Err(_)),
    ensures
        next_of(next_of(s).0).1 is None,
{
    lemma_next_progress(s);
}

/// `count + 1` pulls are one pull and then `count` more.
pub proof fn lemma_after_pulls_shift(s: StreamModel, count: nat)
    ensures
        after_pulls(s, count + 1) == after_pulls(next_of(s).0, count),
    decreases count,
{
    let first = next_of(s).0;
    assert(after_pulls(s, count + 1) == next_of(after_pulls(s, count)).0);
    if count > 0 {
        lemma_after_pulls_shift(s, (count - 1) as nat);
        assert(after_pulls(first, count) == next_of(after_pulls(first, (count - 1) as nat)).0);
    } else {
        assert(after_pulls(s, 0) == s);
        assert(after_pulls(first, 0) == first);
    }
}

/// A use of a symbol outside a definition, read with no cells waiting, is
/// yielded by the pull that reads it and by the pulls after it, one cell of
/// the symbol each: as many pulls as the symbol has cells, each cell the
/// stored one plus the offset, the last stored cell first. Pull number `k`
/// yields the cell that stands `k` places before the end, and after the
/// last of them no cell waits.
pub proof fn law_symbol_use_is_yielded_in_reverse(
    s: StreamModel,
    text: Seq<char>,
    offset: CellCoords,
    dims: CellCoords,
    k: nat,
)
    requires
        stream_wf(s),
        !s.done,
        s.parser.pending.len() == 0,
        s.parser.open is None,
        s.parser.dims == Some(dims),
        read_line_of(s).1 == Some(text),
        line_kind(text[0]) == LineKind::SymbolUse,
        use_offset(text) == Some(offset),
        s.parser.symbols.contains_key(use_name(text)),
        forall|i: int|
            0 <= i < s.parser.symbols[use_name(text)].len() ==> (
            #[trigger] s.parser.symbols[use_name(text)][i]).0 + offset.0 < dims.0
                && s.parser.symbols[use_name(text)][i].1 + offset.1 < dims.1,
        k < s.parser.symbols[use_name(text)].len(),
    ensures
        ({
            let stored = s.parser.symbols[use_name(text)];
            let last = stored.len() - 1;
            &&& next_of(after_pulls(s, k)).1 == Some(
                Ok::<CellCoords, Fault>(
                    ((stored[last - k].0 + offset.0) as usize, (stored[last - k].1 + offset.1) as usize),
                ),
            )
            &&& after_pulls(s, stored.len()).parser.pending.len() == 0
            &&& after_pulls(s, stored.len()).pos == read_line_of(s).0.pos
        }),
{
    let stored = s.parser.symbols[use_name(text)];
    let n = stored.len();
    lemma_read_line(s);
    lemma_apply_line_wf(s.parser, text);
    law_symbol_use_hands_out_moved_cells(s.parser, text, offset, dims);
    lemma_next_progress(s);
    let first = next_of(s).0;
    lemma_after_pulls_shift(s, (n - 1) as nat);
    assert(after_pulls(s, 0) == s);
    if n == 1 {
        assert(after_pulls(first, 0) == first);
    } else {
        law_waiting_cells_leave_in_reverse(first, (n - 2) as nat);
        lemma_next_progress(after_pulls(first, (n - 2) as nat));
        assert(after_pulls(first, (n - 1) as nat) == next_of(after_pulls(first, (n - 2) as nat)).0);
        assert(first.parser.pending.take(1).drop_last().len() == 0);
    }
    if k > 0 {
        lemma_after_pulls_shift(s, (k - 1) as nat);
        law_waiting_cells_leave_in_reverse(first, (k - 1) as nat);
    }
}

/// An exhausted stream yields nothing and stays exhausted, and a pull that
/// yields nothing leaves the stream exhausted.
pub proof fn law_exhausted_is_final(s: StreamModel)
    requires
        stream_wf(s),
    ensures
        phase_of(s) == StreamPhase::Exhausted ==> next_of(s) == (s, None::<Result<CellCoords, Fault>>),
        next_of(s).1 is None ==> phase_of(next_of(s).0) == StreamPhase::Exhausted,
    decreases s.bytes.len() - s.pos,
{
    if !s.done && s.parser.pending.len() == 0 {
        lemma_read_line(s);
        let (read, line) = read_line_of(s);
        match line {
            None => {},
            Some(text) => {
                lemma_apply_line_wf(s.parser, text);
                match apply_line(s.parser, text) {
                    LineOutcome::Continue(p) => {
                        law_exhausted_is_final(StreamModel { parser: p, ..read });
                    },
                    _ => {},
                }
            },
        }
    }
}

} // verus!
