//! What can go wrong while a life file is parsed.

use vstd::prelude::*;
use vstd::string::StringExecFns;

verus! {

/// The reasons for which a parse stops. Each of them is fatal: nothing is
/// yielded after it.
#[derive(Clone, Copy, Debug, PartialEq, Eq, Structural)]
pub enum ParseErrorKind {
    /// A definition line `:` with nothing after the colon.
    EmptySymbolName,
    /// A definition line inside a definition that is still open.
    NestedDefinition,
    /// A `;` line with no definition open.
    UnexpectedDefinitionEnd,
    /// A use of a symbol that has not been defined.
    UnknownSymbol,
    /// A coordinate pair that is not two non-negative integers around a comma.
    MalformedCoordinatePair,
    /// A live cell outside the grid.
    OutOfBoundsCoordinate,
    /// A use of a symbol outside a definition, before the grid's size.
    SymbolUsedBeforeDimensionsKnown,
    /// A line that starts with a character that begins no kind of line.
    UnrecognisedLineStart,
}

/// An error of a parse, with the place at which it was found.
#[derive(Clone, Debug, PartialEq, Eq)]
pub struct ParseError {
    /// What went wrong.
    pub kind: ParseErrorKind,
    /// The line at which it went wrong; the first line is line 1.
    pub line: usize,
    /// The path of the file that was parsed; `None` for text that came from
    /// memory.
    pub path: Option<String>,
}

/// A path as mathematics: its characters, where there is a path.
pub open spec fn path_view(path: Option<String>) -> Option<Seq<char>> {
    match path {
        Some(p) => Some(p@),
        None => None,
    }
}

/// Copies a path.
pub fn clone_path(path: &Option<String>) -> (r: Option<String>)
    ensures
        r == *path,
{
    match path {
        Some(p) => Some(p.clone()),
        None => None,
    }
}

/// What a message says of an error of each kind.
pub open spec fn kind_text(kind: ParseErrorKind) -> Seq<char> {
    match kind {
        ParseErrorKind::EmptySymbolName => "symbol has no name"@,
        ParseErrorKind::NestedDefinition => "nested symbol definition is not supported"@,
        ParseErrorKind::UnexpectedDefinitionEnd => "unexpected end of symbol definition"@,
        ParseErrorKind::UnknownSymbol => "unknown symbol"@,
        ParseErrorKind::MalformedCoordinatePair => "cannot parse a coordinate pair"@,
        ParseErrorKind::OutOfBoundsCoordinate => "cell location out of bounds"@,
        ParseErrorKind::SymbolUsedBeforeDimensionsKnown => "use of symbol before grid-size"@,
        ParseErrorKind::UnrecognisedLineStart => "unrecognised character"@,
    }
}

/// The character of a decimal digit.
pub open spec fn digit(d: nat) -> char {
    ((d + 0x30) as u8) as char
}

/// A number written in decimal digits, without leading zeros.
pub open spec fn decimal_text(n: nat) -> Seq<char>
    decreases n,
{
    if n < 10 {
        seq![digit(n)]
    } else {
        decimal_text(n / 10).push(digit(n % 10))
    }
}

/// The message of an error: what went wrong, at which line, and in which
/// file, `unknown` standing for text that came from no file.
pub open spec fn message_text(kind: ParseErrorKind, line: nat, path: Option<Seq<char>>) -> Seq<char> {
    "error: "@ + kind_text(kind) + ", at line "@ + decimal_text(line) + " of file '"@ + (match path {
        Some(p) => p,
        None => "unknown"@,
    }) + "'"@
}

fn digit_str(d: usize) -> (r: &'static str)
    requires
        d < 10,
    ensures
        r@ == seq![digit(d as nat)],
{
    proof {
        reveal_strlit("0");
        reveal_strlit("1");
        reveal_strlit("2");
        reveal_strlit("3");
        reveal_strlit("4");
        reveal_strlit("5");
        reveal_strlit("6");
        reveal_strlit("7");
        reveal_strlit("8");
        reveal_strlit("9");
    }
    let r = match d {
        0 => "0",
        1 => "1",
        2 => "2",
        3 => "3",
        4 => "4",
        5 => "5",
        6 => "6",
        7 => "7",
        8 => "8",
        _ => "9",
    };
    assert(r@ =~= seq![digit(d as nat)]);
    r
}

/// Writes `n` in decimal digits at the end of `text`.
pub fn push_decimal(text: &mut String, n: usize)
    ensures
        final(text)@ == old(text)@ + decimal_text(n as nat),
    decreases n,
{
    if n >= 10 {
        push_decimal(text, n / 10);
    }
    text.append(digit_str(n % 10));
    assert(text@ =~= old(text)@ + decimal_text(n as nat));
}

impl ParseErrorKind {
    /// Says in words what went wrong.
    pub fn text(&self) -> (r: &'static str)
        ensures
            r@ == kind_text(*self),
    {
        match self {
            ParseErrorKind::EmptySymbolName => "symbol has no name",
            ParseErrorKind::NestedDefinition => "nested symbol definition is not supported",
            ParseErrorKind::UnexpectedDefinitionEnd => "unexpected end of symbol definition",
            ParseErrorKind::UnknownSymbol => "unknown symbol",
            ParseErrorKind::MalformedCoordinatePair => "cannot parse a coordinate pair",
            ParseErrorKind::OutOfBoundsCoordinate => "cell location out of bounds",
            ParseErrorKind::SymbolUsedBeforeDimensionsKnown => "use of symbol before grid-size",
            ParseErrorKind::UnrecognisedLineStart => "unrecognised character",
        }
    }
}

impl ParseError {
    /// Gives the error as a line of text for a reader.
    pub fn message(&self) -> (r: String)
        ensures
            r@ == message_text(self.kind, self.line as nat, path_view(self.path)),
    {
        let mut text: String = String::from_str("error: ");
        text.append(self.kind.text());
        text.append(", at line ");
        push_decimal(&mut text, self.line);
        text.append(" of file '");
        match &self.path {
            Some(p) => {
                text.append(p.as_str());
            },
            None => {
                text.append("unknown");
            },
        }
        text.append("'");
        text
    }
}

} // verus!
