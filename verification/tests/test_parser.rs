use conway_life::error::{ParseError, ParseErrorKind};
use conway_life::file::{FileIterator, FileParser, ReadBuffer, Report, ReportingMode, StreamPhase};

type Cell = (usize, usize);

static CELL_DATA: &[Cell] = &[(50, 25), (2, 4), (3, 5), (4, 6), (5, 7), (6, 8)];
static CELL_DATA_STRING: &str = "50,25\n2,4\n3,5\n4,6\n5,7\n6,8\n";

fn create_fileparser(contents: &str) -> FileParser {
    let mut parser = FileParser::from_string(contents);
    parser.set_test();

    parser
}

fn create_fileparser_from(contents: &[Cell]) -> FileParser {
    let mut arg = String::new();
    for (x, y) in contents {
        arg += format!("{},{}\n", x, y).as_str();
    }

    let mut parser = FileParser::from_string(arg.as_str());
    parser.set_test();

    parser
}

fn error_of(contents: &str) -> ParseError {
    let mut file = create_fileparser(contents);
    file.iter().collect().unwrap_err()
}

#[test]
fn fileparser_init_with_path() {
    let parser = FileParser::init(ReadBuffer::from_string("abc\ndef\nxyz"), Some(String::from("one/two/three")));

    assert_eq!(String::from_utf8(parser.get_buffer().as_vec().clone()).unwrap(), String::from("abc\ndef\nxyz"));
}

#[test]
fn fileparser_init_without_path() {
    let parser = FileParser::init(ReadBuffer::from_string("abc\ndef\nxyz"), None);

    assert_eq!(String::from_utf8(parser.get_buffer().as_vec().clone()).unwrap(), String::from("abc\ndef\nxyz"));
}

#[test]
fn fileparser_get_path_some() {
    let parser = FileParser::init(ReadBuffer::from_string("abc\ndef\nxyz"), Some(String::from("abc\ndef\nxyz")));

    assert_eq!(parser.get_path().unwrap(), String::from("abc\ndef\nxyz"));
}

#[test]
fn fileparser_get_path_none() {
    let parser = FileParser::init(ReadBuffer::from_string("abc\ndef\nxyz"), None);

    assert_eq!(parser.get_path(), None);
}

#[test]
fn fileparser_from_string() {
    let parser = FileParser::from_string(CELL_DATA_STRING);

    assert_eq!(String::from_utf8(parser.get_buffer().as_vec().clone()).unwrap(), String::from(CELL_DATA_STRING));
}

#[test]
fn fileparser_bad_char() {
    let contents = "50,25\n2,4\n3,5\n4,6\n!\n5,7\n6,8\n";
    let mut file = create_fileparser(&contents);
    let cells = file.iter().collect();

    assert_eq!(cells, Err(ParseError { kind: ParseErrorKind::UnrecognisedLineStart, line: 5, path: None }));
}

#[test]
fn fileparser_read_numbers_in_bounds() {
    let cells = &[(20, 10), (5, 5), (6, 6)];
    let mut file = create_fileparser_from(cells);
    let mut iter = file.iter();

    assert_eq!(iter.next().unwrap(), Ok(cells[0]));
    assert_eq!(iter.next().unwrap(), Ok(cells[1]));
    assert_eq!(iter.next().unwrap(), Ok(cells[2]));
}

#[test]
fn fileparser_read_numbers_out_bounds() {
    let cells = &[(20, 10), (21, 5), (6, 6)];
    let mut file = create_fileparser_from(cells);
    let mut iter = file.iter();

    assert_eq!(iter.next().unwrap(), Ok(cells[0]));
    assert_eq!(
        iter.next().unwrap(),
        Err(ParseError { kind: ParseErrorKind::OutOfBoundsCoordinate, line: 2, path: None })
    );
    assert_eq!(iter.next(), None);
}

#[test]
fn fileparser_read_numbers() {
    let mut file = create_fileparser_from(CELL_DATA);
    let mut iter = file.iter();

    assert_eq!(iter.next().unwrap(), Ok(CELL_DATA[0]));
    assert_eq!(iter.next().unwrap(), Ok(CELL_DATA[1]));
    assert_eq!(iter.next().unwrap(), Ok(CELL_DATA[2]));
}

#[test]
fn fileparser_read_numbers_until_last() {
    let mut file = create_fileparser_from(CELL_DATA);
    let mut iter = file.iter();

    assert_eq!(iter.next().unwrap(), Ok(CELL_DATA[0]));
    assert_eq!(iter.next().unwrap(), Ok(CELL_DATA[1]));
    assert_eq!(iter.next().unwrap(), Ok(CELL_DATA[2]));
    assert_eq!(iter.next().unwrap(), Ok(CELL_DATA[3]));
    assert_eq!(iter.next().unwrap(), Ok(CELL_DATA[4]));
    assert_eq!(iter.next().unwrap(), Ok(CELL_DATA[5]));
}

#[test]
fn fileparser_read_numbers_until_done() {
    let mut file = create_fileparser_from(CELL_DATA);
    let mut iter = file.iter();

    assert_eq!(iter.next().unwrap(), Ok(CELL_DATA[0]));
    assert_eq!(iter.next().unwrap(), Ok(CELL_DATA[1]));
    assert_eq!(iter.next().unwrap(), Ok(CELL_DATA[2]));
    assert_eq!(iter.next().unwrap(), Ok(CELL_DATA[3]));
    assert_eq!(iter.next().unwrap(), Ok(CELL_DATA[4]));
    assert_eq!(iter.next().unwrap(), Ok(CELL_DATA[5]));

    assert_eq!(iter.next(), None);
}

#[test]
fn fileparser_read_numbers_ignore_whitespace() {
    let mut file = create_fileparser("99, 88 \n\t2  ,4 \n  3,  5\n4, 6\n5  ,  7\t\n6,8");
    let mut iter = file.iter();

    assert_eq!(iter.next().unwrap(), Ok((99, 88)));
    assert_eq!(iter.next().unwrap(), Ok((2, 4)));
    assert_eq!(iter.next().unwrap(), Ok((3, 5)));
    assert_eq!(iter.next().unwrap(), Ok((4, 6)));
    assert_eq!(iter.next().unwrap(), Ok((5, 7)));
    assert_eq!(iter.next().unwrap(), Ok((6, 8)));
}

#[test]
fn fileparser_read_numbers_ignore_comments() {
    let mut file = create_fileparser("66,77\n#hello\n2,4\n3,5\n4,6\n#world\n5,7\n6,8");
    let mut iter = file.iter();

    assert_eq!(iter.next().unwrap(), Ok((66, 77)));
    assert_eq!(iter.next().unwrap(), Ok((2, 4)));
    assert_eq!(iter.next().unwrap(), Ok((3, 5)));
    assert_eq!(iter.next().unwrap(), Ok((4, 6)));
    assert_eq!(iter.next().unwrap(), Ok((5, 7)));
    assert_eq!(iter.next().unwrap(), Ok((6, 8)));

    assert_eq!(iter.next(), None);
}

#[test]
fn fileparser_define_symbol_good() {
    let contents = "50,25\n2,4\n3,5\n:FIRST\n0,1\n2,1\n3,1\n;\n4,6\n5,7\n6,8\n";
    let mut file = create_fileparser(&contents);
    let mut iter = file.iter();

    assert_eq!(iter.next().unwrap(), Ok(CELL_DATA[0]));
    assert_eq!(iter.next().unwrap(), Ok(CELL_DATA[1]));
    assert_eq!(iter.next().unwrap(), Ok(CELL_DATA[2]));
    assert_eq!(iter.next().unwrap(), Ok(CELL_DATA[3]));
    assert_eq!(iter.next().unwrap(), Ok(CELL_DATA[4]));
    assert_eq!(iter.next().unwrap(), Ok(CELL_DATA[5]));

    assert_eq!(iter.next(), None);
}

#[test]
fn fileparser_define_symbol_after_size() {
    let contents = "50,25\n:FIRST\n0,1\n2,1\n3,1\n;\n2,4\n3,5\n4,6\n5,7\n6,8\n";
    let mut file = create_fileparser(&contents);
    let mut iter = file.iter();

    assert_eq!(iter.next().unwrap(), Ok(CELL_DATA[0]));
    assert_eq!(iter.next().unwrap(), Ok(CELL_DATA[1]));
    assert_eq!(iter.next().unwrap(), Ok(CELL_DATA[2]));
    assert_eq!(iter.next().unwrap(), Ok(CELL_DATA[3]));
    assert_eq!(iter.next().unwrap(), Ok(CELL_DATA[4]));
    assert_eq!(iter.next().unwrap(), Ok(CELL_DATA[5]));

    assert_eq!(iter.next(), None);
}

#[test]
fn fileparser_define_symbol_before_size() {
    let contents = ":FIRST\n0,1\n2,1\n3,1\n;\n50,25\n2,4\n3,5\n4,6\n5,7\n6,8\n";
    let mut file = create_fileparser(&contents);
    let mut iter = file.iter();

    assert_eq!(iter.next().unwrap(), Ok(CELL_DATA[0]));
    assert_eq!(iter.next().unwrap(), Ok(CELL_DATA[1]));
    assert_eq!(iter.next().unwrap(), Ok(CELL_DATA[2]));
    assert_eq!(iter.next().unwrap(), Ok(CELL_DATA[3]));
    assert_eq!(iter.next().unwrap(), Ok(CELL_DATA[4]));
    assert_eq!(iter.next().unwrap(), Ok(CELL_DATA[5]));

    assert_eq!(iter.next(), None);
}

#[test]
fn fileparser_use_symbol_good_with_offset() {
    let contents = "50,25\n2,4\n3,5\n:FIRST\n0,1\n1,1\n2,1\n;\n4,6\n5,7\nFIRST 20,15\n6,8\n";
    let mut file = create_fileparser(&contents);
    let cells: Vec<Cell> = file.iter().collect().unwrap();

    assert!(cells.contains(&CELL_DATA[0]));
    assert!(cells.contains(&CELL_DATA[1]));
    assert!(cells.contains(&CELL_DATA[2]));
    assert!(cells.contains(&CELL_DATA[3]));
    assert!(cells.contains(&CELL_DATA[4]));
    assert!(cells.contains(&CELL_DATA[5]));

    assert!(cells.contains(&(20, 16)));
    assert!(cells.contains(&(21, 16)));
    assert!(cells.contains(&(22, 16)));
}

#[test]
fn fileparser_use_symbol_bad_no_use_offset() {
    let contents = "50,25\n2,4\n3,5\n:FIRST\n0,1\n1,1\n2,1\n;\n4,6\n5,7\nFIRST 20,15\n6,8\n";
    let mut file = create_fileparser(&contents);
    let cells: Vec<Cell> = file.iter().collect().unwrap();

    assert!(!cells.contains(&(0, 1)));
    assert!(!cells.contains(&(1, 1)));
    assert!(!cells.contains(&(2, 1)));
}

#[test]
fn fileparser_use_symbol_bad_offset_out_of_range() {
    let contents = "50,25\n2,4\n3,5\n:FIRST\n0,1\n1,1\n2,1\n;\n4,6\n5,7\nFIRST 50,15\n6,8\n";

    assert_eq!(
        error_of(&contents),
        ParseError { kind: ParseErrorKind::OutOfBoundsCoordinate, line: 11, path: None }
    );
}

#[test]
fn fileparser_use_symbol_bad_before_size() {
    let contents = "FIRST 50,15\n20,15\n2,4\n3,5\n:FIRST\n0,1\n1,1\n2,1\n;\n4,6\n5,7\n6,8\n";

    assert_eq!(
        error_of(&contents),
        ParseError { kind: ParseErrorKind::SymbolUsedBeforeDimensionsKnown, line: 1, path: None }
    );
}

#[test]
fn fileparser_use_symbol_good_after_size() {
    let contents = "50,25\n:FIRST\n0,1\n1,1\n2,1\n;\nFIRST 20,15\n2,4\n3,5\n4,6\n5,7\n6,8\n";
    let mut file = create_fileparser(&contents);
    let cells: Vec<Cell> = file.iter().collect().unwrap();

    assert!(cells.contains(&(21, 16)));
}

#[test]
fn fileparser_use_symbol_good_last() {
    let contents = "50,25\n2,4\n3,5\n:FIRST\n0,1\n1,1\n2,1\n;\n4,6\n5,7\n6,8\nFIRST 20,15\n";
    let mut file = create_fileparser(&contents);
    let cells: Vec<Cell> = file.iter().collect().unwrap();

    assert!(cells.contains(&(21, 16)));
}

#[test]
fn fileparser_use_symbol_bad_before_define() {
    let contents = "50,25\nFIRST 20,15\n:FIRST\n0,1\n1,1\n2,1\n;\n2,4\n3,5\n4,6\n5,7\n6,8\n";

    assert_eq!(error_of(&contents), ParseError { kind: ParseErrorKind::UnknownSymbol, line: 2, path: None });
}

#[test]
fn fileparser_use_symbol_bad_unknown() {
    let contents = "50,25\nFIRST 20,15\n2,4\n3,5\n4,6\n5,7\n6,8\n";

    assert_eq!(error_of(&contents), ParseError { kind: ParseErrorKind::UnknownSymbol, line: 2, path: None });
}

#[test]
fn fileparser_use_symbol_good_twice() {
    let contents = "50,25\n2,4\n3,5\n:FIRST\n0,1\n1,1\n2,1\n;\n4,6\n5,7\n6,8\nFIRST 30,15\nFIRST 20,15\n";
    let mut file = create_fileparser(&contents);
    let cells: Vec<Cell> = file.iter().collect().unwrap();

    assert!(cells.contains(&(21, 16)));
    assert!(cells.contains(&(31, 16)));
}

#[test]
fn fileparser_define_symbol_nested() {
    let contents = "50,25\n2,4\n:FIRST\n0,1\n1,1\n2,1\n;\n3,5\n:SECOND\nFIRST 0,0\nFIRST 5,5\n;\n4,6\n5,7\n6,8\n";
    let mut file = create_fileparser(&contents);
    let cells: Vec<Cell> = file.iter().collect().unwrap();

    assert!(cells.contains(&CELL_DATA[1]));
    assert!(cells.contains(&CELL_DATA[5]));
}

#[test]
fn fileparser_use_symbol_nested_in_bounds() {
    let contents = "50,25\n2,4\n:FIRST\n0,1\n1,1\n2,1\n;\n3,5\n:SECOND\nFIRST 0,0\nFIRST 5,5\n;\n4,6\n5,7\nSECOND 10, 3\n6,8\n";
    let mut file = create_fileparser(&contents);
    let cells: Vec<Cell> = file.iter().collect().unwrap();

    assert!(cells.contains(&(10, 4)));
    assert!(cells.contains(&(15, 9)));
}

#[test]
fn fileparser_use_symbol_nested_out_bounds() {
    let contents = "50,25\n2,4\n:FIRST\n0,1\n1,1\n2,1\n;\n3,5\n:SECOND\nFIRST 0,0\nFIRST 5,5\n;\n4,6\n5,7\nSECOND 60, 3\n6,8\n";

    assert_eq!(
        error_of(&contents),
        ParseError { kind: ParseErrorKind::OutOfBoundsCoordinate, line: 15, path: None }
    );
}

#[test]
fn fileparser_define_symbol_bad_terminator() {
    let contents = "50,25\n2,4\n3,5\n4,6\n;\n5,7\n6,8\n";

    assert_eq!(
        error_of(&contents),
        ParseError { kind: ParseErrorKind::UnexpectedDefinitionEnd, line: 5, path: None }
    );
}

#[test]
fn fileparser_define_symbol_good_no_terminator() {
    let contents = "50,25\n2,4\n3,5\n:FIRST\n0,1\n2,1\n3,1\n4,6\n5,7\n6,8\n";
    let mut file = create_fileparser(&contents);
    let cells: Vec<Cell> = file.iter().collect().unwrap();

    assert_eq!(cells, vec![(50, 25), (2, 4), (3, 5)]);
}

#[test]
fn stream_of_literals_in_file_order() {
    let mut file = create_fileparser(CELL_DATA_STRING);

    assert_eq!(file.iter().collect(), Ok(CELL_DATA.to_vec()));
}

#[test]
fn stream_first_pair_is_not_held_to_bounds() {
    let mut file = create_fileparser("0,0\n");
    let mut iter = file.iter();

    assert_eq!(iter.next(), Some(Ok((0, 0))));
    assert_eq!(iter.next(), None);

    let mut file = create_fileparser(":A\n9,9\n;\n3,2\n2,1\n3,1\n");
    let mut iter = file.iter();

    assert_eq!(iter.next(), Some(Ok((3, 2))));
    assert_eq!(iter.next(), Some(Ok((2, 1))));
    assert_eq!(
        iter.next(),
        Some(Err(ParseError { kind: ParseErrorKind::OutOfBoundsCoordinate, line: 6, path: None }))
    );
}

#[test]
fn stream_symbol_use_yields_cells_in_reverse() {
    let contents = "50,25\n2,4\n3,5\n:FIRST\n0,1\n1,1\n2,1\n;\n4,6\n5,7\nFIRST 20,15\n6,8\n";
    let mut file = create_fileparser(&contents);

    assert_eq!(
        file.iter().collect(),
        Ok(vec![(50, 25), (2, 4), (3, 5), (4, 6), (5, 7), (22, 16), (21, 16), (20, 16), (6, 8)])
    );
}

#[test]
fn stream_symbol_without_cells_yields_nothing() {
    let mut file = create_fileparser("5,5\n:E\n;\nE 1,1\n2,2\n");

    assert_eq!(file.iter().collect(), Ok(vec![(5, 5), (2, 2)]));
}

#[test]
fn stream_definition_given_twice_keeps_its_cells() {
    let mut file = create_fileparser("9,9\n:A\n0,0\n;\n:A\n1,1\n;\nA 2,3\n");

    assert_eq!(file.iter().collect(), Ok(vec![(9, 9), (3, 4), (2, 3)]));
}

#[test]
fn stream_symbol_may_use_itself() {
    let mut file = create_fileparser("9,9\n:A\n1,0\nA 1,1\n;\nA 0,0\n");

    assert_eq!(file.iter().collect(), Ok(vec![(9, 9), (2, 1), (1, 0)]));
}

#[test]
fn stream_composition_keeps_order_and_adds_offsets() {
    let contents = "50,25\n:FIRST\n0,1\n1,1\n;\n:SECOND\n7,7\nFIRST 5,5\n;\nSECOND 10, 3\n";
    let mut file = create_fileparser(&contents);

    assert_eq!(file.iter().collect(), Ok(vec![(50, 25), (16, 9), (15, 9), (17, 10)]));
}

#[test]
fn stream_use_inside_definition_needs_no_grid_size() {
    let mut file = create_fileparser(":A\n1,1\n;\n:B\nA 1,1\n;\n4,4\nB 1,1\n");

    assert_eq!(file.iter().collect(), Ok(vec![(4, 4), (3, 3)]));
}

#[test]
fn stream_unknown_symbol_inside_definition() {
    assert_eq!(
        error_of("9,9\n:A\nB 1,1\n;\n"),
        ParseError { kind: ParseErrorKind::UnknownSymbol, line: 3, path: None }
    );
    assert_eq!(
        error_of(":A\nB 1,1\n;\n"),
        ParseError { kind: ParseErrorKind::UnknownSymbol, line: 2, path: None }
    );
}

#[test]
fn stream_empty_symbol_name() {
    assert_eq!(error_of("9,9\n:\n"), ParseError { kind: ParseErrorKind::EmptySymbolName, line: 2, path: None });
    assert_eq!(
        error_of("9,9\n:A\n:  \n"),
        ParseError { kind: ParseErrorKind::EmptySymbolName, line: 3, path: None }
    );
}

#[test]
fn stream_nested_definition() {
    assert_eq!(
        error_of("9,9\n:A\n1,1\n:B\n;\n"),
        ParseError { kind: ParseErrorKind::NestedDefinition, line: 4, path: None }
    );
}

#[test]
fn stream_malformed_pairs() {
    for contents in ["9,9\n12\n", "9,9\n1,\n", "9,9\n1,x\n", "9,9\n1,2,3\n", "9,9\n1,-2\n", "9,9\n1 2\n",
        "9,9\n:A\n;\nA\n", "9,9\n:A\n;\nA 1;2\n", "9,9\n:A\n;\nA\t1,2\n",
        "9,9\n99999999999999999999999999,1\n", "9,9\n\u{663},1\n"] {
        assert_eq!(
            error_of(contents).kind,
            ParseErrorKind::MalformedCoordinatePair,
            "{:?}",
            contents
        );
    }
}

#[test]
fn stream_line_may_not_start_with_a_sign() {
    assert_eq!(
        error_of("9,9\n-1,2\n"),
        ParseError { kind: ParseErrorKind::UnrecognisedLineStart, line: 2, path: None }
    );
    assert_eq!(
        error_of("+9,9\n"),
        ParseError { kind: ParseErrorKind::UnrecognisedLineStart, line: 1, path: None }
    );
}

#[test]
fn stream_numbers_may_carry_a_plus_and_zeros() {
    let mut file = create_fileparser("9,+009\n1 , +2\n");

    assert_eq!(file.iter().collect(), Ok(vec![(9, 9), (1, 2)]));
}

#[test]
fn stream_symbol_cells_past_the_largest_number_are_out_of_bounds() {
    let contents = format!("{},{}\n:A\n{},0\n;\n:B\nA 1,0\n;\n:C\nB 0,0\n;\n1,1\nC 0,0\n", usize::MAX, usize::MAX, usize::MAX);

    assert_eq!(
        error_of(&contents),
        ParseError { kind: ParseErrorKind::OutOfBoundsCoordinate, line: 12, path: None }
    );
}

#[test]
fn stream_error_carries_path_and_ends_the_stream() {
    let mut file = FileParser::init(ReadBuffer::from_string("9,9\n?\n1,1\n"), Some(String::from("some/where.life")));
    let mut iter = file.iter();

    assert!(iter.allow_fatal());
    assert_eq!(iter.next(), Some(Ok((9, 9))));
    assert_eq!(
        iter.next(),
        Some(Err(ParseError {
            kind: ParseErrorKind::UnrecognisedLineStart,
            line: 2,
            path: Some(String::from("some/where.life"))
        }))
    );
    assert_eq!(iter.next(), None);
    assert_eq!(iter.next(), None);
}

#[test]
fn stream_set_test_is_handed_to_the_stream() {
    let mut file = create_fileparser("9,9\n");

    assert!(!file.iter().allow_fatal());
}

#[test]
fn stream_symbol_names_may_start_with_any_letter() {
    let mut file = create_fileparser("9,9\n:\u{e9}t\u{e9}\n1,2\n;\n\u{e9}t\u{e9} 1,1\n");

    assert_eq!(file.iter().collect(), Ok(vec![(9, 9), (2, 3)]));
}

#[test]
fn parse_pair_of_text() {
    assert_eq!(FileIterator::parse_pair("3,4"), Some((3, 4)));
    assert_eq!(FileIterator::parse_pair(" 3 ,\t4 "), Some((3, 4)));
    assert_eq!(FileIterator::parse_pair("3;4"), None);
    assert_eq!(FileIterator::parse_pair(",4"), None);
    assert_eq!(FileIterator::parse_pair("3,"), None);
    assert_eq!(FileIterator::parse_pair("3,4,5"), None);
    assert_eq!(FileIterator::parse_pair("3, 4 5"), None);
    assert_eq!(FileIterator::parse_pair(&format!("{},0", usize::MAX)), Some((usize::MAX, 0)));
    assert_eq!(FileIterator::parse_pair("18446744073709551616,0"), None);
}

#[test]
fn error_message_names_line_and_file() {
    let error = ParseError { kind: ParseErrorKind::UnknownSymbol, line: 120, path: None };
    assert_eq!(error.message(), "error: unknown symbol, at line 120 of file 'unknown'");

    let error = ParseError {
        kind: ParseErrorKind::OutOfBoundsCoordinate,
        line: 7,
        path: Some(String::from("a/b.life")),
    };
    assert_eq!(error.message(), "error: cell location out of bounds, at line 7 of file 'a/b.life'");

    let error = ParseError { kind: ParseErrorKind::EmptySymbolName, line: 0, path: None };
    assert_eq!(error.message(), "error: symbol has no name, at line 0 of file 'unknown'");
    assert_eq!(ParseErrorKind::NestedDefinition.text(), "nested symbol definition is not supported");
    assert_eq!(ParseErrorKind::UnexpectedDefinitionEnd.text(), "unexpected end of symbol definition");
    assert_eq!(ParseErrorKind::MalformedCoordinatePair.text(), "cannot parse a coordinate pair");
    assert_eq!(ParseErrorKind::SymbolUsedBeforeDimensionsKnown.text(), "use of symbol before grid-size");
    assert_eq!(ParseErrorKind::UnrecognisedLineStart.text(), "unrecognised character");
}

#[test]
fn stream_passes_over_comments_and_blank_lines() {
    let mut file = create_fileparser("50,25\n2,4\n#comment\n\n3,5\n");

    assert_eq!(file.iter().collect(), Ok(vec![(50, 25), (2, 4), (3, 5)]));
}

#[test]
fn stream_phases() {
    let mut file = create_fileparser(":A\n1,1\n;\n5,5\nA 1,1\n");
    let mut iter = file.iter();

    assert_eq!(iter.phase(), StreamPhase::AwaitingDimensions);
    assert_eq!(iter.next(), Some(Ok((5, 5))));
    assert_eq!(iter.phase(), StreamPhase::Streaming);
    assert_eq!(iter.next(), Some(Ok((2, 2))));
    assert_eq!(iter.phase(), StreamPhase::Exhausted);
    assert_eq!(iter.next(), None);

    let mut file = create_fileparser("5,5\n;\n1,1\n");
    let mut iter = file.iter();

    assert_eq!(iter.next(), Some(Ok((5, 5))));
    assert_eq!(iter.phase(), StreamPhase::Streaming);
    assert!(iter.next().unwrap().is_err());
    assert_eq!(iter.phase(), StreamPhase::Exhausted);

    let mut file = create_fileparser("");
    assert_eq!(file.iter().phase(), StreamPhase::Exhausted);
}

#[test]
fn stream_reports_errors_as_it_was_asked_to() {
    let error = ParseError { kind: ParseErrorKind::UnknownSymbol, line: 3, path: None };

    let mut file = FileParser::from_string("1,1\n");
    let iter = file.iter();
    assert_eq!(iter.reporting_mode(), ReportingMode::Terminate);
    assert_eq!(
        iter.report(error.clone()),
        Report::Exit(String::from("error: unknown symbol, at line 3 of file 'unknown'"))
    );

    let mut file = create_fileparser("1,1\n");
    let iter = file.iter();
    assert_eq!(iter.reporting_mode(), ReportingMode::Propagate);
    assert_eq!(iter.report(error.clone()), Report::Raise(error));
}
