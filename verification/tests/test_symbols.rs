use conway_life::error::ParseErrorKind;
use conway_life::parser::{all_within, classify, kind_from, LineKind, ParserState};
use conway_life::symbols::{add_coordinates, same_name, translate_cells, SymbolDefinition, SymbolTable};
use conway_life::text::{chars_of, find_char, is_whitespace, parse_usize, trim_slice};

fn chars(text: &str) -> Vec<char> {
    text.chars().collect()
}

#[test]
fn text_trim_and_find() {
    assert_eq!(trim_slice(&chars("  a b\t\n")), &chars("a b")[..]);
    assert_eq!(trim_slice(&chars(" \u{2028} ")), &chars("")[..]);
    assert_eq!(trim_slice(&chars("")), &chars("")[..]);
    assert_eq!(find_char(&chars("ab,c,"), ','), 2);
    assert_eq!(find_char(&chars("abc"), ','), 3);
    assert_eq!(chars_of("h\u{e9}llo"), chars("h\u{e9}llo"));
}

#[test]
fn text_white_space_is_what_std_trims() {
    let mut code: u32 = 0;
    while code <= 0x3100 {
        if let Some(c) = char::from_u32(code) {
            assert_eq!(is_whitespace(c), c.is_whitespace(), "{:x}", code);
        }
        code += 1;
    }
}

#[test]
fn text_numbers_are_read_as_std_reads_them() {
    for text in ["0", "7", "+7", "007", "", "+", "-7", "++7", "7 ", " 7", "1_0", "18446744073709551615",
        "18446744073709551616", "99999999999999999999999", "0x10", "\u{663}"] {
        assert_eq!(parse_usize(&chars(text)), text.parse::<usize>().ok(), "{:?}", text);
    }
    assert_eq!(parse_usize(&chars("1234")), Some(1234));
}

#[test]
fn lines_are_told_apart_by_their_first_character() {
    assert_eq!(classify('5'), LineKind::DimensionOrCell);
    assert_eq!(classify('\u{663}'), LineKind::DimensionOrCell);
    assert_eq!(classify(':'), LineKind::DefinitionStart);
    assert_eq!(classify(';'), LineKind::DefinitionEnd);
    assert_eq!(classify('F'), LineKind::SymbolUse);
    assert_eq!(classify('\u{e9}'), LineKind::SymbolUse);
    assert_eq!(classify('!'), LineKind::Unrecognised);
    assert_eq!(classify('-'), LineKind::Unrecognised);
    assert_eq!(classify('~'), LineKind::Unrecognised);
}

#[test]
fn coordinates_add_up_to_the_largest_number() {
    assert_eq!(add_coordinates(2, 3), 5);
    assert_eq!(add_coordinates(usize::MAX - 1, 1), usize::MAX);
    assert_eq!(add_coordinates(usize::MAX, 1), usize::MAX);
    assert_eq!(add_coordinates(usize::MAX, usize::MAX), usize::MAX);
    assert_eq!(translate_cells(&[(0, 1), (2, 3)], (10, 20)), vec![(10, 21), (12, 23)]);
    assert!(same_name(&chars("ab"), &chars("ab")));
    assert!(!same_name(&chars("ab"), &chars("aB")));
    assert!(!same_name(&chars("ab"), &chars("abc")));
}

#[test]
fn symbol_definition_keeps_order() {
    let mut symbol = SymbolDefinition::new(&chars("glider"));

    symbol.push_cell((1, 0));
    symbol.push_cells(&[(2, 1), (0, 2)]);
    symbol.push_cell((1, 2));

    assert_eq!(symbol.name(), &chars("glider")[..]);
    assert_eq!(symbol.cells(), &[(1, 0), (2, 1), (0, 2), (1, 2)][..]);
}

#[test]
fn symbol_table_operations() {
    let mut table = SymbolTable::new();

    assert_eq!(table.define_or_extend(&chars("")), Err(ParseErrorKind::EmptySymbolName));
    assert_eq!(table.define_or_extend(&chars("A")), Ok(()));
    assert!(table.contains(&chars("A")));
    assert!(!table.contains(&chars("a")));
    table.append_literal(&chars("A"), (1, 2));
    table.append_literal(&chars("A"), (3, 4));
    table.append_literal(&chars("missing"), (9, 9));
    assert!(!table.contains(&chars("missing")));
    assert_eq!(table.define_or_extend(&chars("A")), Ok(()));
    assert_eq!(table.instantiate(&chars("A"), (10, 10)), Ok(vec![(11, 12), (13, 14)]));
    assert_eq!(table.instantiate(&chars("B"), (10, 10)), Err(ParseErrorKind::UnknownSymbol));

    assert_eq!(table.define_or_extend(&chars("B")), Ok(()));
    table.append_literal(&chars("B"), (0, 0));
    assert_eq!(table.append_translated(&chars("B"), &chars("A"), (1, 1)), Ok(()));
    assert_eq!(table.append_translated(&chars("B"), &chars("C"), (1, 1)), Err(ParseErrorKind::UnknownSymbol));
    assert_eq!(table.instantiate(&chars("B"), (0, 0)), Ok(vec![(0, 0), (2, 3), (4, 5)]));
    assert_eq!(table.instantiate(&chars("A"), (0, 0)), Ok(vec![(1, 2), (3, 4)]));
}

#[test]
fn parser_state_line_by_line() {
    let mut state = ParserState::new();

    assert_eq!(state.grid_dimensions(), None);
    assert_eq!(state.validate_cell(0, 0), Err(ParseErrorKind::OutOfBoundsCoordinate));
    assert_eq!(state.apply_line(&chars(";")), Err(ParseErrorKind::UnexpectedDefinitionEnd));
    assert_eq!(state.apply_line(&chars(":A")), Ok(None));
    assert_eq!(state.apply_line(&chars("1,1")), Ok(None));
    assert_eq!(state.apply_line(&chars("2,2")), Ok(None));
    assert_eq!(state.apply_line(&chars(";")), Ok(None));
    assert_eq!(state.apply_line(&chars("A 0,0")), Err(ParseErrorKind::SymbolUsedBeforeDimensionsKnown));
    assert_eq!(state.apply_line(&chars("5,4")), Ok(Some((5, 4))));
    assert_eq!(state.grid_dimensions(), Some((5, 4)));
    assert_eq!(state.validate_cell(4, 3), Ok(()));
    assert_eq!(state.validate_cell(5, 3), Err(ParseErrorKind::OutOfBoundsCoordinate));
    assert_eq!(state.validate_cell(4, 4), Err(ParseErrorKind::OutOfBoundsCoordinate));
    assert_eq!(state.apply_line(&chars("5,0")), Err(ParseErrorKind::OutOfBoundsCoordinate));
    assert_eq!(state.apply_line(&chars("0,4")), Err(ParseErrorKind::OutOfBoundsCoordinate));
    assert_eq!(state.apply_line(&chars("A 3,0")), Err(ParseErrorKind::OutOfBoundsCoordinate));
    assert!(!state.has_buffered());
    assert_eq!(state.apply_line(&chars("A 2,1")), Ok(Some((4, 3))));
    assert!(state.has_buffered());
    assert_eq!(state.pop_buffered(), Some((3, 2)));
    assert_eq!(state.pop_buffered(), None);
    assert!(!state.has_buffered());
    assert_eq!(state.apply_line(&chars("?")), Err(ParseErrorKind::UnrecognisedLineStart));
    assert_eq!(state.apply_line(&chars("")), Err(ParseErrorKind::UnrecognisedLineStart));
    assert_eq!(state.parse_symbol_define_start(&chars("")), Err(ParseErrorKind::EmptySymbolName));
}

#[test]
fn kind_of_a_line_from_what_is_known_of_its_first_character() {
    assert_eq!(kind_from('7', true, true), LineKind::DimensionOrCell);
    assert_eq!(kind_from(':', true, true), LineKind::DimensionOrCell);
    assert_eq!(kind_from(':', false, true), LineKind::DefinitionStart);
    assert_eq!(kind_from(';', false, true), LineKind::DefinitionEnd);
    assert_eq!(kind_from('a', false, true), LineKind::SymbolUse);
    assert_eq!(kind_from('a', false, false), LineKind::Unrecognised);
    assert_eq!(kind_from('7', false, false), LineKind::Unrecognised);
}

#[test]
fn parser_state_handles_a_line_as_the_kind_given() {
    let mut state = ParserState::new();

    assert_eq!(state.apply_kind(LineKind::DimensionOrCell, &chars("9,9")), Ok(Some((9, 9))));
    assert_eq!(
        state.apply_kind(LineKind::DimensionOrCell, &chars("A 1,1")),
        Err(ParseErrorKind::MalformedCoordinatePair)
    );
    assert_eq!(state.apply_kind(LineKind::DefinitionStart, &chars("? sym ")), Ok(None));
    assert_eq!(state.apply_kind(LineKind::SymbolUse, &chars("1,2 3,4")), Err(ParseErrorKind::UnknownSymbol));
    assert_eq!(state.apply_kind(LineKind::DimensionOrCell, &chars("1,2")), Ok(None));
    assert_eq!(state.apply_kind(LineKind::SymbolUse, &chars("sym 3,4")), Ok(None));
    assert_eq!(state.apply_kind(LineKind::DefinitionStart, &chars(":x")), Err(ParseErrorKind::NestedDefinition));
    assert_eq!(state.apply_kind(LineKind::DefinitionEnd, &chars("anything")), Ok(None));
    assert_eq!(state.apply_kind(LineKind::SymbolUse, &chars("sym 0,0")), Ok(Some((4, 6))));
    assert_eq!(state.pop_buffered(), Some((1, 2)));
    assert_eq!(state.apply_kind(LineKind::Unrecognised, &chars("1,1")), Err(ParseErrorKind::UnrecognisedLineStart));
    assert!(all_within(&[(5, 5), (0, 0)], (6, 6)));
    assert!(!all_within(&[(5, 5), (6, 0)], (6, 6)));
    assert!(all_within(&[], (0, 0)));
}
