//! Tests for the lexer, the parser, and the statement printer.

use belgium::node::{dec_signed_text, dec_text, Node, Type as NodeType};
use belgium::parse::Parser;
use belgium::section::Section;
use belgium::stream::Input;
use belgium::token::{Point, Range, Type as TokenType};

fn parse_ok(text: &str) -> Parser {
    let mut parser = Parser::new(Input::new(String::from(text)));
    parser.node().unwrap();
    parser
}

fn parse_err(text: &str) -> belgium::stream::Error {
    let mut parser = Parser::new(Input::new(String::from(text)));
    parser.node().unwrap_err()
}

#[test]
fn tokens_flow_through_peek_and_consume() {
    let mut input = Input::new(String::from("add r1, 0x2A"));
    let peeked = input.peek().unwrap().unwrap();
    match peeked.data() {
        TokenType::Symbol(s) => assert_eq!(s, "add"),
        other => panic!("unexpected token {:?}", other),
    }
    let first = input.consume().unwrap();
    match first.data() {
        TokenType::Symbol(s) => assert_eq!(s, "add"),
        other => panic!("unexpected token {:?}", other),
    }
    assert!(matches!(input.consume().unwrap().data(), TokenType::Register(1)));
    assert!(matches!(input.consume().unwrap().data(), TokenType::Comma));
    assert!(matches!(input.consume().unwrap().data(), TokenType::Hexadecimal(0x2A)));
    assert!(matches!(input.consume().unwrap().data(), TokenType::Eof));
    assert!(matches!(input.consume().unwrap().data(), TokenType::Eof));
}

#[test]
fn lexer_tracks_lines_and_columns() {
    let mut input = Input::new(String::from("one\n  two"));
    let first = input.consume().unwrap();
    assert_eq!(first.range().start().line(), 1);
    assert_eq!(first.range().start().column(), 0);
    let second = input.consume().unwrap();
    assert_eq!(second.range().start().line(), 2);
    assert_eq!(second.range().start().column(), 2);
    assert_eq!(second.range().end().column(), 5);
}

#[test]
fn binary_and_decimal_literals_lex_to_their_values() {
    let mut input = Input::new(String::from("0b10000001 255 0 "));
    assert!(matches!(input.consume().unwrap().data(), TokenType::Binary(0x81)));
    assert!(matches!(input.consume().unwrap().data(), TokenType::Decimal(255)));
    assert!(matches!(input.consume().unwrap().data(), TokenType::Decimal(0)));
}

#[test]
fn a_lone_zero_at_the_end_of_input_is_an_error() {
    let mut input = Input::new(String::from("0"));
    assert_eq!(input.consume().unwrap_err().message, "Unexpected end of file");
}

#[test]
fn words_starting_with_r_without_a_digit_are_symbols() {
    let mut input = Input::new(String::from("rts rsect r"));
    for expected in ["rts", "rsect", "r"] {
        match input.consume().unwrap().data() {
            TokenType::Symbol(s) => assert_eq!(s, expected),
            other => panic!("unexpected token {:?}", other),
        }
    }
}

#[test]
fn oversized_number_is_a_lex_error() {
    let mut input = Input::new(String::from("300"));
    let err = input.consume().unwrap_err();
    assert_eq!(err.message, "Expected number in range 0-255, got 300");
}

#[test]
fn bad_register_and_unknown_character_report_errors() {
    let mut input = Input::new(String::from("r7"));
    assert_eq!(input.consume().unwrap_err().message, "Invalid register r7");
    let mut input = Input::new(String::from("%"));
    assert_eq!(input.consume().unwrap_err().message, "Unknown %");
}

#[test]
fn comments_and_text_literals_carry_their_content() {
    let mut input = Input::new(String::from("# note\n\"ab\""));
    match input.consume().unwrap().data() {
        TokenType::Comment(c) => assert_eq!(c, " note"),
        other => panic!("unexpected token {:?}", other),
    }
    match input.consume().unwrap().data() {
        TokenType::Text(t) => assert_eq!(t, "ab"),
        other => panic!("unexpected token {:?}", other),
    }
}

#[test]
fn a_small_program_parses_into_sections() {
    let parser = parse_ok(
        "asect 0x00\nldi r0, a\nld r0, r1\nadd r1, r2\nrsect data\na: dc -5\nres: ds 1\nend",
    );
    let sections = parser.sections();
    assert_eq!(sections.len(), 2);
    match &sections[0] {
        Section::Absolute { pos, content } => {
            assert_eq!(*pos, 0);
            assert_eq!(content.len(), 3);
            assert!(matches!(content[1].data(), NodeType::Ld(0, 1)));
            assert!(matches!(content[2].data(), NodeType::Add(1, 2)));
            match content[0].data() {
                NodeType::Ldi(0, boxed) => match boxed.data() {
                    NodeType::Label(l) => assert_eq!(l, "a"),
                    other => panic!("unexpected operand {:?}", other),
                },
                other => panic!("unexpected node {:?}", other),
            }
        }
        other => panic!("unexpected section {:?}", other),
    }
    match &sections[1] {
        Section::RSect { name, content } => {
            assert_eq!(name, "data");
            assert_eq!(content.len(), 4);
            assert!(matches!(content[0].data(), NodeType::Label(_)));
            assert!(matches!(content[1].data(), NodeType::Signed(-5)));
            assert!(matches!(content[2].data(), NodeType::Label(_)));
            assert!(matches!(content[3].data(), NodeType::Ds(1)));
        }
        other => panic!("unexpected section {:?}", other),
    }
}

#[test]
fn reopening_a_relocatable_section_appends_to_it() {
    let parser = parse_ok("rsect a\nhalt\nrsect b\nwait\nrsect a\nhalt\nend");
    let sections = parser.sections();
    assert_eq!(sections.len(), 2);
    match &sections[1] {
        Section::RSect { name, content } => {
            assert_eq!(name, "a");
            assert_eq!(content.len(), 2);
        }
        other => panic!("unexpected section {:?}", other),
    }
}

#[test]
fn entry_points_and_single_byte_text_parse() {
    let parser = parse_ok("asect 0\nstart>\nldi r1, \"x\"\nend");
    let sections = parser.sections();
    match &sections[0] {
        Section::Absolute { content, .. } => {
            assert!(matches!(content[0].data(), NodeType::Entry(_)));
            match content[1].data() {
                NodeType::Ldi(1, boxed) => {
                    assert!(matches!(boxed.data(), NodeType::Unsigned(120)))
                }
                other => panic!("unexpected node {:?}", other),
            }
        }
        other => panic!("unexpected section {:?}", other),
    }
}

#[test]
fn statement_outside_a_section_is_rejected() {
    let err = parse_err("halt\nend");
    assert_eq!(err.message, "Not in a section");
}

#[test]
fn missing_comma_is_rejected() {
    let err = parse_err("asect 0\nadd r0 r1\nend");
    assert_eq!(err.message, "Expected a comma");
}

#[test]
fn signed_numbers_reject_other_bases_and_large_values() {
    let err = parse_err("asect 0\ndc -0x10\nend");
    assert_eq!(err.message, "Only decimal numbers can be signed");
    let err = parse_err("asect 0\ndc -200\nend");
    assert_eq!(err.message, "Expected a number in range -128->127");
}

#[test]
fn multi_byte_text_is_rejected_as_immediate() {
    let err = parse_err("asect 0\ndc \"ab\"\nend");
    assert_eq!(err.message, "Expected a single byte");
}

#[test]
fn printing_and_reparsing_a_statement_preserves_it() {
    let node = NodeType::Add(0, 1);
    let text = node.to_text();
    assert_eq!(text, "add r0, r1");
    let source = format!("asect 0\n{}\nend", text);
    let parser = parse_ok(&source);
    match &parser.sections()[0] {
        Section::Absolute { content, .. } => {
            assert!(matches!(content[0].data(), NodeType::Add(0, 1)))
        }
        other => panic!("unexpected section {:?}", other),
    }
}

#[test]
fn statements_print_their_assembly_text() {
    assert_eq!(NodeType::Halt.to_text(), "halt");
    assert_eq!(NodeType::Ldsa(2, 10).to_text(), "ldsa r2, 10");
    assert_eq!(NodeType::Jsr(String::from("sub")).to_text(), "jsr sub");
    assert_eq!(NodeType::Signed(-5).to_text(), "-5");
    assert_eq!(NodeType::Asect(16).to_text(), "asect 16");
    let ldi = NodeType::Ldi(
        0,
        Box::new(Node::new(
            NodeType::Unsigned(7),
            belgium::token::Range::new(
                belgium::token::Point::new(1, 0),
                belgium::token::Point::new(1, 1),
            ),
        )),
    );
    assert_eq!(ldi.to_text(), "ldi r0, 7");
}

#[test]
fn decimal_rendering_matches_expected_digits() {
    assert_eq!(dec_text(0), "0");
    assert_eq!(dec_text(9), "9");
    assert_eq!(dec_text(42), "42");
    assert_eq!(dec_text(255), "255");
    assert_eq!(dec_signed_text(-128), "-128");
    assert_eq!(dec_signed_text(127), "127");
}

#[test]
fn error_ranges_point_at_the_offending_token() {
    let err = parse_err("asect 0\nadd r0 r1\nend");
    let at = err.at.expect("range expected");
    assert_eq!(at.start().line(), 2);
    assert_eq!(at.start().column(), 7);
}

#[test]
fn the_robot_demo_program_parses() {
    let parser = parse_ok(
        "asect  0x00\n\nldi r0, a\nld r0, r1\nldi r0, b\nld r0, r2\nadd r1, r2\nrsect lolx\nldi r0, res\nst r0, r2\n\nldi r0, res  # Loads the address of your result into r0 for the robot\nhalt         # Brings execution to a halt\n\nINPUTS>\na:  dc  19    # replace 19 by your choice of integer for testing\nb:  dc  -128    # replace -2 by your choice of integer for testing\nENDINPUTS>\n\nres:\tds\t1\t\t# one byte reserved for the result\nrsect idk\nend",
    );
    let sections = parser.sections();
    assert_eq!(sections.len(), 3);
    match &sections[0] {
        Section::Absolute { pos, content } => {
            assert_eq!(*pos, 0);
            assert_eq!(content.len(), 5);
        }
        other => panic!("unexpected section {:?}", other),
    }
    match &sections[1] {
        Section::RSect { name, content } => {
            assert_eq!(name, "lolx");
            // Instructions, entries, labels, data and the reservation
            // all collect into the open section.
            assert_eq!(content.len(), 12);
            assert!(matches!(content[4].data(), NodeType::Entry(_)));
        }
        other => panic!("unexpected section {:?}", other),
    }
    match &sections[2] {
        Section::RSect { name, content } => {
            assert_eq!(name, "idk");
            assert_eq!(content.len(), 0);
        }
        other => panic!("unexpected section {:?}", other),
    }
}

#[test]
fn ranges_print_compactly_within_one_line() {
    let same = Range::new(Point::new(1, 0), Point::new(1, 3));
    assert_eq!(same.to_text(), "[1:0-3]");
    let across = Range::new(Point::new(12, 4), Point::new(13, 2));
    assert_eq!(across.to_text(), "[12-13:4-2]");
}

#[test]
fn sections_print_their_directive_and_nodes() {
    let parser = parse_ok("asect 16\nhalt\nwait\nend");
    let text = parser.sections()[0].to_text();
    assert_eq!(text, "asect 16\n  halt\n  wait\n");
}

#[test]
fn errors_render_with_a_marker_under_the_offence() {
    let mut parser = Parser::new(Input::new(String::from("asect 0\nadd r0 r1\nend")));
    let err = parser.node().unwrap_err();
    let rendered = err.render(Some(parser.input()));
    assert_eq!(
        rendered,
        "2 |add r0 r1\n  |       ^^\n  |       Expected a comma\n"
    );
    let plain = belgium::stream::Error::plain(String::from("broken"));
    assert_eq!(plain.render(None), "broken\n");
}

#[test]
fn line_text_finds_lines_and_rejects_missing_ones() {
    let input = Input::new(String::from("one\ntwo\nthree"));
    assert_eq!(input.line_text(2).unwrap(), "two");
    assert_eq!(input.line_text(3).unwrap(), "three");
    assert!(input.line_text(4).is_none());
    assert!(input.line_text(0).is_none());
}
