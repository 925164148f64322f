use brainfreak::inst::Inst;
use brainfreak::parser::{ParseError, Parser, Token};

fn parse(source: &str) -> Result<Vec<Token>, ParseError> {
    Parser::new(source).parse()
}

fn insts(source: &str) -> Vec<Inst> {
    parse(source).unwrap().iter().map(Inst::from_token).collect()
}

fn leaves(insts: &[Inst]) -> usize {
    insts
        .iter()
        .map(|inst| match inst {
            Inst::Loop(body) => leaves(body),
            _ => 1,
        })
        .sum()
}

fn loops(insts: &[Inst]) -> usize {
    insts
        .iter()
        .map(|inst| match inst {
            Inst::Loop(body) => 1 + loops(body),
            _ => 0,
        })
        .sum()
}

/// Runs a program on a tape of bytes, as a reference for what a parsed
/// program means. Input reads zero; output is collected.
fn run(insts: &[Inst], tape: &mut Vec<u8>, ptr: &mut usize, out: &mut Vec<u8>) {
    for inst in insts {
        match inst {
            Inst::DataInc => tape[*ptr] = tape[*ptr].wrapping_add(1),
            Inst::DataDec => tape[*ptr] = tape[*ptr].wrapping_sub(1),
            Inst::PtrInc => *ptr += 1,
            Inst::PtrDec => *ptr -= 1,
            Inst::Output => out.push(tape[*ptr]),
            Inst::Input => tape[*ptr] = 0,
            Inst::Loop(body) => {
                while tape[*ptr] != 0 {
                    run(body, tape, ptr, out);
                }
            }
        }
    }
}

#[test]
fn empty_source_parses_to_no_tokens() {
    assert!(parse("").unwrap().is_empty());
}

#[test]
fn single_open_bracket_is_unmatched_at_zero() {
    assert_eq!(parse("[").unwrap_err(), ParseError::UnmatchedBrackets { idx: 0 });
}

#[test]
fn each_symbol_gives_its_token() {
    let tokens = parse("+-><.,").unwrap();
    assert_eq!(
        format!("{:?}", tokens),
        "[DataInc, DataDec, PtrInc, PtrDec, Output, Input]"
    );
}

#[test]
fn brackets_give_a_loop_of_what_is_between() {
    let tokens = parse("[+[-]>]").unwrap();
    assert_eq!(
        format!("{:?}", tokens),
        "[Loop([DataInc, Loop([DataDec]), PtrInc])]"
    );
}

#[test]
fn empty_loop_parses() {
    assert_eq!(format!("{:?}", parse("[]").unwrap()), "[Loop([])]");
}

#[test]
fn other_characters_are_skipped() {
    assert_eq!(
        insts("add one: + then\nmove > (done)"),
        vec![Inst::DataInc, Inst::PtrInc]
    );
}

#[test]
fn other_characters_inside_a_loop_are_skipped() {
    assert_eq!(
        insts("[ a - b ]"),
        vec![Inst::Loop(vec![Inst::DataDec])]
    );
}

#[test]
fn transfer_loop_parses_to_its_tree() {
    assert_eq!(
        insts("++>+++<[->+<]"),
        vec![
            Inst::DataInc,
            Inst::DataInc,
            Inst::PtrInc,
            Inst::DataInc,
            Inst::DataInc,
            Inst::DataInc,
            Inst::PtrDec,
            Inst::Loop(vec![
                Inst::DataDec,
                Inst::PtrInc,
                Inst::DataInc,
                Inst::PtrDec,
            ]),
        ]
    );
}

#[test]
fn transfer_loop_moves_the_first_cell_into_the_second() {
    let program = insts("++>+++<[->+<]");
    let mut tape = vec![0u8; 16];
    let mut ptr = 0;
    let mut out = Vec::new();
    run(&program, &mut tape, &mut ptr, &mut out);
    assert_eq!(tape[0], 0);
    assert_eq!(tape[1], 5);
    assert_eq!(ptr, 0);
    assert!(out.is_empty());
}

#[test]
fn cells_wrap_around_in_eight_bits() {
    let mut tape = vec![255u8, 0u8];
    let mut ptr = 0;
    let mut out = Vec::new();
    run(&insts("+>-"), &mut tape, &mut ptr, &mut out);
    assert_eq!(tape, vec![0u8, 255u8]);
}

#[test]
fn unmatched_bracket_after_symbols_reports_its_offset() {
    assert_eq!(parse("+-[").unwrap_err(), ParseError::UnmatchedBrackets { idx: 2 });
    assert_eq!(parse("+-[+>").unwrap_err(), ParseError::UnmatchedBrackets { idx: 2 });
}

#[test]
fn innermost_unmatched_bracket_is_reported() {
    assert_eq!(parse("[[").unwrap_err(), ParseError::UnmatchedBrackets { idx: 1 });
    assert_eq!(parse("[+[-").unwrap_err(), ParseError::UnmatchedBrackets { idx: 2 });
}

#[test]
fn outer_bracket_is_reported_when_the_inner_is_closed() {
    assert_eq!(parse("[[]").unwrap_err(), ParseError::UnmatchedBrackets { idx: 0 });
    assert_eq!(parse("+[[]+[]").unwrap_err(), ParseError::UnmatchedBrackets { idx: 1 });
}

#[test]
fn offsets_count_bytes_not_characters() {
    // `é` takes two bytes and `日` three.
    assert_eq!(parse("é[").unwrap_err(), ParseError::UnmatchedBrackets { idx: 2 });
    assert_eq!(parse("日本[").unwrap_err(), ParseError::UnmatchedBrackets { idx: 6 });
    assert_eq!(parse("é+[日").unwrap_err(), ParseError::UnmatchedBrackets { idx: 3 });
}

#[test]
fn bytes_of_longer_characters_are_no_symbols() {
    assert_eq!(insts("é+日-😀"), vec![Inst::DataInc, Inst::DataDec]);
}

#[test]
fn closing_bracket_without_an_opening_one_is_skipped() {
    assert!(parse("]").unwrap().is_empty());
    assert_eq!(insts("+]+"), vec![Inst::DataInc, Inst::DataInc]);
    assert_eq!(insts("[]]"), vec![Inst::Loop(vec![])]);
    assert_eq!(insts("][+]"), vec![Inst::Loop(vec![Inst::DataInc])]);
}

#[test]
fn closing_bracket_without_an_opening_one_does_not_close_a_later_one() {
    assert_eq!(parse("][").unwrap_err(), ParseError::UnmatchedBrackets { idx: 1 });
}

#[test]
fn balanced_source_has_a_leaf_for_each_symbol() {
    let source = "+[>,[-.<]+]x[[]]--";
    let program = insts(source);
    let symbols = source.chars().filter(|c| "+-<>.,".contains(*c)).count();
    let opens = source.chars().filter(|c| *c == '[').count();
    assert_eq!(symbols, 9);
    assert_eq!(leaves(&program), symbols);
    assert_eq!(loops(&program), opens);
}

#[test]
fn parsing_again_finds_nothing_left() {
    let mut parser = Parser::new("+[-]");
    assert_eq!(parser.parse().unwrap().len(), 2);
    assert!(parser.parse().unwrap().is_empty());
}

#[test]
fn parsing_again_after_an_error_finds_nothing_left() {
    let mut parser = Parser::new("+[-");
    assert!(parser.parse().is_err());
    assert!(parser.parse().unwrap().is_empty());
}

#[test]
fn parse_error_can_be_copied_and_compared() {
    let error = ParseError::UnmatchedBrackets { idx: 7 };
    let copy = error;
    assert_eq!(error, copy);
    assert_ne!(error, ParseError::UnmatchedBrackets { idx: 8 });
}

#[test]
fn deep_nesting_parses() {
    let depth = 200;
    let source = "[".repeat(depth) + "+" + &"]".repeat(depth);
    let program = insts(&source);
    assert_eq!(loops(&program), depth);
    assert_eq!(leaves(&program), 1);
}
