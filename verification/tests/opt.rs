use brainfreak::inst::Inst;
use brainfreak::opt::Optimizer;
use brainfreak::parser::{Parser, Token};

#[test]
fn from_token_keeps_each_leaf() {
    assert_eq!(Inst::from_token(&Token::DataInc), Inst::DataInc);
    assert_eq!(Inst::from_token(&Token::DataDec), Inst::DataDec);
    assert_eq!(Inst::from_token(&Token::PtrInc), Inst::PtrInc);
    assert_eq!(Inst::from_token(&Token::PtrDec), Inst::PtrDec);
    assert_eq!(Inst::from_token(&Token::Output), Inst::Output);
    assert_eq!(Inst::from_token(&Token::Input), Inst::Input);
}

#[test]
fn from_token_keeps_the_shape_of_loops() {
    let token = Token::Loop(vec![
        Token::DataDec,
        Token::Loop(vec![Token::Output, Token::Loop(vec![])]),
        Token::Input,
    ]);
    assert_eq!(
        Inst::from_token(&token),
        Inst::Loop(vec![
            Inst::DataDec,
            Inst::Loop(vec![Inst::Output, Inst::Loop(vec![])]),
            Inst::Input,
        ])
    );
}

#[test]
fn clone_of_an_instruction_is_equal_to_it() {
    let inst = Inst::Loop(vec![Inst::PtrInc, Inst::Loop(vec![Inst::DataInc]), Inst::PtrDec]);
    assert_eq!(inst.clone(), inst);
    assert_eq!(Inst::Output.clone(), Inst::Output);
}

#[test]
fn new_optimizer_holds_nothing() {
    assert!(Optimizer::new().finish().is_empty());
}

#[test]
fn optimizer_passes_the_program_through() {
    let tokens = Parser::new("++>+++<[->+<]").parse().unwrap();
    let mut optimizer = Optimizer::new();
    optimizer.write_tokens(&tokens);
    assert_eq!(
        optimizer.finish(),
        vec![
            Inst::DataInc,
            Inst::DataInc,
            Inst::PtrInc,
            Inst::DataInc,
            Inst::DataInc,
            Inst::DataInc,
            Inst::PtrDec,
            Inst::Loop(vec![Inst::DataDec, Inst::PtrInc, Inst::DataInc, Inst::PtrDec]),
        ]
    );
}

#[test]
fn optimizer_appends_what_is_written_later() {
    let mut optimizer = Optimizer::new();
    optimizer.write_tokens(&[Token::DataInc, Token::Output]);
    optimizer.write_tokens(&[]);
    optimizer.write_tokens(&[Token::Loop(vec![Token::DataDec])]);
    assert_eq!(
        optimizer.finish(),
        vec![Inst::DataInc, Inst::Output, Inst::Loop(vec![Inst::DataDec])]
    );
}

#[test]
fn clone_of_an_optimizer_holds_the_same() {
    let mut optimizer = Optimizer::new();
    optimizer.write_tokens(&[Token::PtrInc]);
    let copy = optimizer.clone();
    optimizer.write_tokens(&[Token::PtrDec]);
    assert_eq!(copy.finish(), vec![Inst::PtrInc]);
    assert_eq!(optimizer.finish(), vec![Inst::PtrInc, Inst::PtrDec]);
}
