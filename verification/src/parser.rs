//! The parser: from source text to a tree of tokens.

use vstd::prelude::*;
use vstd::string::StringSliceAdditionalSpecFns;
use crate::grammar::{
    lemma_read_item_advances, lemma_read_items_advances, read_item, read_items, DATA_DEC, DATA_INC,
    INPUT, LOOP_CLOSE, LOOP_OPEN, OUTPUT, PTR_DEC, PTR_INC,
};
use crate::tree::Node;

verus! {

/// Any Brainfreak token.
#[derive(Debug)]
pub enum Token {
    /// `+`
    DataInc,
    /// `-`
    DataDec,
    /// `>`
    PtrInc,
    /// `<`
    PtrDec,
    /// `.`
    Output,
    /// `,`
    Input,
    /// `[]`
    Loop(Vec<Token>),
}

impl View for Token {
    type V = Node;

    open spec fn view(&self) -> Node
        decreases self,
    {
        match self {
            Token::DataInc => Node::DataInc,
            Token::DataDec => Node::DataDec,
            Token::PtrInc => Node::PtrInc,
            Token::PtrDec => Node::PtrDec,
            Token::Output => Node::Output,
            Token::Input => Node::Input,
            Token::Loop(tokens) => Node::Loop(token_nodes(tokens@)),
        }
    }
}

/// The nodes that a sequence of tokens stands for.
pub open spec fn token_nodes(tokens: Seq<Token>) -> Seq<Node>
    decreases tokens,
{
    if tokens.len() == 0 {
        Seq::empty()
    } else {
        token_nodes(tokens.drop_last()).push(tokens.last()@)
    }
}

/// The nodes of a token that may be absent.
pub open spec fn optional_nodes(token: Option<Token>) -> Seq<Node> {
    match token {
        Some(token) => seq![token@],
        None => Seq::empty(),
    }
}

/// An error which occurred during parsing.
#[derive(Clone, Copy, Debug, PartialEq, Eq, Structural)]
pub enum ParseError {
    /// `[` group was started but no matching `]` was found.
    UnmatchedBrackets {
        /// The index of the first bracket.
        idx: usize,
    },
}

/// Holds when `result` is the error for a `[` at offset `at` that has no `]`.
pub open spec fn is_unmatched<T>(result: Result<T, ParseError>, at: int) -> bool {
    result matches Err(ParseError::UnmatchedBrackets { idx }) && idx == at
}

/// A parser for Brainfreak source.
#[derive(Debug)]
pub struct Parser<'a> {
    /// The text, as its UTF-8 bytes.
    bytes: &'a [u8],
    /// The offset of the next byte to read.
    idx: usize,
}

impl<'a> Parser<'a> {
    /// The bytes of the text that this parser reads.
    pub closed spec fn source(&self) -> Seq<u8> {
        self.bytes@
    }

    /// The offset of the next byte that this parser will read.
    pub closed spec fn offset(&self) -> int {
        self.idx as int
    }

    #[verifier::type_invariant]
    spec fn in_bounds(&self) -> bool {
        self.idx <= self.bytes@.len()
    }

    /// Creates a new Brainfreak [Parser] for the provided string.
    pub fn new(str: &'a str) -> (parser: Self)
        ensures
            parser.source() == str.spec_bytes(),
            parser.offset() == 0,
    {
        Self { bytes: str.as_bytes(), idx: 0 }
    }

    /// Returns the next byte in the parser without iterating it.
    #[inline]
    fn peek_char(&self) -> (next: Option<u8>)
        ensures
            self.offset() <= self.source().len(),
            self.offset() < self.source().len() ==> next == Some(self.source()[self.offset()]),
            self.offset() == self.source().len() ==> next is None,
    {
        proof {
            use_type_invariant(self);
        }
        if self.idx < self.bytes.len() {
            Some(self.bytes[self.idx])
        } else {
            None
        }
    }

    /// Returns the next byte in the [Parser], if any, and moves past it.
    fn next_char(&mut self) -> (next: Option<u8>)
        ensures
            final(self).source() == old(self).source(),
            old(self).offset() <= old(self).source().len(),
            old(self).offset() < old(self).source().len() ==> next == Some(
                old(self).source()[old(self).offset()],
            ) && final(self).offset() == old(self).offset() + 1,
            old(self).offset() == old(self).source().len() ==> next is None && final(self).offset()
                == old(self).offset(),
    {
        proof {
            use_type_invariant(&*self);
        }
        if self.idx < self.bytes.len() {
            let next = self.bytes[self.idx];
            self.idx += 1;
            Some(next)
        } else {
            None
        }
    }

    /// Parses a `[]` loop.  Assumes the first `[` has been iterated past already.
    fn parse_loop(&mut self) -> (result: Result<Vec<Token>, ParseError>)
        requires
            old(self).offset() > 0,
        ensures
            final(self).source() == old(self).source(),
            ({
                let s = old(self).source();
                let body = read_items(s, old(self).offset(), true);
                match body.unmatched {
                    Some(at) => {
                        &&& is_unmatched(result, at)
                        &&& final(self).offset() == s.len()
                    },
                    None => if body.end < s.len() {
                        &&& result is Ok
                        &&& token_nodes(result->Ok_0@) == body.nodes
                        &&& final(self).offset() == body.end + 1
                    } else {
                        &&& is_unmatched(result, old(self).offset() - 1)
                        &&& final(self).offset() == s.len()
                    },
                }
            }),
        decreases old(self).source().len() - old(self).offset(), 1int,
    {
        // We are already iterated past the first bracket, so the index needs to be modified to
        // match it.
        let start_idx = self.idx - 1;
        let ghost s = self.source();
        let ghost start = self.offset();

        let mut tokens: Vec<Token> = Vec::new();

        proof {
            use_type_invariant(&*self);
        }
        loop
            invariant
                s == old(self).source(),
                start == old(self).offset(),
                self.source() == s,
                start <= self.offset() <= s.len(),
                read_items(s, start, true).unmatched == read_items(
                    s,
                    self.offset(),
                    true,
                ).unmatched,
                read_items(s, start, true).end == read_items(s, self.offset(), true).end,
                read_items(s, start, true).unmatched is None ==> read_items(s, start, true).nodes
                    == token_nodes(tokens@) + read_items(s, self.offset(), true).nodes,
            ensures
                self.offset() == read_items(s, start, true).end,
                read_items(s, start, true).unmatched is None,
                read_items(s, start, true).nodes == token_nodes(tokens@),
            decreases s.len() - self.offset(),
        {
            match self.peek_char() {
                Some(next_char) => {
                    if next_char == LOOP_CLOSE {
                        break ;
                    }
                },
                None => {
                    break ;
                },
            }
            let ghost before = self.offset();
            proof {
                lemma_read_item_advances(s, before);
            }
            match self.parse_token() {
                Err(error) => {
                    return Err(error);
                },
                Ok(Some(token)) => {
                    proof {
                        lemma_token_nodes_push(tokens@, token);
                    }
                    tokens.push(token);
                },
                Ok(None) => {},
            }
        }

        proof {
            lemma_read_items_advances(s, start, true);
        }
        match self.next_char() {
            Some(_) => {},
            None => {
                return Err(ParseError::UnmatchedBrackets { idx: start_idx });
            },
        }

        Ok(tokens)
    }

    /// Parses a single token.
    fn parse_token(&mut self) -> (result: Result<Option<Token>, ParseError>)
        ensures
            final(self).source() == old(self).source(),
            old(self).offset() >= old(self).source().len() ==> result == Ok::<_, ParseError>(
                None::<Token>,
            ) && final(self).offset() == old(self).offset(),
            old(self).offset() < old(self).source().len() ==> ({
                let item = read_item(old(self).source(), old(self).offset());
                &&& final(self).offset() == item.end
                &&& match item.unmatched {
                    Some(at) => is_unmatched(result, at),
                    None => result is Ok && optional_nodes(result->Ok_0) == item.nodes,
                }
            }),
        decreases old(self).source().len() - old(self).offset(), 0int,
    {
        let next_char = match self.next_char() {
            Some(next_char) => next_char,
            None => {
                return Ok(None);
            },
        };

        if next_char == PTR_INC {
            Ok(Some(Token::PtrInc))
        } else if next_char == PTR_DEC {
            Ok(Some(Token::PtrDec))
        } else if next_char == DATA_INC {
            Ok(Some(Token::DataInc))
        } else if next_char == DATA_DEC {
            Ok(Some(Token::DataDec))
        } else if next_char == OUTPUT {
            Ok(Some(Token::Output))
        } else if next_char == INPUT {
            Ok(Some(Token::Input))
        } else if next_char == LOOP_OPEN {
            match self.parse_loop() {
                Ok(tokens) => Ok(Some(Token::Loop(tokens))),
                Err(error) => Err(error),
            }
        } else {
            Ok(None)
        }
    }

    /// Parses all tokens from the provided file.
    pub fn parse(&mut self) -> (result: Result<Vec<Token>, ParseError>)
        ensures
            final(self).source() == old(self).source(),
            final(self).offset() == old(self).source().len(),
            match read_items(old(self).source(), old(self).offset(), false).unmatched {
                Some(at) => is_unmatched(result, at),
                None => result is Ok && token_nodes(result->Ok_0@) == read_items(
                    old(self).source(),
                    old(self).offset(),
                    false,
                ).nodes,
            },
    {
        let ghost s = self.source();
        let ghost start = self.offset();
        let mut tokens: Vec<Token> = Vec::new();

        proof {
            use_type_invariant(&*self);
        }
        loop
            invariant
                s == old(self).source(),
                start == old(self).offset(),
                self.source() == s,
                start <= self.offset() <= s.len(),
                read_items(s, start, false).unmatched == read_items(
                    s,
                    self.offset(),
                    false,
                ).unmatched,
                read_items(s, start, false).unmatched is None ==> read_items(s, start, false).nodes
                    == token_nodes(tokens@) + read_items(s, self.offset(), false).nodes,
            ensures
                self.offset() == s.len(),
                read_items(s, start, false).unmatched is None,
                read_items(s, start, false).nodes == token_nodes(tokens@),
            decreases s.len() - self.offset(),
        {
            if self.peek_char().is_none() {
                break ;
            }
            proof {
                lemma_read_item_advances(s, self.offset());
            }
            match self.parse_token() {
                Err(error) => {
                    return Err(error);
                },
                Ok(Some(token)) => {
                    proof {
                        lemma_token_nodes_push(tokens@, token);
                    }
                    tokens.push(token);
                },
                Ok(None) => {},
            }
        }

        Ok(tokens)
    }
}

/// Appending a token appends its node.
proof fn lemma_token_nodes_push(tokens: Seq<Token>, token: Token)
    ensures
        token_nodes(tokens.push(token)) == token_nodes(tokens).push(token@),
{
    assert(tokens.push(token).drop_last() == tokens);
}

} // verus!
