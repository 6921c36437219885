//! A command line as the receiver hands it on: the tag, the command,
//! and the tokens of its arguments.

use vstd::prelude::*;
use vstd::string::StringExecFns;
use vstd::utf8::{decode_utf8, valid_utf8};
use crate::compare::views;
use crate::message::utf8_text;
use crate::text::{eq_ignore_ascii_case, equal_ignoring_case};

verus! {

/// A token of a command line.
#[derive(Debug)]
pub enum Token {
    Argument(Vec<u8>),
    ParenthesisOpen,
    ParenthesisClose,
    BracketOpen,
    BracketClose,
    Lt,
    Gt,
    Dot,
    Nil,
}

pub enum TokenView {
    Argument(Seq<u8>),
    ParenthesisOpen,
    ParenthesisClose,
    BracketOpen,
    BracketClose,
    Lt,
    Gt,
    Dot,
    Nil,
}

impl View for Token {
    type V = TokenView;

    open spec fn view(&self) -> TokenView {
        match self {
            Token::Argument(value) => TokenView::Argument(value@),
            Token::ParenthesisOpen => TokenView::ParenthesisOpen,
            Token::ParenthesisClose => TokenView::ParenthesisClose,
            Token::BracketOpen => TokenView::BracketOpen,
            Token::BracketClose => TokenView::BracketClose,
            Token::Lt => TokenView::Lt,
            Token::Gt => TokenView::Gt,
            Token::Dot => TokenView::Dot,
            Token::Nil => TokenView::Nil,
        }
    }
}

impl TokenView {
    /// The text of a token that is no argument: the character it stands
    /// for; `NIL` gives the empty text.
    pub open spec fn symbol(self) -> Seq<char> {
        match self {
            TokenView::ParenthesisOpen => "("@,
            TokenView::ParenthesisClose => ")"@,
            TokenView::BracketOpen => "["@,
            TokenView::BracketClose => "]"@,
            TokenView::Lt => "<"@,
            TokenView::Gt => ">"@,
            TokenView::Dot => "."@,
            _ => ""@,
        }
    }

    /// The token as a string: an argument must be valid UTF-8, any other
    /// token gives its symbol.
    pub open spec fn string(self) -> Result<Seq<char>, Seq<char>> {
        match self {
            TokenView::Argument(value) => if valid_utf8(value) {
                Ok(decode_utf8(value))
            } else {
                Err("Invalid UTF-8 in argument."@)
            },
            other => Ok(other.symbol()),
        }
    }

    /// The bytes that the token stands for when it is compared.
    pub open spec fn bytes(self) -> Seq<u8> {
        match self {
            TokenView::Argument(value) => value,
            TokenView::ParenthesisOpen => seq![0x28u8],
            TokenView::ParenthesisClose => seq![0x29u8],
            TokenView::BracketOpen => seq![0x5bu8],
            TokenView::BracketClose => seq![0x5du8],
            TokenView::Lt => seq![0x3cu8],
            TokenView::Gt => seq![0x3eu8],
            TokenView::Dot => seq![0x2eu8],
            TokenView::Nil => Seq::empty(),
        }
    }
}

impl Token {
    /// The token as a string.
    pub fn unwrap_string(&self) -> (text: Result<String, String>)
        ensures
            match self@.string() {
                Ok(expected) => text matches Ok(found) && found@ == expected,
                Err(expected) => text matches Err(found) && found@ == expected,
            },
    {
        match self {
            Token::Argument(value) => match utf8_text(value.as_slice()) {
                Some(text) => Ok(text),
                None => Err(String::from_str("Invalid UTF-8 in argument.")),
            },
            Token::ParenthesisOpen => Ok(String::from_str("(")),
            Token::ParenthesisClose => Ok(String::from_str(")")),
            Token::BracketOpen => Ok(String::from_str("[")),
            Token::BracketClose => Ok(String::from_str("]")),
            Token::Lt => Ok(String::from_str("<")),
            Token::Gt => Ok(String::from_str(">")),
            Token::Dot => Ok(String::from_str(".")),
            Token::Nil => Ok(String::from_str("")),
        }
    }

    /// Whether the token is an opening parenthesis.
    pub fn is_parenthesis_open(&self) -> (open: bool)
        ensures
            open == (self@ is ParenthesisOpen),
    {
        match self {
            Token::ParenthesisOpen => true,
            _ => false,
        }
    }

    /// Whether the token is a closing parenthesis.
    pub fn is_parenthesis_close(&self) -> (close: bool)
        ensures
            close == (self@ is ParenthesisClose),
    {
        match self {
            Token::ParenthesisClose => true,
            _ => false,
        }
    }

    /// Whether the token spells `word`, without regard to the case of
    /// an argument's ASCII letters.
    pub fn eq_ignore_ascii_case(&self, word: &[u8]) -> (same: bool)
        ensures
            same == match self@ {
                TokenView::Argument(value) => equal_ignoring_case(value, word@),
                other => other.bytes() == word@,
            },
    {
        match self {
            Token::Argument(value) => eq_ignore_ascii_case(value.as_slice(), word),
            Token::ParenthesisOpen => is_byte(word, 0x28),
            Token::ParenthesisClose => is_byte(word, 0x29),
            Token::BracketOpen => is_byte(word, 0x5b),
            Token::BracketClose => is_byte(word, 0x5d),
            Token::Lt => is_byte(word, 0x3c),
            Token::Gt => is_byte(word, 0x3e),
            Token::Dot => is_byte(word, 0x2e),
            Token::Nil => {
                let empty = word.len() == 0;
                assert(empty == (word@ =~= Seq::<u8>::empty()));
                empty
            },
        }
    }
}

/// Whether `word` is the one byte `byte`.
fn is_byte(word: &[u8], byte: u8) -> (same: bool)
    ensures
        same == (word@ == seq![byte]),
{
    let same = word.len() == 1 && word[0] == byte;
    assert(same == (word@ =~= seq![byte]));
    same
}

/// The commands of the protocol that carry arguments parsed here.
#[derive(Clone, Copy, Debug, PartialEq, Eq, Structural)]
pub enum Command {
    List,
    Lsub,
}

/// A command line: its tag, its command, and its tokens.
#[derive(Debug)]
pub struct Request {
    pub tag: String,
    pub command: Command,
    pub tokens: Vec<Token>,
}

/// A request that is turned down: the tag to answer under, and why.
#[derive(Debug)]
pub struct Error {
    pub tag: String,
    pub message: String,
}

pub struct ErrorView {
    pub tag: Seq<char>,
    pub message: Seq<char>,
}

impl View for Error {
    type V = ErrorView;

    open spec fn view(&self) -> ErrorView {
        ErrorView { tag: self.tag@, message: self.message@ }
    }
}

/// Turns a request down as badly formed.
pub fn bad(tag: &String, message: String) -> (error: Error)
    ensures
        error@ == (ErrorView { tag: tag@, message: message@ }),
{
    Error { tag: tag.clone(), message }
}

} // verus!
