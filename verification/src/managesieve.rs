//! ManageSieve: the `CHECKSCRIPT` command.

use vstd::prelude::*;
use vstd::string::StringExecFns;
use crate::compare::views;
use crate::imap::receiver::{Token, TokenView};
use crate::message::copy_bytes;

verus! {

impl TokenView {
    /// The bytes of a token: those of an argument, else those of its
    /// symbol.
    pub open spec fn contents(self) -> Seq<u8> {
        self.bytes()
    }
}

impl Token {
    /// The bytes of the token.
    pub fn unwrap_bytes(&self) -> (bytes: Vec<u8>)
        ensures
            bytes@ == self@.contents(),
    {
        match self {
            Token::Argument(value) => copy_bytes(value),
            Token::ParenthesisOpen => one_byte(0x28),
            Token::ParenthesisClose => one_byte(0x29),
            Token::BracketOpen => one_byte(0x5b),
            Token::BracketClose => one_byte(0x5d),
            Token::Lt => one_byte(0x3c),
            Token::Gt => one_byte(0x3e),
            Token::Dot => one_byte(0x2e),
            Token::Nil => Vec::new(),
        }
    }
}

fn one_byte(byte: u8) -> (bytes: Vec<u8>)
    ensures
        bytes@ == seq![byte],
{
    let mut bytes: Vec<u8> = Vec::new();
    bytes.push(byte);
    bytes
}

/// The script that a `CHECKSCRIPT` command carries: its first token.
/// A command without tokens is turned down.
pub open spec fn script_of(tokens: Seq<TokenView>) -> Result<Seq<u8>, Seq<char>> {
    if tokens.len() == 0 {
        Err("Expected script as a parameter."@)
    } else {
        Ok(tokens[0].contents())
    }
}

/// What the check of a script answers: that the script is valid, or
/// what the compiler found wrong with it.
pub open spec fn checked(compiled: Result<(), String>) -> Result<Seq<char>, Seq<char>> {
    match compiled {
        Ok(()) => Ok("Script is valid."@),
        Err(details) => Err(details@),
    }
}

/// A ManageSieve session.
#[derive(Debug)]
pub struct Session {
    pub session_id: u64,
}

impl Session {
    /// Takes the script out of a `CHECKSCRIPT` command, for the compiler
    /// to check it.
    pub fn handle_checkscript(&self, tokens: &Vec<Token>) -> (script: Result<Vec<u8>, String>)
        ensures
            match script_of(views(tokens@)) {
                Ok(expected) => script matches Ok(found) && found@ == expected,
                Err(expected) => script matches Err(found) && found@ == expected,
            },
    {
        if tokens.len() == 0 {
            return Err(String::from_str("Expected script as a parameter."));
        }
        Ok(tokens[0].unwrap_bytes())
    }

    /// Answers a `CHECKSCRIPT` command once the script went through the
    /// compiler.
    pub fn script_checked(&self, compiled: Result<(), String>) -> (answer: Result<String, String>)
        ensures
            match checked(compiled) {
                Ok(expected) => answer matches Ok(found) && found@ == expected,
                Err(expected) => answer matches Err(found) && found@ == expected,
            },
    {
        match compiled {
            Ok(()) => Ok(String::from_str("Script is valid.")),
            Err(details) => Err(details),
        }
    }
}

} // verus!
