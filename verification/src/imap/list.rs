//! The arguments of `LIST`: the basic form with a reference name and a
//! mailbox name, and the extended form with selection options, several
//! mailbox patterns and return options.

use vstd::prelude::*;
use vstd::string::{StringExecFns, StringSliceAdditionalSpecFns};
use vstd::utf8::encode_utf8;
use crate::compare::{lemma_views_push, views};
use crate::imap::receiver::{Error, ErrorView, Request, Token, TokenView, bad};
use crate::imap::utf7::{ProtocolVersion, maybe_decoded, utf7_maybe_decode};
use crate::text::{debug_text, eq_ignore_ascii_case, equal_ignoring_case, from_utf8_lossy, lossy,
    quoted};

verus! {

/// Which mailboxes a `LIST` command selects.
#[derive(Clone, Copy, Debug, PartialEq, Eq, Structural)]
pub enum SelectionOption {
    Subscribed,
    Remote,
    RecursiveMatch,
    SpecialUse,
}

/// A status item that can be asked for with a mailbox.
#[derive(Clone, Copy, Debug, PartialEq, Eq, Structural)]
pub enum Status {
    Messages,
    UidNext,
    UidValidity,
    Unseen,
    Deleted,
    Size,
    HighestModSeq,
    MailboxId,
    Recent,
    DeletedStorage,
}

/// What a `LIST` command returns with each mailbox.
#[derive(Debug, PartialEq, Eq)]
pub enum ReturnOption {
    Subscribed,
    Children,
    Status(Vec<Status>),
    SpecialUse,
}

pub enum ReturnOptionView {
    Subscribed,
    Children,
    Status(Seq<Status>),
    SpecialUse,
}

impl View for ReturnOption {
    type V = ReturnOptionView;

    open spec fn view(&self) -> ReturnOptionView {
        match self {
            ReturnOption::Subscribed => ReturnOptionView::Subscribed,
            ReturnOption::Children => ReturnOptionView::Children,
            ReturnOption::Status(items) => ReturnOptionView::Status(items@),
            ReturnOption::SpecialUse => ReturnOptionView::SpecialUse,
        }
    }
}

/// The arguments of a `LIST` command.
#[derive(Debug, PartialEq, Eq)]
#[allow(inconsistent_fields)]
pub enum Arguments {
    Basic { tag: String, reference_name: String, mailbox_name: String },
    Extended {
        tag: String,
        reference_name: String,
        mailbox_name: Vec<String>,
        selection_options: Vec<SelectionOption>,
        return_options: Vec<ReturnOption>,
    },
}

#[allow(inconsistent_fields)]
pub enum ArgumentsView {
    Basic { tag: Seq<char>, reference_name: Seq<char>, mailbox_name: Seq<char> },
    Extended {
        tag: Seq<char>,
        reference_name: Seq<char>,
        mailbox_name: Seq<Seq<char>>,
        selection_options: Seq<SelectionOption>,
        return_options: Seq<ReturnOptionView>,
    },
}

impl View for Arguments {
    type V = ArgumentsView;

    open spec fn view(&self) -> ArgumentsView {
        match self {
            Arguments::Basic { tag, reference_name, mailbox_name } => ArgumentsView::Basic {
                tag: tag@,
                reference_name: reference_name@,
                mailbox_name: mailbox_name@,
            },
            Arguments::Extended {
                tag,
                reference_name,
                mailbox_name,
                selection_options,
                return_options,
            } => ArgumentsView::Extended {
                tag: tag@,
                reference_name: reference_name@,
                mailbox_name: views(mailbox_name@),
                selection_options: selection_options@,
                return_options: views(return_options@),
            },
        }
    }
}

/// Whether `value` spells `word`, without regard to case.
pub open spec fn spells(value: Seq<u8>, word: Seq<char>) -> bool {
    equal_ignoring_case(value, encode_utf8(word))
}

/// The selection option that a word names.
pub open spec fn selection_option(value: Seq<u8>) -> Result<SelectionOption, Seq<char>> {
    if spells(value, "SUBSCRIBED"@) {
        Ok(SelectionOption::Subscribed)
    } else if spells(value, "REMOTE"@) {
        Ok(SelectionOption::Remote)
    } else if spells(value, "RECURSIVEMATCH"@) {
        Ok(SelectionOption::RecursiveMatch)
    } else if spells(value, "SPECIAL-USE"@) {
        Ok(SelectionOption::SpecialUse)
    } else {
        Err("Unsupported selection option '"@ + lossy(value) + "'."@)
    }
}

/// The return option that a word names; `STATUS` comes without items.
pub open spec fn return_option(value: Seq<u8>) -> Result<ReturnOptionView, Seq<char>> {
    if spells(value, "SUBSCRIBED"@) {
        Ok(ReturnOptionView::Subscribed)
    } else if spells(value, "CHILDREN"@) {
        Ok(ReturnOptionView::Children)
    } else if spells(value, "STATUS"@) {
        Ok(ReturnOptionView::Status(Seq::empty()))
    } else if spells(value, "SPECIAL-USE"@) {
        Ok(ReturnOptionView::SpecialUse)
    } else {
        Err("Invalid return option "@ + quoted(lossy(value)))
    }
}

/// The status item that a word names.
pub open spec fn status_item(value: Seq<u8>) -> Result<Status, Seq<char>> {
    if spells(value, "MESSAGES"@) {
        Ok(Status::Messages)
    } else if spells(value, "UIDNEXT"@) {
        Ok(Status::UidNext)
    } else if spells(value, "UIDVALIDITY"@) {
        Ok(Status::UidValidity)
    } else if spells(value, "UNSEEN"@) {
        Ok(Status::Unseen)
    } else if spells(value, "DELETED"@) {
        Ok(Status::Deleted)
    } else if spells(value, "SIZE"@) {
        Ok(Status::Size)
    } else if spells(value, "HIGHESTMODSEQ"@) {
        Ok(Status::HighestModSeq)
    } else if spells(value, "MAILBOXID"@) {
        Ok(Status::MailboxId)
    } else if spells(value, "RECENT"@) {
        Ok(Status::Recent)
    } else if spells(value, "DELETED-STORAGE"@) {
        Ok(Status::DeletedStorage)
    } else {
        Err("Invalid status option '"@ + lossy(value) + "'."@)
    }
}

/// Whether `value` spells the literal `word`.
fn is_word(value: &[u8], word: &str) -> (same: bool)
    ensures
        same == spells(value@, word@),
{
    eq_ignore_ascii_case(value, word.as_bytes())
}

/// A message with the lossy text of `value` between two parts.
fn message_about(before: &str, value: &[u8], after: &str) -> (message: String)
    ensures
        message@ == before@ + lossy(value@) + after@,
{
    let mut message = String::from_str(before);
    let text = from_utf8_lossy(value);
    message.append(text.as_str());
    message.append(after);
    message
}

impl SelectionOption {
    /// Reads a selection option.
    pub fn parse(value: &[u8]) -> (option: Result<SelectionOption, String>)
        ensures
            match selection_option(value@) {
                Ok(expected) => option == Ok::<SelectionOption, String>(expected),
                Err(expected) => option matches Err(found) && found@ == expected,
            },
    {
        if is_word(value, "SUBSCRIBED") {
            Ok(SelectionOption::Subscribed)
        } else if is_word(value, "REMOTE") {
            Ok(SelectionOption::Remote)
        } else if is_word(value, "RECURSIVEMATCH") {
            Ok(SelectionOption::RecursiveMatch)
        } else if is_word(value, "SPECIAL-USE") {
            Ok(SelectionOption::SpecialUse)
        } else {
            Err(message_about("Unsupported selection option '", value, "'."))
        }
    }
}

impl ReturnOption {
    /// Reads a return option; `STATUS` comes without items.
    pub fn parse(value: &[u8]) -> (option: Result<ReturnOption, String>)
        ensures
            match return_option(value@) {
                Ok(expected) => option matches Ok(found) && found@ == expected,
                Err(expected) => option matches Err(found) && found@ == expected,
            },
    {
        if is_word(value, "SUBSCRIBED") {
            Ok(ReturnOption::Subscribed)
        } else if is_word(value, "CHILDREN") {
            Ok(ReturnOption::Children)
        } else if is_word(value, "STATUS") {
            Ok(ReturnOption::Status(Vec::new()))
        } else if is_word(value, "SPECIAL-USE") {
            Ok(ReturnOption::SpecialUse)
        } else {
            let mut message = String::from_str("Invalid return option ");
            let text = from_utf8_lossy(value);
            let literal = debug_text(text.as_str());
            message.append(literal.as_str());
            Err(message)
        }
    }
}

impl Status {
    /// Reads a status item.
    pub fn parse(value: &[u8]) -> (item: Result<Status, String>)
        ensures
            match status_item(value@) {
                Ok(expected) => item == Ok::<Status, String>(expected),
                Err(expected) => item matches Err(found) && found@ == expected,
            },
    {
        if is_word(value, "MESSAGES") {
            Ok(Status::Messages)
        } else if is_word(value, "UIDNEXT") {
            Ok(Status::UidNext)
        } else if is_word(value, "UIDVALIDITY") {
            Ok(Status::UidValidity)
        } else if is_word(value, "UNSEEN") {
            Ok(Status::Unseen)
        } else if is_word(value, "DELETED") {
            Ok(Status::Deleted)
        } else if is_word(value, "SIZE") {
            Ok(Status::Size)
        } else if is_word(value, "HIGHESTMODSEQ") {
            Ok(Status::HighestModSeq)
        } else if is_word(value, "MAILBOXID") {
            Ok(Status::MailboxId)
        } else if is_word(value, "RECENT") {
            Ok(Status::Recent)
        } else if is_word(value, "DELETED-STORAGE") {
            Ok(Status::DeletedStorage)
        } else {
            Err(message_about("Invalid status option '", value, "'."))
        }
    }
}

/// What reading a list of items from the tokens gives: the items and
/// the position behind the list, or why the list is turned down.
pub type Listed<T> = Result<(Seq<T>, int), Seq<char>>;

/// A list with more items in front of it.
pub open spec fn prepended<T>(front: Seq<T>, rest: Listed<T>) -> Listed<T> {
    match rest {
        Ok((items, next)) => Ok((front + items, next)),
        Err(message) => Err(message),
    }
}

/// Putting items in front one by one is putting them in front at once.
pub proof fn lemma_prepended<T>(front: Seq<T>, item: T, rest: Listed<T>)
    ensures
        prepended(front, prepended(seq![item], rest)) == prepended(front.push(item), rest),
        prepended(front, Ok::<(Seq<T>, int), Seq<char>>((Seq::empty(), 0int))) == Ok::<
            (Seq<T>, int),
            Seq<char>,
        >((front, 0int)),
{
    match rest {
        Ok((items, next)) => {
            assert(front + (seq![item] + items) =~= front.push(item) + items);
        },
        Err(_) => {},
    }
    assert(front + Seq::<T>::empty() =~= front);
}

/// The selection options from `pos` on, up to the closing parenthesis
/// or the end of the tokens.
pub open spec fn selection_list(tokens: Seq<TokenView>, pos: int) -> Listed<SelectionOption>
    decreases tokens.len() - pos,
{
    if pos < 0 || pos >= tokens.len() {
        Ok((Seq::empty(), pos))
    } else {
        match tokens[pos] {
            TokenView::ParenthesisClose => Ok((Seq::empty(), pos + 1)),
            TokenView::Argument(value) => match selection_option(value) {
                Ok(option) => prepended(seq![option], selection_list(tokens, pos + 1)),
                Err(message) => Err(message),
            },
            _ => Err("Invalid selection option argument."@),
        }
    }
}

/// The mailbox patterns from `pos` on, up to the closing parenthesis or
/// the end of the tokens.
pub open spec fn name_list(tokens: Seq<TokenView>, pos: int) -> Listed<Seq<char>>
    decreases tokens.len() - pos,
{
    if pos < 0 || pos >= tokens.len() {
        Ok((Seq::empty(), pos))
    } else {
        match tokens[pos] {
            TokenView::ParenthesisClose => Ok((Seq::empty(), pos + 1)),
            token => match token.string() {
                Ok(name) => prepended(seq![name], name_list(tokens, pos + 1)),
                Err(message) => Err(message),
            },
        }
    }
}

/// The status items from `pos` on, up to the closing parenthesis or the
/// end of the tokens.
pub open spec fn status_list(tokens: Seq<TokenView>, pos: int) -> Listed<Status>
    decreases tokens.len() - pos,
{
    if pos < 0 || pos >= tokens.len() {
        Ok((Seq::empty(), pos))
    } else {
        match tokens[pos] {
            TokenView::ParenthesisClose => Ok((Seq::empty(), pos + 1)),
            TokenView::Argument(value) => match status_item(value) {
                Ok(item) => prepended(seq![item], status_list(tokens, pos + 1)),
                Err(message) => Err(message),
            },
            _ => Err("Invalid status return option argument."@),
        }
    }
}

/// The return options from `pos` on, up to the closing parenthesis or
/// the end of the tokens. `STATUS` is followed by its items in
/// parentheses.
pub open spec fn return_list(tokens: Seq<TokenView>, pos: int) -> Listed<ReturnOptionView>
    decreases tokens.len() - pos,
{
    if pos < 0 || pos >= tokens.len() {
        Ok((Seq::empty(), pos))
    } else {
        match tokens[pos] {
            TokenView::ParenthesisClose => Ok((Seq::empty(), pos + 1)),
            TokenView::Argument(value) => match return_option(value) {
                Ok(ReturnOptionView::Status(_)) => if pos + 1 < tokens.len() && tokens[pos
                    + 1] is ParenthesisOpen {
                    match status_list(tokens, pos + 2) {
                        Ok((items, next)) => if pos < next <= tokens.len() {
                            prepended(
                                seq![ReturnOptionView::Status(items)],
                                return_list(tokens, next),
                            )
                        } else {
                            // A list ends behind where it began.
                            Err(Seq::empty())
                        },
                        Err(message) => Err(message),
                    }
                } else {
                    Err("Invalid return option, expected parenthesis after STATUS."@)
                },
                Ok(option) => prepended(seq![option], return_list(tokens, pos + 1)),
                Err(message) => Err(message),
            },
            _ => Err("Invalid return option argument."@),
        }
    }
}

/// A list of status items ends at or behind where it began.
pub proof fn lemma_status_list_next(tokens: Seq<TokenView>, pos: int)
    requires
        0 <= pos,
    ensures
        status_list(tokens, pos) matches Ok((_, next)) ==> pos <= next <= tokens.len() || (pos
            > tokens.len() && next == pos),
    decreases tokens.len() - pos,
{
    if pos < tokens.len() {
        lemma_status_list_next(tokens, pos + 1);
    }
}

/// Whether a token is the word `RETURN`.
pub open spec fn is_return(token: TokenView) -> bool {
    token matches TokenView::Argument(value) && spells(value, "return"@)
}

/// A token as a string, with the position behind it.
pub open spec fn string_at(tokens: Seq<TokenView>, pos: int) -> Result<(Seq<char>, int), Seq<char>> {
    match tokens[pos].string() {
        Ok(text) => Ok((text, pos + 1)),
        Err(message) => Err(message),
    }
}

/// The selection options of the extended form, and where the reference
/// name stands: in parentheses before it, if the first token opens one.
pub open spec fn selection_part(tokens: Seq<TokenView>) -> Listed<SelectionOption> {
    if tokens[0] is ParenthesisOpen {
        selection_list(tokens, 1)
    } else {
        Ok((Seq::empty(), 0))
    }
}

/// The reference name at `pos`.
pub open spec fn reference_part(tokens: Seq<TokenView>, pos: int) -> Result<
    (Seq<char>, int),
    Seq<char>,
> {
    if 0 <= pos < tokens.len() {
        string_at(tokens, pos)
    } else {
        Err("Missing reference name."@)
    }
}

/// The mailbox patterns at `pos`: several in parentheses, taken as they
/// are written, or one, decoded as the protocol version asks.
pub open spec fn mailbox_part(tokens: Seq<TokenView>, pos: int, version: ProtocolVersion) -> Listed<
    Seq<char>,
> {
    if !(0 <= pos < tokens.len()) {
        Err("Missing mailbox name."@)
    } else if tokens[pos] is ParenthesisOpen {
        name_list(tokens, pos + 1)
    } else {
        match tokens[pos].string() {
            Ok(name) => Ok((seq![maybe_decoded(name, version)], pos + 1)),
            Err(message) => Err(message),
        }
    }
}

/// The return options at `pos`: those behind the word `RETURN`, which
/// must be in parentheses. Whatever else stands at `pos` is passed over.
pub open spec fn return_part(tokens: Seq<TokenView>, pos: int) -> Listed<ReturnOptionView> {
    if 0 <= pos < tokens.len() && is_return(tokens[pos]) {
        if pos + 1 < tokens.len() && tokens[pos + 1] is ParenthesisOpen {
            return_list(tokens, pos + 2)
        } else {
            Err("Invalid return option, expected parenthesis."@)
        }
    } else {
        Ok((Seq::empty(), pos))
    }
}

/// The arguments that the tokens of a `LIST` command spell, or why they
/// are turned down. Two tokens are the basic form: a reference name and
/// a mailbox name. More are the extended form: selection options in
/// parentheses if the first token opens one, the reference name, the
/// mailbox patterns, and return options behind the word `RETURN`.
pub open spec fn list_arguments(tag: Seq<char>, tokens: Seq<TokenView>, version: ProtocolVersion) -> Result<
    ArgumentsView,
    Seq<char>,
> {
    if tokens.len() < 2 {
        Err("Missing arguments."@)
    } else if tokens.len() == 2 {
        match tokens[0].string() {
            Err(message) => Err(message),
            Ok(reference_name) => match tokens[1].string() {
                Err(message) => Err(message),
                Ok(name) => Ok(
                    ArgumentsView::Basic {
                        tag,
                        reference_name,
                        mailbox_name: maybe_decoded(name, version),
                    },
                ),
            },
        }
    } else {
        match selection_part(tokens) {
            Err(message) => Err(message),
            Ok((selection_options, at_reference)) => match reference_part(tokens, at_reference) {
                Err(message) => Err(message),
                Ok((reference_name, at_mailbox)) => match mailbox_part(
                    tokens,
                    at_mailbox,
                    version,
                ) {
                    Err(message) => Err(message),
                    Ok((mailbox_name, at_return)) => match return_part(tokens, at_return) {
                        Err(message) => Err(message),
                        Ok((return_options, _)) => Ok(
                            ArgumentsView::Extended {
                                tag,
                                reference_name,
                                mailbox_name,
                                selection_options,
                                return_options,
                            },
                        ),
                    },
                },
            },
        }
    }
}

/// Whether what was read is what the tokens spell.
pub open spec fn reads<T>(found: Result<(Vec<T>, usize), String>, expected: Listed<T>, len: nat) -> bool {
    match expected {
        Ok((items, next)) => found matches Ok((list, at)) && list@ == items && at == next && at
            <= len,
        Err(message) => found matches Err(text) && text@ == message,
    }
}

/// Reads selection options up to the closing parenthesis.
fn read_selection(tokens: &Vec<Token>, start: usize) -> (found: Result<
    (Vec<SelectionOption>, usize),
    String,
>)
    requires
        start <= tokens.len(),
    ensures
        reads(found, selection_list(views(tokens@), start as int), tokens@.len()),
{
    let ghost all = views(tokens@);
    let mut options: Vec<SelectionOption> = Vec::new();
    let mut pos: usize = start;
    proof {
        lemma_prepended_empty(selection_list(all, start as int));
    }
    while pos < tokens.len()
        invariant
            start <= pos <= tokens.len(),
            all == views(tokens@),
            selection_list(all, start as int) == prepended(
                options@,
                selection_list(all, pos as int),
            ),
        decreases tokens.len() - pos,
    {
        match &tokens[pos] {
            Token::ParenthesisClose => {
                assert(options@ + Seq::<SelectionOption>::empty() =~= options@);
                return Ok((options, pos + 1));
            },
            Token::Argument(value) => match SelectionOption::parse(value.as_slice()) {
                Ok(option) => {
                    proof {
                        lemma_prepended(options@, option, selection_list(all, pos + 1));
                    }
                    options.push(option);
                },
                Err(message) => {
                    return Err(message);
                },
            },
            _ => {
                return Err(String::from_str("Invalid selection option argument."));
            },
        }
        pos += 1;
    }
    assert(options@ + Seq::<SelectionOption>::empty() =~= options@);
    Ok((options, pos))
}

/// Nothing in front of a list leaves the list as it is.
pub proof fn lemma_prepended_empty<T>(rest: Listed<T>)
    ensures
        prepended(Seq::<T>::empty(), rest) == rest,
{
    match rest {
        Ok((items, next)) => {
            assert(Seq::<T>::empty() + items =~= items);
        },
        Err(_) => {},
    }
}

/// Reads status items up to the closing parenthesis.
fn read_status(tokens: &Vec<Token>, start: usize) -> (found: Result<(Vec<Status>, usize), String>)
    requires
        start <= tokens.len(),
    ensures
        reads(found, status_list(views(tokens@), start as int), tokens@.len()),
        found matches Ok((_, at)) ==> start <= at,
{
    let ghost all = views(tokens@);
    let mut items: Vec<Status> = Vec::new();
    let mut pos: usize = start;
    proof {
        lemma_prepended_empty(status_list(all, start as int));
    }
    while pos < tokens.len()
        invariant
            start <= pos <= tokens.len(),
            all == views(tokens@),
            status_list(all, start as int) == prepended(items@, status_list(all, pos as int)),
        decreases tokens.len() - pos,
    {
        match &tokens[pos] {
            Token::ParenthesisClose => {
                assert(items@ + Seq::<Status>::empty() =~= items@);
                return Ok((items, pos + 1));
            },
            Token::Argument(value) => match Status::parse(value.as_slice()) {
                Ok(item) => {
                    proof {
                        lemma_prepended(items@, item, status_list(all, pos + 1));
                    }
                    items.push(item);
                },
                Err(message) => {
                    return Err(message);
                },
            },
            _ => {
                return Err(String::from_str("Invalid status return option argument."));
            },
        }
        pos += 1;
    }
    assert(items@ + Seq::<Status>::empty() =~= items@);
    Ok((items, pos))
}

/// What was read is the names that the tokens spell.
pub open spec fn reads_names(
    found: Result<(Vec<String>, usize), String>,
    expected: Listed<Seq<char>>,
    len: nat,
) -> bool {
    match expected {
        Ok((items, next)) => found matches Ok((list, at)) && views(list@) == items && at == next
            && at <= len,
        Err(message) => found matches Err(text) && text@ == message,
    }
}

/// Reads mailbox patterns up to the closing parenthesis.
fn read_names(tokens: &Vec<Token>, start: usize) -> (found: Result<(Vec<String>, usize), String>)
    requires
        start <= tokens.len(),
    ensures
        reads_names(found, name_list(views(tokens@), start as int), tokens@.len()),
{
    let ghost all = views(tokens@);
    let mut names: Vec<String> = Vec::new();
    let mut pos: usize = start;
    proof {
        lemma_prepended_empty(name_list(all, start as int));
        assert(views(names@) =~= Seq::empty());
    }
    while pos < tokens.len()
        invariant
            start <= pos <= tokens.len(),
            all == views(tokens@),
            name_list(all, start as int) == prepended(views(names@), name_list(all, pos as int)),
        decreases tokens.len() - pos,
    {
        if tokens[pos].is_parenthesis_close() {
            assert(views(names@) + Seq::<Seq<char>>::empty() =~= views(names@));
            return Ok((names, pos + 1));
        }
        match tokens[pos].unwrap_string() {
            Ok(name) => {
                proof {
                    lemma_prepended(views(names@), name@, name_list(all, pos + 1));
                    lemma_views_push(names@, name);
                }
                names.push(name);
            },
            Err(message) => {
                return Err(message);
            },
        }
        pos += 1;
    }
    assert(views(names@) + Seq::<Seq<char>>::empty() =~= views(names@));
    Ok((names, pos))
}

/// What was read is the return options that the tokens spell.
pub open spec fn reads_returns(
    found: Result<(Vec<ReturnOption>, usize), String>,
    expected: Listed<ReturnOptionView>,
    len: nat,
) -> bool {
    match expected {
        Ok((items, next)) => found matches Ok((list, at)) && views(list@) == items && at == next
            && at <= len,
        Err(message) => found matches Err(text) && text@ == message,
    }
}

/// Reads return options up to the closing parenthesis.
fn read_returns(tokens: &Vec<Token>, start: usize) -> (found: Result<
    (Vec<ReturnOption>, usize),
    String,
>)
    requires
        start <= tokens.len(),
    ensures
        reads_returns(found, return_list(views(tokens@), start as int), tokens@.len()),
{
    let ghost all = views(tokens@);
    let mut options: Vec<ReturnOption> = Vec::new();
    let mut pos: usize = start;
    proof {
        lemma_prepended_empty(return_list(all, start as int));
        assert(views(options@) =~= Seq::empty());
    }
    while pos < tokens.len()
        invariant
            start <= pos <= tokens.len(),
            all == views(tokens@),
            return_list(all, start as int) == prepended(
                views(options@),
                return_list(all, pos as int),
            ),
        decreases tokens.len() - pos,
    {
        match &tokens[pos] {
            Token::ParenthesisClose => {
                assert(views(options@) + Seq::<ReturnOptionView>::empty() =~= views(options@));
                return Ok((options, pos + 1));
            },
            Token::Argument(value) => {
                match ReturnOption::parse(value.as_slice()) {
                    Ok(ReturnOption::Status(_)) => {
                        if !(pos + 1 < tokens.len() && tokens[pos + 1].is_parenthesis_open()) {
                            return Err(
                                String::from_str(
                                    "Invalid return option, expected parenthesis after STATUS.",
                                ),
                            );
                        }
                        match read_status(tokens, pos + 2) {
                            Ok((items, next)) => {
                                let option = ReturnOption::Status(items);
                                proof {
                                    lemma_prepended(
                                        views(options@),
                                        option@,
                                        return_list(all, next as int),
                                    );
                                    lemma_views_push(options@, option);
                                }
                                options.push(option);
                                pos = next;
                            },
                            Err(message) => {
                                return Err(message);
                            },
                        }
                    },
                    Ok(option) => {
                        proof {
                            lemma_prepended(views(options@), option@, return_list(all, pos + 1));
                            lemma_views_push(options@, option);
                        }
                        options.push(option);
                        pos += 1;
                    },
                    Err(message) => {
                        return Err(message);
                    },
                }
            },
            _ => {
                return Err(String::from_str("Invalid return option argument."));
            },
        }
    }
    assert(views(options@) + Seq::<ReturnOptionView>::empty() =~= views(options@));
    Ok((options, pos))
}

impl Request {
    /// Reads the arguments of a `LIST` command.
    pub fn parse_list(self, version: ProtocolVersion) -> (arguments: Result<Arguments, Error>)
        ensures
            match list_arguments(self.tag@, views(self.tokens@), version) {
                Ok(expected) => arguments matches Ok(found) && found@ == expected,
                Err(message) => arguments matches Err(error) && error@ == (ErrorView {
                    tag: self.tag@,
                    message,
                }),
            },
    {
        let Request { tag, command: _, tokens } = self;
        let ghost all = views(tokens@);
        if tokens.len() < 2 {
            return Err(bad(&tag, String::from_str("Missing arguments.")));
        }
        if tokens.len() == 2 {
            let reference_name = match tokens[0].unwrap_string() {
                Ok(name) => name,
                Err(message) => {
                    return Err(bad(&tag, message));
                },
            };
            let mailbox_name = match tokens[1].unwrap_string() {
                Ok(name) => utf7_maybe_decode(name, version),
                Err(message) => {
                    return Err(bad(&tag, message));
                },
            };
            return Ok(Arguments::Basic { tag, reference_name, mailbox_name });
        }
        // Selection options and the reference name
        let (selection_options, at_reference) = if tokens[0].is_parenthesis_open() {
            match read_selection(&tokens, 1) {
                Ok(found) => found,
                Err(message) => {
                    return Err(bad(&tag, message));
                },
            }
        } else {
            (Vec::new(), 0)
        };
        if at_reference >= tokens.len() {
            return Err(bad(&tag, String::from_str("Missing reference name.")));
        }
        let reference_name = match tokens[at_reference].unwrap_string() {
            Ok(name) => name,
            Err(message) => {
                return Err(bad(&tag, message));
            },
        };
        let at_mailbox = at_reference + 1;
        // Mailbox patterns
        if at_mailbox >= tokens.len() {
            return Err(bad(&tag, String::from_str("Missing mailbox name.")));
        }
        let (mailbox_name, at_return) = if tokens[at_mailbox].is_parenthesis_open() {
            match read_names(&tokens, at_mailbox + 1) {
                Ok(found) => found,
                Err(message) => {
                    return Err(bad(&tag, message));
                },
            }
        } else {
            match tokens[at_mailbox].unwrap_string() {
                Ok(name) => {
                    let mut names: Vec<String> = Vec::new();
                    let decoded = utf7_maybe_decode(name, version);
                    names.push(decoded);
                    assert(views(names@) =~= seq![decoded@]);
                    (names, at_mailbox + 1)
                },
                Err(message) => {
                    return Err(bad(&tag, message));
                },
            }
        };
        // Return options
        let is_return = at_return < tokens.len() && match &tokens[at_return] {
            Token::Argument(value) => is_word(value.as_slice(), "return"),
            _ => false,
        };
        let return_options = if is_return {
            if !(at_return + 1 < tokens.len() && tokens[at_return + 1].is_parenthesis_open()) {
                return Err(
                    bad(&tag, String::from_str("Invalid return option, expected parenthesis.")),
                );
            }
            match read_returns(&tokens, at_return + 2) {
                Ok((options, _)) => options,
                Err(message) => {
                    return Err(bad(&tag, message));
                },
            }
        } else {
            let options: Vec<ReturnOption> = Vec::new();
            assert(views(options@) =~= Seq::empty());
            options
        };
        Ok(
            Arguments::Extended {
                tag,
                reference_name,
                mailbox_name,
                selection_options,
                return_options,
            },
        )
    }
}

} // verus!
