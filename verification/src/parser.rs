//! A command parser.
//!
//! The grammar is stated over a [`TokenStream`], the tokens that the scanner
//! finds in a text. The parser reads the text one token ahead, so a text
//! with a scan error behind a parse error reports the parse error.

use crate::ast::{
    command_views, programs_named, BuiltIn, BuiltInCommand, BuiltInView, Command, CommandView,
    ExternalCommand, Redirection, RedirectionView,
};
use crate::scanner::{
    is_plain_word, is_whitespace_char, lemma_leading_whitespace_is_skipped,
    lemma_plain_word_round_trip, lemma_scan_token_rest, lemma_skip_whitespace_only, scan_token,
    ScanError, ScanErrorView, Scanner, Token, TokenTag, TokenView,
};
use crate::text::{decimal_digits, push_decimal, texts};
use vstd::prelude::*;

verus! {

/// Why a command text is not a pipeline.
#[derive(Debug)]
pub enum ParseError {
    /// The text could not be split into tokens.
    Scan(ScanError),
    /// A command starts with a token that is not a word.
    UnexpectedToken(TokenTag),
    /// A token of kind `expected` is missing; `found` is the text that
    /// stands in its place.
    Expected { expected: TokenTag, found: String },
    /// A redirection names a file descriptor other than 1 and 2.
    UnrecognizedFileDescriptor(u32),
    /// Something follows a complete command; `found` is its text.
    ExpectedEndOfCommand { found: String },
}

/// A parse error as a mathematical value.
pub enum ParseErrorView {
    Scan(ScanErrorView),
    UnexpectedToken(TokenTag),
    Expected { expected: TokenTag, found: Seq<char> },
    UnrecognizedFileDescriptor(u32),
    ExpectedEndOfCommand { found: Seq<char> },
}

impl View for ParseError {
    type V = ParseErrorView;

    open spec fn view(&self) -> ParseErrorView {
        match self {
            ParseError::Scan(e) => ParseErrorView::Scan(e@),
            ParseError::UnexpectedToken(tag) => ParseErrorView::UnexpectedToken(*tag),
            ParseError::Expected { expected, found } => ParseErrorView::Expected {
                expected: *expected,
                found: found@,
            },
            ParseError::UnrecognizedFileDescriptor(n) => ParseErrorView::UnrecognizedFileDescriptor(
                *n,
            ),
            ParseError::ExpectedEndOfCommand { found } => ParseErrorView::ExpectedEndOfCommand {
                found: found@,
            },
        }
    }
}

impl ParseErrorView {
    /// The line of text that reports the error.
    pub open spec fn message(self) -> Seq<char> {
        match self {
            ParseErrorView::Scan(e) => e.message(),
            ParseErrorView::UnexpectedToken(tag) => "unexpected token `"@ + tag.debug_text() + "`"@,
            ParseErrorView::Expected { expected, found } => "expected "@ + expected.display_text()
                + " but found `"@ + found + "`"@,
            ParseErrorView::UnrecognizedFileDescriptor(n) => "unrecognized file descriptor "@
                + decimal_digits(n as nat),
            ParseErrorView::ExpectedEndOfCommand { found } => "expected end of command but got `"@
                + found + "`"@,
        }
    }
}

impl ParseError {
    /// The line of text that reports the error.
    pub fn message(&self) -> (message: String)
        ensures
            message@ == self@.message(),
    {
        match self {
            ParseError::Scan(e) => e.message(),
            ParseError::UnexpectedToken(tag) => {
                let mut message = String::from_str("unexpected token `");
                message.append(tag.debug_string().as_str());
                message.append("`");
                message
            },
            ParseError::Expected { expected, found } => {
                let mut message = String::from_str("expected ");
                message.append(expected.to_string().as_str());
                message.append(" but found `");
                message.append(found.as_str());
                message.append("`");
                message
            },
            ParseError::UnrecognizedFileDescriptor(n) => {
                let mut message = String::from_str("unrecognized file descriptor ");
                push_decimal(&mut message, *n as u64);
                message
            },
            ParseError::ExpectedEndOfCommand { found } => {
                let mut message = String::from_str("expected end of command but got `");
                message.append(found.as_str());
                message.append("`");
                message
            },
        }
    }
}

/// The tokens of a text up to its end or up to the first scan error.
pub struct TokenStream {
    /// The tokens before the end of the command, in order. None of them is
    /// the end-of-command token.
    pub tokens: Seq<TokenView>,
    /// The scan error behind the last token, if the text has one.
    pub failure: Option<ScanErrorView>,
}

/// The tokens that the scanner finds in `s`.
pub open spec fn token_stream(s: Seq<char>) -> TokenStream
    decreases s.len(),
    via token_stream_decreases
{
    let scan = scan_token(s);
    match scan.outcome {
        Err(e) => TokenStream { tokens: Seq::empty(), failure: Some(e) },
        Ok(token) => if token.tag == TokenTag::EndOfCommand {
            TokenStream { tokens: Seq::empty(), failure: None }
        } else {
            let tail = token_stream(scan.rest);
            TokenStream { tokens: seq![token] + tail.tokens, failure: tail.failure }
        },
    }
}

#[via_fn]
proof fn token_stream_decreases(s: Seq<char>) {
    lemma_scan_token_rest(s);
}

/// What parsing a part of a command gives: the part and the tokens behind
/// it, or an error.
pub type Parsed<T> = Result<(T, TokenStream), ParseErrorView>;

impl TokenStream {
    /// The token under the parser's cursor: the first token, or the end of
    /// the command when none is left.
    pub open spec fn current(self) -> TokenView {
        if self.tokens.len() > 0 {
            self.tokens[0]
        } else {
            TokenView { tag: TokenTag::EndOfCommand, lexeme: Seq::empty() }
        }
    }

    /// The stream as the parser gets it: the cursor cannot be put on a token
    /// that the scanner failed to read.
    pub open spec fn checked(self) -> Result<TokenStream, ParseErrorView> {
        if self.tokens.len() == 0 && self.failure is Some {
            Err(ParseErrorView::Scan(self.failure->Some_0))
        } else {
            Ok(self)
        }
    }

    /// The stream behind its first `n` tokens.
    pub open spec fn consume(self, n: int) -> Result<TokenStream, ParseErrorView> {
        if n <= 0 {
            Ok(self)
        } else {
            (TokenStream { tokens: self.tokens.skip(n), failure: self.failure }).checked()
        }
    }

    /// The stream behind its first token.
    pub open spec fn advance(self) -> Result<TokenStream, ParseErrorView> {
        self.consume(1)
    }
}

/// Whether a token of this kind is an argument of a command.
pub open spec fn is_argument(tag: TokenTag) -> bool {
    tag == TokenTag::Word || tag is Integer
}

/// The number of arguments at the start of `tokens`.
pub open spec fn argument_count(tokens: Seq<TokenView>) -> nat
    decreases tokens.len(),
{
    if tokens.len() > 0 && is_argument(tokens[0].tag) {
        1 + argument_count(tokens.skip(1))
    } else {
        0
    }
}

/// The texts of `tokens`, in order.
pub open spec fn lexemes(tokens: Seq<TokenView>) -> Seq<Seq<char>> {
    Seq::new(tokens.len(), |i: int| tokens[i].lexeme)
}

/// `args := (WORD | INTEGER)*`: the texts of all the words and integers
/// that follow one another from the cursor on.
pub open spec fn arguments(ts: TokenStream) -> Parsed<Seq<Seq<char>>> {
    let n = argument_count(ts.tokens) as int;
    match ts.consume(n) {
        Ok(rest) => Ok((lexemes(ts.tokens.take(n)), rest)),
        Err(e) => Err(e),
    }
}

/// The text of the token under the cursor, which must be of kind `tag`.
pub open spec fn expect_lexeme(ts: TokenStream, tag: TokenTag) -> Parsed<Seq<char>> {
    if ts.current().tag == tag {
        match ts.advance() {
            Ok(rest) => Ok((ts.current().lexeme, rest)),
            Err(e) => Err(e),
        }
    } else {
        Err(ParseErrorView::Expected { expected: tag, found: ts.current().lexeme })
    }
}

/// The one word that must stand behind the token under the cursor.
pub open spec fn word_operand(ts: TokenStream) -> Parsed<Seq<char>> {
    match ts.advance() {
        Ok(rest) => expect_lexeme(rest, TokenTag::Word),
        Err(e) => Err(e),
    }
}

/// The integer that may stand behind the token under the cursor.
pub open spec fn integer_operand(ts: TokenStream) -> Parsed<Option<u32>> {
    match ts.advance() {
        Ok(rest) => match rest.current().tag {
            TokenTag::Integer(n) => match rest.advance() {
                Ok(rest) => Ok((Some(n), rest)),
                Err(e) => Err(e),
            },
            _ => Ok((None, rest)),
        },
        Err(e) => Err(e),
    }
}

/// The status with which the shell exits for the number written behind
/// `exit`: the number itself where it fits, else the number taken modulo
/// two to the power of 32 as a signed value.
pub open spec fn exit_code(status: u32) -> i32 {
    if status <= i32::MAX {
        status as i32
    } else {
        (status - 0x1_0000_0000) as i32
    }
}

/// `builtin_call := KNOWN_NAME_WORD args`: the built-in that the word under
/// the cursor names, with its operands, or nothing if the word names none.
pub open spec fn parse_built_in(ts: TokenStream) -> Parsed<Option<BuiltInView>> {
    let name = ts.current().lexeme;
    if name == "cd"@ {
        match word_operand(ts) {
            Ok((path, rest)) => Ok((Some(BuiltInView::Cd(path)), rest)),
            Err(e) => Err(e),
        }
    } else if name == "echo"@ {
        match ts.advance() {
            Ok(rest) => match arguments(rest) {
                Ok((args, rest)) => Ok((Some(BuiltInView::Echo(args)), rest)),
                Err(e) => Err(e),
            },
            Err(e) => Err(e),
        }
    } else if name == "exit"@ {
        match integer_operand(ts) {
            Ok((Some(status), rest)) => Ok((Some(BuiltInView::Exit(exit_code(status))), rest)),
            Ok((None, rest)) => Ok((Some(BuiltInView::Exit(0)), rest)),
            Err(e) => Err(e),
        }
    } else if name == "history"@ {
        match integer_operand(ts) {
            Ok((Some(limit), rest)) => Ok((Some(BuiltInView::History(Some(limit as usize))), rest)),
            Ok((None, rest)) => Ok((Some(BuiltInView::History(None)), rest)),
            Err(e) => Err(e),
        }
    } else if name == "pwd"@ {
        match ts.advance() {
            Ok(rest) => Ok((Some(BuiltInView::Pwd), rest)),
            Err(e) => Err(e),
        }
    } else if name == "type"@ {
        match word_operand(ts) {
            Ok((name, rest)) => Ok((Some(BuiltInView::Type(name)), rest)),
            Err(e) => Err(e),
        }
    } else {
        Ok((None, ts))
    }
}

/// The redirection to the file that the word behind the operator names.
pub open spec fn redirection_to(ts: TokenStream, to_stderr: bool, is_append: bool) -> Parsed<
    RedirectionView,
> {
    match word_operand(ts) {
        Ok((filename, rest)) => Ok(
            (
                if to_stderr {
                    RedirectionView::StdErr { filename, is_append }
                } else {
                    RedirectionView::StdOut { filename, is_append }
                },
                rest,
            ),
        ),
        Err(e) => Err(e),
    }
}

/// `redirection := ('>' | '>>' | FD_N'>' | FD_N'>>') WORD`, or nothing.
/// File descriptor 1 and no file descriptor mean standard output, 2 means
/// standard error, any other number is an error.
pub open spec fn parse_redirection(ts: TokenStream) -> Parsed<RedirectionView> {
    match ts.current().tag {
        TokenTag::RedirectOut => redirection_to(ts, false, false),
        TokenTag::RedirectOutAppend => redirection_to(ts, false, true),
        TokenTag::RedirectOutWithFileDescriptor(n) => if n == 1 {
            redirection_to(ts, false, false)
        } else if n == 2 {
            redirection_to(ts, true, false)
        } else {
            Err(ParseErrorView::UnrecognizedFileDescriptor(n))
        },
        TokenTag::RedirectOutAppendWithFileDescriptor(n) => if n == 1 {
            redirection_to(ts, false, true)
        } else if n == 2 {
            redirection_to(ts, true, true)
        } else {
            Err(ParseErrorView::UnrecognizedFileDescriptor(n))
        },
        _ => Ok((RedirectionView::NoRedirection, ts)),
    }
}

/// `command := builtin_call | external_call`, each with at most one
/// redirection behind it. A command starts with a word; a word that names
/// no built-in is the first argument of an external command.
pub open spec fn parse_command(ts: TokenStream) -> Parsed<CommandView> {
    if ts.current().tag != TokenTag::Word {
        Err(ParseErrorView::UnexpectedToken(ts.current().tag))
    } else {
        match parse_built_in(ts) {
            Ok((Some(built_in), rest)) => match parse_redirection(rest) {
                Ok((redirection, rest)) => Ok((CommandView::BuiltIn { built_in, redirection }, rest)),
                Err(e) => Err(e),
            },
            Ok((None, rest)) => match arguments(rest) {
                Ok((args, rest)) => match parse_redirection(rest) {
                    Ok((redirection, rest)) => Ok(
                        (CommandView::External { args, redirection }, rest),
                    ),
                    Err(e) => Err(e),
                },
                Err(e) => Err(e),
            },
            Err(e) => Err(e),
        }
    }
}

/// `pipeline := command ('|' command)*`, of any length.
pub open spec fn parse_pipeline(ts: TokenStream) -> Parsed<Seq<CommandView>>
    decreases ts.tokens.len(),
    via parse_pipeline_decreases
{
    match parse_command(ts) {
        Ok((command, rest)) => if rest.current().tag == TokenTag::Pipe {
            match rest.advance() {
                Ok(next) => match parse_pipeline(next) {
                    Ok((commands, rest)) => Ok((seq![command] + commands, rest)),
                    Err(e) => Err(e),
                },
                Err(e) => Err(e),
            }
        } else {
            Ok((seq![command], rest))
        },
        Err(e) => Err(e),
    }
}

#[via_fn]
proof fn parse_pipeline_decreases(ts: TokenStream) {
    lemma_parse_command_rest(ts);
}

/// The pipeline that a stream of tokens stands for. A stream without
/// tokens is the empty pipeline; behind the last command nothing may
/// follow.
pub open spec fn parse_stream(ts: TokenStream) -> Result<Seq<CommandView>, ParseErrorView> {
    match ts.checked() {
        Ok(ts) => if ts.tokens.len() == 0 {
            Ok(Seq::empty())
        } else {
            match parse_pipeline(ts) {
                Ok((commands, rest)) => if rest.tokens.len() == 0 {
                    Ok(commands)
                } else {
                    Err(ParseErrorView::ExpectedEndOfCommand { found: rest.tokens[0].lexeme })
                },
                Err(e) => Err(e),
            }
        },
        Err(e) => Err(e),
    }
}

/// The pipeline that a command text stands for.
pub open spec fn parse_text(text: Seq<char>) -> Result<Seq<CommandView>, ParseErrorView> {
    parse_stream(token_stream(text))
}

/// There are no more arguments than tokens.
pub proof fn lemma_argument_count_bound(tokens: Seq<TokenView>)
    ensures
        argument_count(tokens) <= tokens.len(),
    decreases tokens.len(),
{
    if tokens.len() > 0 && is_argument(tokens[0].tag) {
        lemma_argument_count_bound(tokens.skip(1));
    }
}

/// Reading a redirection leaves no more tokens than there were.
pub proof fn lemma_parse_redirection_rest(ts: TokenStream)
    ensures
        parse_redirection(ts) is Ok ==> parse_redirection(ts)->Ok_0.1.tokens.len()
            <= ts.tokens.len(),
{
}

/// Reading a command consumes at least one token.
pub proof fn lemma_parse_command_rest(ts: TokenStream)
    ensures
        parse_command(ts) is Ok ==> parse_command(ts)->Ok_0.1.tokens.len() < ts.tokens.len(),
{
    if parse_command(ts) is Ok {
        assert(ts.tokens.len() > 0);
        match parse_built_in(ts) {
            Ok((Some(built_in), rest)) => {
                assert(rest.tokens.len() < ts.tokens.len()) by {
                    let after = ts.advance()->Ok_0;
                    lemma_argument_count_bound(after.tokens);
                }
                lemma_parse_redirection_rest(rest);
            },
            Ok((None, rest)) => {
                lemma_argument_count_bound(ts.tokens);
                lemma_parse_redirection_rest(arguments(rest)->Ok_0.1);
            },
            Err(e) => {},
        }
    }
}

/// The parser's cursor: the token it looks at and the scanner that brings
/// the ones behind it.
struct ParserState {
    scanner: Scanner,
    current: Token,
}

impl View for ParserState {
    type V = TokenStream;

    /// The tokens from the cursor on.
    closed spec fn view(&self) -> TokenStream {
        if self.current.tag == TokenTag::EndOfCommand {
            TokenStream { tokens: Seq::empty(), failure: None }
        } else {
            let tail = token_stream(self.scanner@);
            TokenStream { tokens: seq![self.current@] + tail.tokens, failure: tail.failure }
        }
    }
}

impl ParserState {
    /// The end-of-command token has no text.
    spec fn wf(self) -> bool {
        self.current.tag == TokenTag::EndOfCommand ==> self.current.lexeme@ == Seq::<char>::empty()
    }

    /// Puts the cursor on the first token that `scanner` brings.
    fn new(scanner: Scanner) -> (result: Result<ParserState, ParseError>)
        ensures
            match result {
                Ok(state) => state.wf() && token_stream(scanner@).checked() == Ok::<
                    TokenStream,
                    ParseErrorView,
                >(state@),
                Err(e) => token_stream(scanner@).checked() == Err::<TokenStream, ParseErrorView>(
                    e@,
                ),
            },
    {
        let mut scanner = scanner;
        match scanner.next_token() {
            Ok(current) => {
                let state = ParserState { scanner, current };
                Ok(state)
            },
            Err(e) => Err(ParseError::Scan(e)),
        }
    }

    /// Moves the cursor to the next token.
    fn advance(&mut self) -> (result: Result<(), ParseError>)
        requires
            old(self).wf(),
            old(self)@.tokens.len() > 0,
        ensures
            final(self).wf(),
            match result {
                Ok(_) => old(self)@.advance() == Ok::<TokenStream, ParseErrorView>(final(self)@),
                Err(e) => old(self)@.advance() == Err::<TokenStream, ParseErrorView>(e@),
            },
    {
        let ghost tail = token_stream(self.scanner@);
        assert(old(self)@.tokens.skip(1) =~= tail.tokens);
        match self.scanner.next_token() {
            Ok(token) => {
                self.current = token;
                Ok(())
            },
            Err(e) => Err(ParseError::Scan(e)),
        }
    }

    /// Moves the cursor on if it stands on a token of kind `expected_tag`,
    /// and says whether it did.
    fn matches(&mut self, expected_tag: TokenTag) -> (result: Result<bool, ParseError>)
        requires
            old(self).wf(),
            expected_tag != TokenTag::EndOfCommand,
        ensures
            final(self).wf(),
            match result {
                Ok(is_match) => {
                    &&& is_match == (old(self)@.current().tag == expected_tag)
                    &&& is_match ==> old(self)@.advance() == Ok::<TokenStream, ParseErrorView>(
                        final(self)@,
                    )
                    &&& !is_match ==> final(self)@ == old(self)@
                },
                Err(e) => {
                    &&& old(self)@.current().tag == expected_tag
                    &&& old(self)@.advance() == Err::<TokenStream, ParseErrorView>(e@)
                },
            },
    {
        let is_match = self.current.tag == expected_tag;
        if is_match {
            match self.advance() {
                Ok(_) => {},
                Err(e) => {
                    return Err(e);
                },
            }
        }
        Ok(is_match)
    }

    /// The text of the token under the cursor, which must be of kind `tag`;
    /// the cursor moves on.
    fn expect_lexeme(&mut self, tag: TokenTag) -> (result: Result<String, ParseError>)
        requires
            old(self).wf(),
            tag != TokenTag::EndOfCommand,
        ensures
            final(self).wf(),
            match result {
                Ok(lexeme) => expect_lexeme(old(self)@, tag) == Ok::<
                    (Seq<char>, TokenStream),
                    ParseErrorView,
                >((lexeme@, final(self)@)),
                Err(e) => expect_lexeme(old(self)@, tag) == Err::<
                    (Seq<char>, TokenStream),
                    ParseErrorView,
                >(e@),
            },
    {
        if self.current.tag == tag {
            let lexeme = self.current.lexeme.clone();
            match self.advance() {
                Ok(_) => Ok(lexeme),
                Err(e) => Err(e),
            }
        } else {
            Err(ParseError::Expected { expected: tag, found: self.current.lexeme.clone() })
        }
    }
}

/// Parses a given command text. Returns an array of commands which represents
/// a pipeline.
///
/// A text with nothing but whitespace is the empty pipeline. A text that
/// the grammar does not accept is an error, and so is one that the scanner
/// cannot read up to the point where the parser stops.
pub fn parse(command_text: &str) -> (result: Result<Vec<Command>, ParseError>)
    ensures
        match result {
            Ok(commands) => parse_text(command_text@) == Ok::<Seq<CommandView>, ParseErrorView>(
                command_views(commands@),
            ),
            Err(e) => parse_text(command_text@) == Err::<Seq<CommandView>, ParseErrorView>(e@),
        },
        result is Ok ==> programs_named(result->Ok_0@),
        (forall|i: int|
            0 <= i < command_text@.len() ==> is_whitespace_char(#[trigger] command_text@[i]))
            ==> result is Ok && result->Ok_0@.len() == 0,
{
    proof {
        if forall|i: int|
            0 <= i < command_text@.len() ==> is_whitespace_char(#[trigger] command_text@[i]) {
            lemma_blank_text_is_empty_pipeline(command_text@);
        }
    }
    let scanner = Scanner::new(command_text);
    let mut state = match ParserState::new(scanner) {
        Ok(state) => state,
        Err(e) => {
            return Err(e);
        },
    };
    match state.current.tag {
        TokenTag::Word => {
            let commands = match pipeline(&mut state) {
                Ok(commands) => commands,
                Err(e) => {
                    return Err(e);
                },
            };
            proof {
                lemma_parsed_programs_are_named(token_stream(command_text@));
                assert forall|i: int| 0 <= i < commands.len() implies match #[trigger] commands@[i] {
                    Command::External(command) => command.args.len() > 0,
                    Command::BuiltIn(_) => true,
                } by {
                    let parsed = parse_pipeline(token_stream(command_text@))->Ok_0.0;
                    assert(parsed == command_views(commands@));
                    assert(is_named(parsed[i]));
                    assert(parsed[i] == commands@[i]@);
                }
            }
            match state.current.tag {
                TokenTag::EndOfCommand => Ok(commands),
                _ => Err(ParseError::ExpectedEndOfCommand { found: state.current.lexeme.clone() }),
            }
        },
        TokenTag::EndOfCommand => {
            let commands: Vec<Command> = Vec::new();
            assert(command_views(commands@) =~= Seq::empty());
            Ok(commands)
        },
        tag => {
            proof {
                lemma_unexpected_start(state@);
            }
            Err(ParseError::UnexpectedToken(tag))
        },
    }
}

/// A stream that does not start with a word is no pipeline, whatever
/// follows.
proof fn lemma_unexpected_start(ts: TokenStream)
    requires
        ts.current().tag != TokenTag::Word,
    ensures
        parse_pipeline(ts) == Err::<(Seq<CommandView>, TokenStream), ParseErrorView>(
            ParseErrorView::UnexpectedToken(ts.current().tag),
        ),
{
}

/// A pipeline with `first` in front of the commands that `parsed` holds.
spec fn with_commands_in_front(first: Seq<CommandView>, parsed: Parsed<Seq<CommandView>>) -> Parsed<
    Seq<CommandView>,
> {
    match parsed {
        Ok((commands, rest)) => Ok((first + commands, rest)),
        Err(e) => Err(e),
    }
}

/// Parses a pipeline of commands. Returns a vector of all commands in the
/// pipeline in order.
fn pipeline(state: &mut ParserState) -> (result: Result<Vec<Command>, ParseError>)
    requires
        old(state).wf(),
        old(state)@.current().tag == TokenTag::Word,
    ensures
        final(state).wf(),
        match result {
            Ok(commands) => parse_pipeline(old(state)@) == Ok::<
                (Seq<CommandView>, TokenStream),
                ParseErrorView,
            >((command_views(commands@), final(state)@)),
            Err(e) => parse_pipeline(old(state)@) == Err::<
                (Seq<CommandView>, TokenStream),
                ParseErrorView,
            >(e@),
        },
{
    let mut commands: Vec<Command> = Vec::new();
    assert(command_views(commands@) =~= Seq::empty());
    assert(with_commands_in_front(Seq::empty(), parse_pipeline(state@)) == parse_pipeline(state@))
        by {
        match parse_pipeline(state@) {
            Ok((more, rest)) => {
                assert(Seq::<CommandView>::empty() + more =~= more);
            },
            Err(e) => {},
        }
    }
    loop
        invariant_except_break
            state@.current().tag == TokenTag::Word,
            parse_pipeline(old(state)@) == with_commands_in_front(
                command_views(commands@),
                parse_pipeline(state@),
            ),
        invariant
            state.wf(),
        ensures
            parse_pipeline(old(state)@) == Ok::<(Seq<CommandView>, TokenStream), ParseErrorView>(
                (command_views(commands@), state@),
            ),
        decreases state@.tokens.len(),
    {
        let ghost before = state@;
        let ghost parsed = command_views(commands@);
        let command = match command(state) {
            Ok(command) => command,
            Err(e) => {
                return Err(e);
            },
        };
        let ghost after = state@;
        proof {
            lemma_parse_command_rest(before);
        }
        commands.push(command);
        assert(command_views(commands@) =~= parsed + seq![command@]);
        let parse_another_command = match state.matches(TokenTag::Pipe) {
            Ok(is_match) => is_match,
            Err(e) => {
                return Err(e);
            },
        };
        if !parse_another_command {
            break ;
        }
        match state.current.tag {
            TokenTag::Word => {},
            tag => {
                proof {
                    lemma_unexpected_start(state@);
                }
                return Err(ParseError::UnexpectedToken(tag));
            },
        }
        proof {
            match parse_pipeline(state@) {
                Ok((more, rest)) => {
                    assert(parsed + (seq![command@] + more) =~= (parsed + seq![command@]) + more);
                },
                Err(e) => {},
            }
        }
    }
    Ok(commands)
}

/// Parses one command with its redirection.
fn command(state: &mut ParserState) -> (result: Result<Command, ParseError>)
    requires
        old(state).wf(),
        old(state)@.current().tag == TokenTag::Word,
    ensures
        final(state).wf(),
        match result {
            Ok(command) => parse_command(old(state)@) == Ok::<
                (CommandView, TokenStream),
                ParseErrorView,
            >((command@, final(state)@)),
            Err(e) => parse_command(old(state)@) == Err::<
                (CommandView, TokenStream),
                ParseErrorView,
            >(e@),
        },
{
    let found = match built_in(state) {
        Ok(found) => found,
        Err(e) => {
            return Err(e);
        },
    };
    match found {
        Some(built_in) => {
            let redirection = match redirection(state) {
                Ok(redirection) => redirection,
                Err(e) => {
                    return Err(e);
                },
            };
            Ok(Command::BuiltIn(BuiltInCommand { built_in, redirection }))
        },
        None => {
            let args = match collect_integer_word(state) {
                Ok(args) => args,
                Err(e) => {
                    return Err(e);
                },
            };
            let redirection = match redirection(state) {
                Ok(redirection) => redirection,
                Err(e) => {
                    return Err(e);
                },
            };
            Ok(Command::External(ExternalCommand { args, redirection }))
        },
    }
}

/// Parses the redirection behind a command, if there is one.
fn redirection(state: &mut ParserState) -> (result: Result<Redirection, ParseError>)
    requires
        old(state).wf(),
    ensures
        final(state).wf(),
        match result {
            Ok(redirection) => parse_redirection(old(state)@) == Ok::<
                (RedirectionView, TokenStream),
                ParseErrorView,
            >((redirection@, final(state)@)),
            Err(e) => parse_redirection(old(state)@) == Err::<
                (RedirectionView, TokenStream),
                ParseErrorView,
            >(e@),
        },
{
    let (to_stderr, is_append) = match state.current.tag {
        TokenTag::RedirectOut => (false, false),
        TokenTag::RedirectOutAppend => (false, true),
        TokenTag::RedirectOutWithFileDescriptor(n) => {
            if n == 1 {
                (false, false)
            } else if n == 2 {
                (true, false)
            } else {
                return Err(ParseError::UnrecognizedFileDescriptor(n));
            }
        },
        TokenTag::RedirectOutAppendWithFileDescriptor(n) => {
            if n == 1 {
                (false, true)
            } else if n == 2 {
                (true, true)
            } else {
                return Err(ParseError::UnrecognizedFileDescriptor(n));
            }
        },
        _ => {
            return Ok(Redirection::NoRedirection);
        },
    };
    let filename = match redirection_filename(state) {
        Ok(filename) => filename,
        Err(e) => {
            return Err(e);
        },
    };
    if to_stderr {
        Ok(Redirection::StdErr { filename, is_append })
    } else {
        Ok(Redirection::StdOut { filename, is_append })
    }
}

/// Reads the file name behind the redirection operator under the cursor.
fn redirection_filename(state: &mut ParserState) -> (result: Result<String, ParseError>)
    requires
        old(state).wf(),
        old(state)@.tokens.len() > 0,
    ensures
        final(state).wf(),
        match result {
            Ok(filename) => word_operand(old(state)@) == Ok::<
                (Seq<char>, TokenStream),
                ParseErrorView,
            >((filename@, final(state)@)),
            Err(e) => word_operand(old(state)@) == Err::<(Seq<char>, TokenStream), ParseErrorView>(
                e@,
            ),
        },
{
    // Advance past the redirection operator.
    match state.advance() {
        Ok(_) => {},
        Err(e) => {
            return Err(e);
        },
    }
    state.expect_lexeme(TokenTag::Word)
}

/// Parses the built-in that the word under the cursor names, if it names
/// one.
fn built_in(state: &mut ParserState) -> (result: Result<Option<BuiltIn>, ParseError>)
    requires
        old(state).wf(),
        old(state)@.current().tag == TokenTag::Word,
    ensures
        final(state).wf(),
        match result {
            Ok(Some(built_in)) => parse_built_in(old(state)@) == Ok::<
                (Option<BuiltInView>, TokenStream),
                ParseErrorView,
            >((Some(built_in@), final(state)@)),
            Ok(None) => parse_built_in(old(state)@) == Ok::<
                (Option<BuiltInView>, TokenStream),
                ParseErrorView,
            >((None, final(state)@)),
            Err(e) => parse_built_in(old(state)@) == Err::<
                (Option<BuiltInView>, TokenStream),
                ParseErrorView,
            >(e@),
        },
{
    let name = state.current.lexeme.as_str();
    let parsed = if name.eq("cd") {
        cd(state)
    } else if name.eq("echo") {
        echo(state)
    } else if name.eq("exit") {
        exit(state)
    } else if name.eq("history") {
        history(state)
    } else if name.eq("pwd") {
        pwd(state)
    } else if name.eq("type") {
        type_builtin(state)
    } else {
        return Ok(None);
    };
    match parsed {
        Ok(built_in) => Ok(Some(built_in)),
        Err(e) => Err(e),
    }
}

/// Parses a cd command.
fn cd(state: &mut ParserState) -> (result: Result<BuiltIn, ParseError>)
    requires
        old(state).wf(),
        old(state)@.current().tag == TokenTag::Word,
        old(state)@.current().lexeme == "cd"@,
    ensures
        final(state).wf(),
        match result {
            Ok(built_in) => parse_built_in(old(state)@) == Ok::<
                (Option<BuiltInView>, TokenStream),
                ParseErrorView,
            >((Some(built_in@), final(state)@)),
            Err(e) => parse_built_in(old(state)@) == Err::<
                (Option<BuiltInView>, TokenStream),
                ParseErrorView,
            >(e@),
        },
{
    match state.advance() {
        Ok(_) => {},
        Err(e) => {
            return Err(e);
        },
    }
    match state.expect_lexeme(TokenTag::Word) {
        Ok(path) => Ok(BuiltIn::Cd(path)),
        Err(e) => Err(e),
    }
}

/// Parses an echo commmand.
fn echo(state: &mut ParserState) -> (result: Result<BuiltIn, ParseError>)
    requires
        old(state).wf(),
        old(state)@.current().tag == TokenTag::Word,
        old(state)@.current().lexeme == "echo"@,
    ensures
        final(state).wf(),
        match result {
            Ok(built_in) => parse_built_in(old(state)@) == Ok::<
                (Option<BuiltInView>, TokenStream),
                ParseErrorView,
            >((Some(built_in@), final(state)@)),
            Err(e) => parse_built_in(old(state)@) == Err::<
                (Option<BuiltInView>, TokenStream),
                ParseErrorView,
            >(e@),
        },
{
    proof {
        lemma_built_in_names_differ();
    }
    match state.advance() {
        Ok(_) => {},
        Err(e) => {
            return Err(e);
        },
    }
    match collect_integer_word(state) {
        Ok(args) => Ok(BuiltIn::Echo(args)),
        Err(e) => Err(e),
    }
}

/// The number that stands behind the token under the cursor, if one does.
fn optional_integer(state: &mut ParserState) -> (result: Result<Option<u32>, ParseError>)
    requires
        old(state).wf(),
        old(state)@.tokens.len() > 0,
    ensures
        final(state).wf(),
        match result {
            Ok(number) => integer_operand(old(state)@) == Ok::<
                (Option<u32>, TokenStream),
                ParseErrorView,
            >((number, final(state)@)),
            Err(e) => integer_operand(old(state)@) == Err::<
                (Option<u32>, TokenStream),
                ParseErrorView,
            >(e@),
        },
{
    match state.advance() {
        Ok(_) => {},
        Err(e) => {
            return Err(e);
        },
    }
    match state.current.tag {
        TokenTag::Integer(number) => {
            match state.advance() {
                Ok(_) => Ok(Some(number)),
                Err(e) => Err(e),
            }
        },
        _ => Ok(None),
    }
}

/// The exit status for the number written behind `exit`.
fn exit_code_of(status: u32) -> (code: i32)
    ensures
        code == exit_code(status),
{
    if status <= 0x7fff_ffff {
        status as i32
    } else {
        (status as i64 - 0x1_0000_0000) as i32
    }
}

/// Parses an exit command.
fn exit(state: &mut ParserState) -> (result: Result<BuiltIn, ParseError>)
    requires
        old(state).wf(),
        old(state)@.current().tag == TokenTag::Word,
        old(state)@.current().lexeme == "exit"@,
    ensures
        final(state).wf(),
        match result {
            Ok(built_in) => parse_built_in(old(state)@) == Ok::<
                (Option<BuiltInView>, TokenStream),
                ParseErrorView,
            >((Some(built_in@), final(state)@)),
            Err(e) => parse_built_in(old(state)@) == Err::<
                (Option<BuiltInView>, TokenStream),
                ParseErrorView,
            >(e@),
        },
{
    proof {
        lemma_built_in_names_differ();
    }
    let status = match optional_integer(state) {
        Ok(Some(status)) => exit_code_of(status),
        Ok(None) => 0,
        Err(e) => {
            return Err(e);
        },
    };
    Ok(BuiltIn::Exit(status))
}

/// Parses a history command.
fn history(state: &mut ParserState) -> (result: Result<BuiltIn, ParseError>)
    requires
        old(state).wf(),
        old(state)@.current().tag == TokenTag::Word,
        old(state)@.current().lexeme == "history"@,
    ensures
        final(state).wf(),
        match result {
            Ok(built_in) => parse_built_in(old(state)@) == Ok::<
                (Option<BuiltInView>, TokenStream),
                ParseErrorView,
            >((Some(built_in@), final(state)@)),
            Err(e) => parse_built_in(old(state)@) == Err::<
                (Option<BuiltInView>, TokenStream),
                ParseErrorView,
            >(e@),
        },
{
    proof {
        lemma_built_in_names_differ();
    }
    let limit = match optional_integer(state) {
        Ok(Some(limit)) => Some(limit as usize),
        Ok(None) => None,
        Err(e) => {
            return Err(e);
        },
    };
    Ok(BuiltIn::History(limit))
}

/// Parses a pwd command.
fn pwd(state: &mut ParserState) -> (result: Result<BuiltIn, ParseError>)
    requires
        old(state).wf(),
        old(state)@.current().tag == TokenTag::Word,
        old(state)@.current().lexeme == "pwd"@,
    ensures
        final(state).wf(),
        match result {
            Ok(built_in) => parse_built_in(old(state)@) == Ok::<
                (Option<BuiltInView>, TokenStream),
                ParseErrorView,
            >((Some(built_in@), final(state)@)),
            Err(e) => parse_built_in(old(state)@) == Err::<
                (Option<BuiltInView>, TokenStream),
                ParseErrorView,
            >(e@),
        },
{
    proof {
        lemma_built_in_names_differ();
    }
    match state.advance() {
        Ok(_) => Ok(BuiltIn::Pwd),
        Err(e) => Err(e),
    }
}

/// Parses the `type` builtin.
fn type_builtin(state: &mut ParserState) -> (result: Result<BuiltIn, ParseError>)
    requires
        old(state).wf(),
        old(state)@.current().tag == TokenTag::Word,
        old(state)@.current().lexeme == "type"@,
    ensures
        final(state).wf(),
        match result {
            Ok(built_in) => parse_built_in(old(state)@) == Ok::<
                (Option<BuiltInView>, TokenStream),
                ParseErrorView,
            >((Some(built_in@), final(state)@)),
            Err(e) => parse_built_in(old(state)@) == Err::<
                (Option<BuiltInView>, TokenStream),
                ParseErrorView,
            >(e@),
        },
{
    proof {
        lemma_built_in_names_differ();
    }
    match state.advance() {
        Ok(_) => {},
        Err(e) => {
            return Err(e);
        },
    }
    match state.expect_lexeme(TokenTag::Word) {
        Ok(command) => Ok(BuiltIn::Type(command)),
        Err(e) => Err(e),
    }
}

/// No two built-in names are the same text.
proof fn lemma_built_in_names_differ()
    ensures
        "cd"@.len() == 2,
        "pwd"@.len() == 3,
        "echo"@.len() == 4,
        "exit"@.len() == 4,
        "type"@.len() == 4,
        "history"@.len() == 7,
        "echo"@[1] == 'c',
        "exit"@[1] == 'x',
        "type"@[1] == 'y',
{
    reveal_strlit("cd");
    reveal_strlit("echo");
    reveal_strlit("exit");
    reveal_strlit("history");
    reveal_strlit("pwd");
    reveal_strlit("type");
}

/// Collects tokens into a vector as long as they are Word or Integer.
fn collect_integer_word(state: &mut ParserState) -> (result: Result<Vec<String>, ParseError>)
    requires
        old(state).wf(),
    ensures
        final(state).wf(),
        match result {
            Ok(items) => arguments(old(state)@) == Ok::<
                (Seq<Seq<char>>, TokenStream),
                ParseErrorView,
            >((texts(items@), final(state)@)),
            Err(e) => arguments(old(state)@) == Err::<
                (Seq<Seq<char>>, TokenStream),
                ParseErrorView,
            >(e@),
        },
{
    let ghost start = state@;
    let mut items: Vec<String> = Vec::new();
    assert(start.tokens.skip(0) =~= start.tokens);
    assert(texts(items@) =~= lexemes(start.tokens.take(0)));
    loop
        invariant_except_break
            items.len() <= start.tokens.len(),
            texts(items@) == lexemes(start.tokens.take(items.len() as int)),
            state@ == (TokenStream {
                tokens: start.tokens.skip(items.len() as int),
                failure: start.failure,
            }),
            argument_count(start.tokens) == items.len() + argument_count(state@.tokens),
        invariant
            state.wf(),
            start == old(state)@,
        ensures
            arguments(start) == Ok::<(Seq<Seq<char>>, TokenStream), ParseErrorView>(
                (texts(items@), state@),
            ),
        decreases state@.tokens.len(),
    {
        let ghost k = items.len() as int;
        let ghost collected = texts(items@);
        let ghost before = state@;
        match state.current.tag {
            TokenTag::Word | TokenTag::Integer(_) => {},
            _ => {
                proof {
                    assert(argument_count(before.tokens) == 0);
                    if k == 0 {
                        assert(start.tokens.skip(0) =~= start.tokens);
                    }
                }
                break ;
            },
        }
        assert(before.tokens[0] == start.tokens[k]);
        items.push(state.current.lexeme.clone());
        proof {
            assert(before.tokens.skip(1) =~= start.tokens.skip(k + 1));
            assert forall|i: int| 0 <= i < k + 1 implies texts(items@)[i] == lexemes(
                start.tokens.take(k + 1),
            )[i] by {
                if i < k {
                    assert(texts(items@)[i] == collected[i]);
                    assert(collected[i] == lexemes(start.tokens.take(k))[i]);
                }
            }
            assert(texts(items@) =~= lexemes(start.tokens.take(k + 1)));
        }
        match state.advance() {
            Ok(_) => {},
            Err(e) => {
                proof {
                    assert(before.tokens.skip(1).len() == 0);
                    assert(argument_count(before.tokens.skip(1)) == 0);
                    assert(argument_count(start.tokens) == k + 1);
                }
                return Err(e);
            },
        }
    }
    Ok(items)
}

/// A text of nothing but whitespace is the empty pipeline.
pub proof fn lemma_blank_text_is_empty_pipeline(text: Seq<char>)
    requires
        forall|i: int| 0 <= i < text.len() ==> is_whitespace_char(#[trigger] text[i]),
    ensures
        parse_text(text) == Ok::<Seq<CommandView>, ParseErrorView>(Seq::empty()),
{
    lemma_skip_whitespace_only(text);
}

/// Whether a command names its program: an external command has at least
/// one argument.
pub open spec fn is_named(command: CommandView) -> bool {
    match command {
        CommandView::External { args, redirection } => args.len() > 0,
        CommandView::BuiltIn { built_in, redirection } => true,
    }
}

/// An external command that the parser accepts has at least one argument.
pub proof fn lemma_parsed_command_is_named(ts: TokenStream)
    ensures
        parse_command(ts) is Ok ==> is_named(parse_command(ts)->Ok_0.0),
{
    if parse_command(ts) is Ok {
        match parse_built_in(ts) {
            Ok((None, rest)) => {
                assert(rest == ts);
                assert(argument_count(ts.tokens) >= 1);
                lemma_argument_count_bound(ts.tokens);
            },
            _ => {},
        }
    }
}

/// Every external command of a parsed pipeline has at least one argument,
/// the name of its program.
pub proof fn lemma_parsed_programs_are_named(ts: TokenStream)
    ensures
        parse_pipeline(ts) is Ok ==> forall|i: int|
            0 <= i < parse_pipeline(ts)->Ok_0.0.len() ==> is_named(
                #[trigger] parse_pipeline(ts)->Ok_0.0[i],
            ),
    decreases ts.tokens.len(),
{
    if parse_pipeline(ts) is Ok {
        let (command, rest) = parse_command(ts)->Ok_0;
        let commands = parse_pipeline(ts)->Ok_0.0;
        lemma_parse_command_rest(ts);
        lemma_parsed_command_is_named(ts);
        if rest.current().tag == TokenTag::Pipe {
            let next = rest.advance()->Ok_0;
            lemma_parsed_programs_are_named(next);
            let more = parse_pipeline(next)->Ok_0.0;
            assert(commands == seq![command] + more);
            assert forall|i: int| 0 <= i < commands.len() implies is_named(
                #[trigger] commands[i],
            ) by {
                if i > 0 {
                    assert(commands[i] == more[i - 1]);
                }
            }
        } else {
            assert(commands == seq![command]);
        }
    }
}

/// Only the file descriptors 1 and 2 can be redirected: an operator with
/// any other number is an error, whatever follows it.
pub proof fn lemma_unrecognized_file_descriptor(ts: TokenStream, n: u32)
    requires
        n != 1,
        n != 2,
        ts.current().tag == TokenTag::RedirectOutWithFileDescriptor(n) || ts.current().tag
            == TokenTag::RedirectOutAppendWithFileDescriptor(n),
    ensures
        parse_redirection(ts) == Err::<(RedirectionView, TokenStream), ParseErrorView>(
            ParseErrorView::UnrecognizedFileDescriptor(n),
        ),
{
}

/// The text that holds `words` with one space in front of each.
pub open spec fn spaced(words: Seq<Seq<char>>) -> Seq<char>
    decreases words.len(),
{
    if words.len() == 0 {
        Seq::empty()
    } else {
        seq![' '] + words[0] + spaced(words.skip(1))
    }
}

/// Whether each of `words` is a word that needs no quoting.
pub open spec fn all_plain_words(words: Seq<Seq<char>>) -> bool {
    forall|i: int| 0 <= i < words.len() ==> is_plain_word(#[trigger] words[i])
}

/// The word tokens with the texts `words`.
pub open spec fn word_tokens(words: Seq<Seq<char>>) -> Seq<TokenView> {
    Seq::new(words.len(), |i: int| TokenView { tag: TokenTag::Word, lexeme: words[i] })
}

/// Words that need no quoting, written with a space in front of each, are
/// scanned as they are written: one word token for each, with its text.
pub proof fn lemma_token_stream_of_plain_words(words: Seq<Seq<char>>)
    requires
        all_plain_words(words),
    ensures
        token_stream(spaced(words)) == (TokenStream {
            tokens: word_tokens(words),
            failure: None,
        }),
    decreases words.len(),
{
    if words.len() == 0 {
        assert(word_tokens(words) =~= Seq::empty());
    } else {
        let tail = words.skip(1);
        let behind = spaced(tail);
        assert(all_plain_words(tail)) by {
            assert forall|i: int| 0 <= i < tail.len() implies is_plain_word(#[trigger] tail[i]) by {
                assert(tail[i] == words[i + 1]);
            }
        }
        lemma_token_stream_of_plain_words(tail);
        assert(spaced(words) =~= seq![' '] + (words[0] + behind));
        lemma_leading_whitespace_is_skipped(seq![' '], words[0] + behind);
        lemma_plain_word_round_trip(words[0], behind);
        lemma_scan_token_rest(spaced(words));
        assert(word_tokens(words) =~= seq![TokenView { tag: TokenTag::Word, lexeme: words[0] }]
            + word_tokens(tail));
    }
}

/// Word tokens are arguments, all of them, with their texts.
pub proof fn lemma_word_tokens_are_arguments(words: Seq<Seq<char>>)
    ensures
        argument_count(word_tokens(words)) == words.len(),
        lexemes(word_tokens(words)) == words,
    decreases words.len(),
{
    if words.len() > 0 {
        lemma_word_tokens_are_arguments(words.skip(1));
        assert(word_tokens(words).skip(1) =~= word_tokens(words.skip(1)));
    }
    assert(lexemes(word_tokens(words)) =~= words);
}

/// `echo` with words that need no quoting behind it, a space in front of
/// each, is parsed as the built-in `echo` with just these words as its
/// arguments.
pub proof fn lemma_echo_of_plain_words(words: Seq<Seq<char>>)
    requires
        all_plain_words(words),
    ensures
        parse_text("echo"@ + spaced(words)) == Ok::<Seq<CommandView>, ParseErrorView>(
            seq![
                CommandView::BuiltIn {
                    built_in: BuiltInView::Echo(words),
                    redirection: RedirectionView::NoRedirection,
                },
            ],
        ),
{
    let echo = "echo"@;
    let args = word_tokens(words);
    let name = TokenView { tag: TokenTag::Word, lexeme: echo };
    reveal_strlit("echo");
    lemma_built_in_names_differ();
    lemma_token_stream_of_plain_words(words);
    assert(spaced(words).len() == 0 || is_whitespace_char(spaced(words)[0]));
    lemma_plain_word_round_trip(echo, spaced(words));
    lemma_scan_token_rest(echo + spaced(words));
    let ts = token_stream(echo + spaced(words));
    assert(ts == (TokenStream { tokens: seq![name] + args, failure: None }));
    assert(ts.tokens.skip(1) =~= args);
    let behind_name = TokenStream { tokens: args, failure: None };
    assert(ts.advance() == Ok::<TokenStream, ParseErrorView>(behind_name));
    lemma_word_tokens_are_arguments(words);
    let n = words.len() as int;
    assert(args.take(n) =~= args);
    assert(args.skip(n) =~= Seq::empty());
    let end = TokenStream { tokens: Seq::empty(), failure: None };
    assert(arguments(behind_name) == Ok::<(Seq<Seq<char>>, TokenStream), ParseErrorView>(
        (words, if n == 0 {
            behind_name
        } else {
            end
        }),
    ));
    assert(behind_name == end <==> n == 0) by {
        if n > 0 {
            assert(args.len() > 0);
        } else {
            assert(args =~= Seq::empty());
        }
    }
    assert(parse_built_in(ts) == Ok::<(Option<BuiltInView>, TokenStream), ParseErrorView>(
        (Some(BuiltInView::Echo(words)), end),
    ));
}

} // verus!
