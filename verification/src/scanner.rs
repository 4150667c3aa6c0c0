//! Scanner for the command line parser.
//!
//! The scanner reads a command's text from left to right and hands out one
//! token per call. What it hands out is defined by [`scan_token`], a
//! function of the text that is still unread.

use crate::text::{chars_of, decimal_digits, push_decimal};
use vstd::prelude::*;

verus! {

/// A token type.
#[derive(Clone, Copy, Debug, PartialEq, Eq, Structural)]
pub enum TokenTag {
    /// The end of the command text.
    EndOfCommand,
    /// An integer literal.
    Integer(u32),
    /// A pipe operator `|`.
    Pipe,
    /// Output redirection operator `>`.
    RedirectOut,
    /// Output append redirection operator `>>`.
    RedirectOutAppend,
    /// Output redirection operator with a file descriptor, e.g. `1>`.
    RedirectOutWithFileDescriptor(u32),
    /// Output redirection append operator with a file descriptor, e.g. `1>>`.
    RedirectOutAppendWithFileDescriptor(u32),
    /// A word, with quotes and escapes already resolved.
    Word,
}

impl TokenTag {
    /// How the tag is shown to the user: operators as they are typed,
    /// numbers in decimal.
    pub open spec fn display_text(self) -> Seq<char> {
        match self {
            TokenTag::EndOfCommand => "End of Command"@,
            TokenTag::Integer(i) => decimal_digits(i as nat),
            TokenTag::Pipe => "|"@,
            TokenTag::RedirectOut => ">"@,
            TokenTag::RedirectOutAppend => ">>"@,
            TokenTag::RedirectOutWithFileDescriptor(i) => decimal_digits(i as nat) + ">"@,
            TokenTag::RedirectOutAppendWithFileDescriptor(i) => decimal_digits(i as nat) + ">>"@,
            TokenTag::Word => "Word"@,
        }
    }

    /// The tag as shown to the user.
    pub fn to_string(&self) -> (text: String)
        ensures
            text@ == self.display_text(),
    {
        let mut text = String::new();
        match self {
            TokenTag::EndOfCommand => {
                text.append("End of Command");
            },
            TokenTag::Integer(i) => {
                push_decimal(&mut text, *i as u64);
            },
            TokenTag::Pipe => {
                text.append("|");
            },
            TokenTag::RedirectOut => {
                text.append(">");
            },
            TokenTag::RedirectOutAppend => {
                text.append(">>");
            },
            TokenTag::RedirectOutWithFileDescriptor(i) => {
                push_decimal(&mut text, *i as u64);
                text.append(">");
            },
            TokenTag::RedirectOutAppendWithFileDescriptor(i) => {
                push_decimal(&mut text, *i as u64);
                text.append(">>");
            },
            TokenTag::Word => {
                text.append("Word");
            },
        }
        assert(text@ =~= self.display_text());
        text
    }

    /// The tag written as its variant's name, with the number it carries in
    /// parentheses.
    pub open spec fn debug_text(self) -> Seq<char> {
        match self {
            TokenTag::EndOfCommand => "EndOfCommand"@,
            TokenTag::Integer(i) => "Integer("@ + decimal_digits(i as nat) + ")"@,
            TokenTag::Pipe => "Pipe"@,
            TokenTag::RedirectOut => "RedirectOut"@,
            TokenTag::RedirectOutAppend => "RedirectOutAppend"@,
            TokenTag::RedirectOutWithFileDescriptor(i) => "RedirectOutWithFileDescriptor("@
                + decimal_digits(i as nat) + ")"@,
            TokenTag::RedirectOutAppendWithFileDescriptor(i) =>
                "RedirectOutAppendWithFileDescriptor("@ + decimal_digits(i as nat) + ")"@,
            TokenTag::Word => "Word"@,
        }
    }

    /// The tag written as its variant's name.
    pub fn debug_string(&self) -> (text: String)
        ensures
            text@ == self.debug_text(),
    {
        let mut text = String::new();
        match self {
            TokenTag::EndOfCommand => {
                text.append("EndOfCommand");
            },
            TokenTag::Integer(i) => {
                text.append("Integer(");
                push_decimal(&mut text, *i as u64);
                text.append(")");
            },
            TokenTag::Pipe => {
                text.append("Pipe");
            },
            TokenTag::RedirectOut => {
                text.append("RedirectOut");
            },
            TokenTag::RedirectOutAppend => {
                text.append("RedirectOutAppend");
            },
            TokenTag::RedirectOutWithFileDescriptor(i) => {
                text.append("RedirectOutWithFileDescriptor(");
                push_decimal(&mut text, *i as u64);
                text.append(")");
            },
            TokenTag::RedirectOutAppendWithFileDescriptor(i) => {
                text.append("RedirectOutAppendWithFileDescriptor(");
                push_decimal(&mut text, *i as u64);
                text.append(")");
            },
            TokenTag::Word => {
                text.append("Word");
            },
        }
        assert(text@ =~= self.debug_text());
        text
    }
}

/// A token in a command text.
#[derive(Debug)]
pub struct Token {
    /// Tags what kind of token this is.
    pub tag: TokenTag,
    /// The token's text.
    pub lexeme: String,
}

/// A token as a mathematical value.
pub struct TokenView {
    pub tag: TokenTag,
    pub lexeme: Seq<char>,
}

impl View for Token {
    type V = TokenView;

    open spec fn view(&self) -> TokenView {
        TokenView { tag: self.tag, lexeme: self.lexeme@ }
    }
}

impl Token {
    /// Creates a token from its tag and text.
    pub fn new(tag: TokenTag, lexeme: String) -> (token: Token)
        ensures
            token.tag == tag,
            token.lexeme == lexeme,
    {
        Token { tag, lexeme }
    }

    /// The kind of token.
    pub fn tag(&self) -> (tag: TokenTag)
        ensures
            tag == self.tag,
    {
        self.tag
    }

    /// The token's text.
    pub fn lexeme(&self) -> (lexeme: &str)
        ensures
            lexeme@ == self.lexeme@,
    {
        self.lexeme.as_str()
    }
}

/// Why a command text could not be split into tokens.
#[derive(Debug)]
pub enum ScanError {
    /// The text ended inside single quotes.
    UnclosedSingleQuote,
    /// The text ended inside double quotes.
    UnclosedDoubleQuote,
    /// The text ended right after a backslash outside quotes.
    DanglingBackslash,
    /// A run of digits does not fit an unsigned 32 bit integer.
    InvalidInteger(String),
}

/// A scan error as a mathematical value.
pub enum ScanErrorView {
    UnclosedSingleQuote,
    UnclosedDoubleQuote,
    DanglingBackslash,
    InvalidInteger(Seq<char>),
}

impl View for ScanError {
    type V = ScanErrorView;

    open spec fn view(&self) -> ScanErrorView {
        match self {
            ScanError::UnclosedSingleQuote => ScanErrorView::UnclosedSingleQuote,
            ScanError::UnclosedDoubleQuote => ScanErrorView::UnclosedDoubleQuote,
            ScanError::DanglingBackslash => ScanErrorView::DanglingBackslash,
            ScanError::InvalidInteger(text) => ScanErrorView::InvalidInteger(text@),
        }
    }
}

impl ScanErrorView {
    /// The line of text that reports the error.
    pub open spec fn message(self) -> Seq<char> {
        match self {
            ScanErrorView::UnclosedSingleQuote => "unclosed single quote"@,
            ScanErrorView::UnclosedDoubleQuote => "unclosed double quote"@,
            ScanErrorView::DanglingBackslash => "dangling backslash"@,
            ScanErrorView::InvalidInteger(text) => "couldn't parse `"@ + text
                + "` as an unsigned 32 bit integer"@,
        }
    }
}

impl ScanError {
    /// The line of text that reports the error.
    pub fn message(&self) -> (message: String)
        ensures
            message@ == self@.message(),
    {
        match self {
            ScanError::UnclosedSingleQuote => String::from_str("unclosed single quote"),
            ScanError::UnclosedDoubleQuote => String::from_str("unclosed double quote"),
            ScanError::DanglingBackslash => String::from_str("dangling backslash"),
            ScanError::InvalidInteger(text) => {
                let mut message = String::from_str("couldn't parse `");
                message.append(text.as_str());
                message.append("` as an unsigned 32 bit integer");
                message
            },
        }
    }
}

/// Whether `c` separates tokens: space, tab, carriage return or line feed.
pub open spec fn is_whitespace_char(c: char) -> bool {
    c == ' ' || c == '\t' || c == '\r' || c == '\n'
}

/// Whether `c` is one of the ten ASCII digits.
pub open spec fn is_digit_char(c: char) -> bool {
    '0' <= c <= '9'
}

/// Determines if the given character is a digit.
pub fn is_digit(c: char) -> (b: bool)
    ensures
        b == is_digit_char(c),
{
    '0' <= c && c <= '9'
}

/// Determines if the given character is whitespace.
pub fn is_whitespace(c: char) -> (b: bool)
    ensures
        b == is_whitespace_char(c),
{
    c == ' ' || c == '\t' || c == '\r' || c == '\n'
}

/// The value of digit `c`: zero for `'0'` up to nine for `'9'`.
pub open spec fn digit_value(c: char) -> nat {
    (c as u32 - '0' as u32) as nat
}

/// The number that a run of digits stands for, read in base ten.
pub open spec fn decimal_value(digits: Seq<char>) -> nat
    decreases digits.len(),
{
    if digits.len() == 0 {
        0
    } else {
        decimal_value(digits.drop_last()) * 10 + digit_value(digits.last())
    }
}

/// Whether every character of `s` is a digit.
pub open spec fn all_digits(s: Seq<char>) -> bool {
    forall|i: int| 0 <= i < s.len() ==> is_digit_char(#[trigger] s[i])
}

/// `s` without the one `+` that may stand in front of a number.
pub open spec fn without_plus_sign(s: Seq<char>) -> Seq<char> {
    if s.len() > 0 && s[0] == '+' {
        s.skip(1)
    } else {
        s
    }
}

/// Whether `s` is a numeral of an unsigned 32 bit integer: an optional `+`,
/// then one or more digits whose value is at most `u32::MAX`.
pub open spec fn is_u32_numeral(s: Seq<char>) -> bool {
    let digits = without_plus_sign(s);
    &&& digits.len() > 0
    &&& all_digits(digits)
    &&& decimal_value(digits) <= u32::MAX
}

/// Possible states when scanning a word token.
#[derive(Clone, Copy, Debug, PartialEq, Eq, Structural)]
pub enum WordState {
    /// Normal state.
    Normal,
    /// Inside single quoted text.
    InSingleQuote,
    /// Inside double quoted text.
    InDoubleQuote,
    /// Previous character was a backslash.
    BackSpace,
    /// Previous character was a backslash inside double quotes.
    QuotedBackSpace,
}

/// The state that follows `state` when the word scanner reads `c`. In the
/// normal state `c` is not whitespace: there whitespace ends the word.
pub open spec fn next_word_state(state: WordState, c: char) -> WordState {
    match state {
        WordState::Normal => if c == '\\' {
            WordState::BackSpace
        } else if c == '\'' {
            WordState::InSingleQuote
        } else if c == '"' {
            WordState::InDoubleQuote
        } else {
            WordState::Normal
        },
        WordState::InSingleQuote => if c == '\'' {
            WordState::Normal
        } else {
            WordState::InSingleQuote
        },
        WordState::InDoubleQuote => if c == '"' {
            WordState::Normal
        } else if c == '\\' {
            WordState::QuotedBackSpace
        } else {
            WordState::InDoubleQuote
        },
        WordState::BackSpace => WordState::Normal,
        WordState::QuotedBackSpace => WordState::InDoubleQuote,
    }
}

/// The word's text after the word scanner has read `c` in `state`, where
/// `word` is the text before.
pub open spec fn next_word_text(state: WordState, c: char, word: Seq<char>) -> Seq<char> {
    match state {
        WordState::Normal => if c == '\\' || c == '\'' || c == '"' {
            word
        } else {
            word.push(c)
        },
        WordState::InSingleQuote => if c == '\'' {
            word
        } else {
            word.push(c)
        },
        WordState::InDoubleQuote => if c == '"' || c == '\\' {
            word
        } else {
            word.push(c)
        },
        WordState::BackSpace => word.push(c),
        WordState::QuotedBackSpace => if c == '"' || c == '\\' {
            word.push(c)
        } else {
            word.push('\\').push(c)
        },
    }
}

/// What scanning a word gives: its text or an error, and the input that is
/// left.
pub struct WordScan {
    pub outcome: Result<Seq<char>, ScanErrorView>,
    pub rest: Seq<char>,
}

/// Scans a word from `s`, starting in `state` with the text `word` already
/// collected. The word ends at the first whitespace read in the normal
/// state, or at the end of the input, which is an error in any other state.
pub open spec fn scan_word(s: Seq<char>, state: WordState, word: Seq<char>) -> WordScan
    decreases s.len(),
{
    if s.len() == 0 {
        WordScan {
            outcome: match state {
                WordState::Normal => Ok(word),
                WordState::InSingleQuote => Err(ScanErrorView::UnclosedSingleQuote),
                WordState::InDoubleQuote | WordState::QuotedBackSpace => Err(
                    ScanErrorView::UnclosedDoubleQuote,
                ),
                WordState::BackSpace => Err(ScanErrorView::DanglingBackslash),
            },
            rest: s,
        }
    } else if state == WordState::Normal && is_whitespace_char(s[0]) {
        WordScan { outcome: Ok(word), rest: s }
    } else {
        scan_word(s.skip(1), next_word_state(state, s[0]), next_word_text(state, s[0], word))
    }
}

/// What scanning one token gives: the token or an error, and the input that
/// is left.
pub struct TokenScan {
    pub outcome: Result<TokenView, ScanErrorView>,
    pub rest: Seq<char>,
}

/// The number of digits at the start of `s`.
pub open spec fn digit_run_len(s: Seq<char>) -> nat
    decreases s.len(),
{
    if s.len() > 0 && is_digit_char(s[0]) {
        1 + digit_run_len(s.skip(1))
    } else {
        0
    }
}

/// Scans a token that starts with a digit: the whole run of digits is the
/// number, which must fit 32 bits. A `>` or `>>` right behind it makes the
/// token a redirection with that file descriptor.
pub open spec fn scan_integer(s: Seq<char>) -> TokenScan {
    let n = digit_run_len(s) as int;
    let digits = s.take(n);
    let after = s.skip(n);
    if decimal_value(digits) > u32::MAX {
        TokenScan { outcome: Err(ScanErrorView::InvalidInteger(digits)), rest: after }
    } else {
        let value = decimal_value(digits) as u32;
        if after.len() >= 2 && after[0] == '>' && after[1] == '>' {
            TokenScan {
                outcome: Ok(
                    TokenView {
                        tag: TokenTag::RedirectOutAppendWithFileDescriptor(value),
                        lexeme: digits.push('>').push('>'),
                    },
                ),
                rest: after.skip(2),
            }
        } else if after.len() >= 1 && after[0] == '>' {
            TokenScan {
                outcome: Ok(
                    TokenView {
                        tag: TokenTag::RedirectOutWithFileDescriptor(value),
                        lexeme: digits.push('>'),
                    },
                ),
                rest: after.skip(1),
            }
        } else {
            TokenScan {
                outcome: Ok(TokenView { tag: TokenTag::Integer(value), lexeme: digits }),
                rest: after,
            }
        }
    }
}

/// `s` without the whitespace at its start.
pub open spec fn skip_whitespace(s: Seq<char>) -> Seq<char>
    decreases s.len(),
{
    if s.len() > 0 && is_whitespace_char(s[0]) {
        skip_whitespace(s.skip(1))
    } else {
        s
    }
}

/// The token at the start of `s`, after any whitespace, and the input behind
/// it. An input with nothing but whitespace gives the end-of-command token.
pub open spec fn scan_token(s: Seq<char>) -> TokenScan {
    let t = skip_whitespace(s);
    if t.len() == 0 {
        TokenScan {
            outcome: Ok(TokenView { tag: TokenTag::EndOfCommand, lexeme: Seq::empty() }),
            rest: t,
        }
    } else if t[0] == '|' {
        TokenScan {
            outcome: Ok(TokenView { tag: TokenTag::Pipe, lexeme: seq!['|'] }),
            rest: t.skip(1),
        }
    } else if t[0] == '>' {
        if t.len() >= 2 && t[1] == '>' {
            TokenScan {
                outcome: Ok(TokenView { tag: TokenTag::RedirectOutAppend, lexeme: seq!['>', '>'] }),
                rest: t.skip(2),
            }
        } else {
            TokenScan {
                outcome: Ok(TokenView { tag: TokenTag::RedirectOut, lexeme: seq!['>'] }),
                rest: t.skip(1),
            }
        }
    } else if is_digit_char(t[0]) {
        scan_integer(t)
    } else {
        let word = scan_word(t, WordState::Normal, Seq::empty());
        TokenScan {
            outcome: match word.outcome {
                Ok(lexeme) => Ok(TokenView { tag: TokenTag::Word, lexeme }),
                Err(e) => Err(e),
            },
            rest: word.rest,
        }
    }
}

/// A longer run of digits does not stand for a smaller number.
pub proof fn lemma_decimal_value_prefix(digits: Seq<char>, k: int)
    requires
        0 <= k <= digits.len(),
    ensures
        decimal_value(digits.take(k)) <= decimal_value(digits),
    decreases digits.len() - k,
{
    if k == digits.len() {
        assert(digits.take(k) =~= digits);
    } else {
        assert(digits.drop_last().take(k) =~= digits.take(k));
        lemma_decimal_value_prefix(digits.drop_last(), k);
    }
}

/// Parse string as an `u32` with a custom error result.
///
/// The string is a numeral if it is one or more digits, with at most one `+`
/// in front, and its value fits 32 bits. Anything else is an error that
/// carries the string.
pub fn parse_u32(s: &str) -> (result: Result<u32, ScanError>)
    ensures
        match result {
            Ok(value) => is_u32_numeral(s@) && value == decimal_value(without_plus_sign(s@)),
            Err(e) => !is_u32_numeral(s@) && e@ == ScanErrorView::InvalidInteger(s@),
        },
{
    let chars = chars_of(s);
    let start: usize = if chars.len() > 0 && chars[0] == '+' {
        1
    } else {
        0
    };
    let ghost digits = without_plus_sign(s@);
    assert(digits =~= chars@.skip(start as int));
    if start == chars.len() {
        return Err(ScanError::InvalidInteger(String::from_str(s)));
    }
    let mut value: u32 = 0;
    let mut i: usize = start;
    while i < chars.len()
        invariant
            start <= i <= chars.len(),
            digits == chars@.skip(start as int),
            digits == without_plus_sign(s@),
            all_digits(digits.take(i - start)),
            value == decimal_value(digits.take(i - start)),
        decreases chars.len() - i,
    {
        let c = chars[i];
        let ghost k = i - start;
        assert(digits[k] == c);
        if !is_digit(c) {
            return Err(ScanError::InvalidInteger(String::from_str(s)));
        }
        let d: u64 = (c as u32 - '0' as u32) as u64;
        let wide: u64 = value as u64 * 10 + d;
        proof {
            assert(digits.take(k + 1).drop_last() =~= digits.take(k));
            assert(digits.take(k + 1).last() == c);
            assert(decimal_value(digits.take(k + 1)) == wide);
            assert forall|j: int| 0 <= j < k + 1 implies is_digit_char(
                #[trigger] digits.take(k + 1)[j],
            ) by {
                if j < k {
                    assert(digits.take(k + 1)[j] == digits.take(k)[j]);
                }
            }
        }
        if wide > 0xffff_ffff {
            proof {
                lemma_decimal_value_prefix(digits, k + 1);
            }
            return Err(ScanError::InvalidInteger(String::from_str(s)));
        }
        value = wide as u32;
        i = i + 1;
    }
    assert(digits.take(i - start) =~= digits);
    Ok(value)
}

/// A run of digits is no longer than the text it starts.
pub proof fn lemma_digit_run_len_bound(s: Seq<char>)
    ensures
        digit_run_len(s) <= s.len(),
    decreases s.len(),
{
    if s.len() > 0 && is_digit_char(s[0]) {
        lemma_digit_run_len_bound(s.skip(1));
    }
}

/// Skipping whitespace leaves a suffix of the text that does not start with
/// whitespace.
pub proof fn lemma_skip_whitespace(s: Seq<char>)
    ensures
        skip_whitespace(s).len() <= s.len(),
        skip_whitespace(s) == s.skip(s.len() - skip_whitespace(s).len()),
        skip_whitespace(s).len() > 0 ==> !is_whitespace_char(skip_whitespace(s)[0]),
        forall|i: int|
            0 <= i < s.len() - skip_whitespace(s).len() ==> is_whitespace_char(#[trigger] s[i]),
    decreases s.len(),
{
    if s.len() > 0 && is_whitespace_char(s[0]) {
        let t = s.skip(1);
        lemma_skip_whitespace(t);
        let n = t.len() - skip_whitespace(t).len();
        assert(t.skip(n) =~= s.skip(n + 1));
        assert forall|i: int| 0 <= i < s.len() - skip_whitespace(s).len() implies is_whitespace_char(
            #[trigger] s[i],
        ) by {
            if i > 0 {
                assert(s[i] == t[i - 1]);
            }
        }
    } else {
        assert(s.skip(0) =~= s);
    }
}

/// Scanning a word never hands back more input than it was given.
pub proof fn lemma_scan_word_rest(s: Seq<char>, state: WordState, word: Seq<char>)
    ensures
        scan_word(s, state, word).rest.len() <= s.len(),
    decreases s.len(),
{
    if s.len() == 0 {
    } else if state == WordState::Normal && is_whitespace_char(s[0]) {
    } else {
        lemma_scan_word_rest(
            s.skip(1),
            next_word_state(state, s[0]),
            next_word_text(state, s[0], word),
        );
    }
}

/// A token never hands back more input than it was given, and every token
/// but the end of the command consumes some.
pub proof fn lemma_scan_token_rest(s: Seq<char>)
    ensures
        scan_token(s).rest.len() <= s.len(),
        scan_token(s).outcome is Ok && scan_token(s).outcome->Ok_0.tag != TokenTag::EndOfCommand
            ==> scan_token(s).rest.len() < s.len(),
        scan_token(s).outcome is Ok && scan_token(s).outcome->Ok_0.tag == TokenTag::EndOfCommand
            ==> scan_token(s).rest.len() == 0,
{
    lemma_skip_whitespace(s);
    let t = skip_whitespace(s);
    if t.len() == 0 {
    } else if t[0] == '|' {
    } else if t[0] == '>' {
    } else if is_digit_char(t[0]) {
        lemma_digit_run_len_bound(t);
    } else {
        lemma_scan_word_rest(
            t.skip(1),
            next_word_state(WordState::Normal, t[0]),
            next_word_text(WordState::Normal, t[0], Seq::empty()),
        );
    }
}

/// Text of nothing but whitespace is skipped whole.
pub proof fn lemma_skip_whitespace_only(s: Seq<char>)
    requires
        forall|i: int| 0 <= i < s.len() ==> is_whitespace_char(#[trigger] s[i]),
    ensures
        skip_whitespace(s) == Seq::<char>::empty(),
    decreases s.len(),
{
    if s.len() > 0 {
        let t = s.skip(1);
        assert forall|i: int| 0 <= i < t.len() implies is_whitespace_char(#[trigger] t[i]) by {
            assert(t[i] == s[i + 1]);
        }
        lemma_skip_whitespace_only(t);
    } else {
        assert(s =~= Seq::<char>::empty());
    }
}

/// Once the scanner has handed out the end-of-command token, it hands it
/// out again on every later call.
pub proof fn lemma_end_of_command_repeats(s: Seq<char>)
    requires
        scan_token(s).outcome is Ok,
        scan_token(s).outcome->Ok_0.tag == TokenTag::EndOfCommand,
    ensures
        scan_token(scan_token(s).rest) == scan_token(s),
{
    lemma_scan_token_rest(s);
    let rest = scan_token(s).rest;
    assert(rest.len() == 0);
    assert(skip_whitespace(rest) == rest);
    lemma_skip_whitespace(s);
}

/// Whitespace in front of a token is skipped: it changes neither the token
/// nor what is left behind it.
pub proof fn lemma_leading_whitespace_is_skipped(blank: Seq<char>, s: Seq<char>)
    requires
        forall|i: int| 0 <= i < blank.len() ==> is_whitespace_char(#[trigger] blank[i]),
    ensures
        skip_whitespace(blank + s) == skip_whitespace(s),
        scan_token(blank + s) == scan_token(s),
    decreases blank.len(),
{
    if blank.len() == 0 {
        assert(blank + s =~= s);
    } else {
        let tail = blank.skip(1);
        assert((blank + s)[0] == blank[0]);
        assert((blank + s).skip(1) =~= tail + s);
        assert forall|i: int| 0 <= i < tail.len() implies is_whitespace_char(#[trigger] tail[i]) by {
            assert(tail[i] == blank[i + 1]);
        }
        lemma_leading_whitespace_is_skipped(tail, s);
    }
}

/// Whether `c` stands for itself in a word: it is no whitespace, no quote
/// and no backslash.
pub open spec fn is_plain_char(c: char) -> bool {
    !is_whitespace_char(c) && c != '\'' && c != '"' && c != '\\'
}

/// Whether `word` is a word that needs no quoting: it is not empty, each of
/// its characters stands for itself, and its first character starts neither
/// a number nor an operator.
pub open spec fn is_plain_word(word: Seq<char>) -> bool {
    &&& word.len() > 0
    &&& forall|i: int| 0 <= i < word.len() ==> is_plain_char(#[trigger] word[i])
    &&& !is_digit_char(word[0])
    &&& word[0] != '|'
    &&& word[0] != '>'
}

/// In the normal state, characters that stand for themselves are added to
/// the word one by one, up to the whitespace or the end of the text behind
/// them.
pub proof fn lemma_scan_plain_chars(plain: Seq<char>, rest: Seq<char>, word: Seq<char>)
    requires
        forall|i: int| 0 <= i < plain.len() ==> is_plain_char(#[trigger] plain[i]),
        rest.len() == 0 || is_whitespace_char(rest[0]),
    ensures
        scan_word(plain + rest, WordState::Normal, word) == (WordScan {
            outcome: Ok(word + plain),
            rest,
        }),
    decreases plain.len(),
{
    if plain.len() == 0 {
        assert(plain + rest =~= rest);
        assert(word + plain =~= word);
    } else {
        let s = plain + rest;
        let tail = plain.skip(1);
        assert(s[0] == plain[0]);
        assert(s.skip(1) =~= tail + rest);
        assert forall|i: int| 0 <= i < tail.len() implies is_plain_char(#[trigger] tail[i]) by {
            assert(tail[i] == plain[i + 1]);
        }
        lemma_scan_plain_chars(tail, rest, word.push(plain[0]));
        assert(word.push(plain[0]) + tail =~= word + plain);
    }
}

/// A word that needs no quoting is scanned as it is written: the token is
/// a word whose text is the word itself, and the scanner stops right behind
/// it.
pub proof fn lemma_plain_word_round_trip(word: Seq<char>, rest: Seq<char>)
    requires
        is_plain_word(word),
        rest.len() == 0 || is_whitespace_char(rest[0]),
    ensures
        scan_token(word + rest) == (TokenScan {
            outcome: Ok(TokenView { tag: TokenTag::Word, lexeme: word }),
            rest,
        }),
{
    let s = word + rest;
    assert(s[0] == word[0]);
    assert(skip_whitespace(s) == s);
    lemma_scan_plain_chars(word, rest, Seq::empty());
    assert(Seq::<char>::empty() + word =~= word);
}

/// Converts a command's text into a stream of tokens.
pub struct Scanner {
    /// The command text.
    chars: Vec<char>,
    /// How many characters of the text have been consumed.
    position: usize,
}

impl View for Scanner {
    type V = Seq<char>;

    /// The text that has not been consumed yet.
    closed spec fn view(&self) -> Seq<char> {
        self.chars@.skip(self.position as int)
    }
}

impl Scanner {
    #[verifier::type_invariant]
    spec fn well_formed(self) -> bool {
        self.position <= self.chars.len()
    }

    /// Creates a scanner for a give command text.
    pub fn new(command_text: &str) -> (scanner: Scanner)
        ensures
            scanner@ == command_text@,
    {
        let chars = chars_of(command_text);
        let scanner = Scanner { chars, position: 0 };
        assert(scanner@ =~= command_text@);
        scanner
    }

    /// The character under the cursor, if the text has not run out.
    fn current(&self) -> (c: Option<char>)
        ensures
            c == if self@.len() > 0 {
                Some(self@[0])
            } else {
                None
            },
    {
        proof {
            use_type_invariant(self);
        }
        if self.position < self.chars.len() {
            Some(self.chars[self.position])
        } else {
            None
        }
    }

    /// The character behind the one under the cursor, if there is one.
    fn next(&self) -> (c: Option<char>)
        ensures
            c == if self@.len() > 1 {
                Some(self@[1])
            } else {
                None
            },
    {
        proof {
            use_type_invariant(self);
        }
        if self.position < self.chars.len() && self.position + 1 < self.chars.len() {
            Some(self.chars[self.position + 1])
        } else {
            None
        }
    }

    /// Advances `current` to the next character in command text.
    fn advance(&mut self)
        ensures
            final(self)@ == if old(self)@.len() > 0 {
                old(self)@.skip(1)
            } else {
                old(self)@
            },
    {
        proof {
            use_type_invariant(&*self);
        }
        if self.position < self.chars.len() {
            self.position = self.position + 1;
            assert(self@ =~= old(self)@.skip(1));
        }
    }

    /// Advances the scanner past any whitespace.
    fn skip_whitespace(&mut self)
        ensures
            final(self)@ == skip_whitespace(old(self)@),
    {
        loop
            invariant
                skip_whitespace(self@) == skip_whitespace(old(self)@),
            ensures
                self@ == skip_whitespace(old(self)@),
            decreases self@.len(),
        {
            match self.current() {
                Some(c) => {
                    if is_whitespace(c) {
                        self.advance();
                    } else {
                        break ;
                    }
                },
                None => {
                    break ;
                },
            }
        }
    }

    /// Scans a quoted word.
    fn word(&mut self) -> (result: Result<String, ScanError>)
        ensures
            final(self)@ == scan_word(old(self)@, WordState::Normal, Seq::empty()).rest,
            match result {
                Ok(word) => scan_word(old(self)@, WordState::Normal, Seq::empty()).outcome == Ok::<
                    Seq<char>,
                    ScanErrorView,
                >(word@),
                Err(e) => scan_word(old(self)@, WordState::Normal, Seq::empty()).outcome == Err::<
                    Seq<char>,
                    ScanErrorView,
                >(e@),
            },
    {
        let mut state = WordState::Normal;
        let mut s = String::new();
        loop
            invariant
                scan_word(self@, state, s@) == scan_word(
                    old(self)@,
                    WordState::Normal,
                    Seq::empty(),
                ),
            ensures
                self@ == scan_word(old(self)@, WordState::Normal, Seq::empty()).rest,
                scan_word(old(self)@, WordState::Normal, Seq::empty()).outcome == Ok::<
                    Seq<char>,
                    ScanErrorView,
                >(s@),
            decreases self@.len(),
        {
            match self.current() {
                None => {
                    match state {
                        WordState::Normal => {
                            break ;
                        },
                        WordState::InSingleQuote => {
                            return Err(ScanError::UnclosedSingleQuote);
                        },
                        WordState::InDoubleQuote | WordState::QuotedBackSpace => {
                            return Err(ScanError::UnclosedDoubleQuote);
                        },
                        WordState::BackSpace => {
                            return Err(ScanError::DanglingBackslash);
                        },
                    }
                },
                Some(c) => {
                    match state {
                        WordState::Normal => {
                            if c == '\\' {
                                state = WordState::BackSpace;
                            } else if c == '\'' {
                                state = WordState::InSingleQuote;
                            } else if c == '"' {
                                state = WordState::InDoubleQuote;
                            } else if is_whitespace(c) {
                                break ;
                            } else {
                                s.push(c);
                            }
                        },
                        WordState::InSingleQuote => {
                            if c == '\'' {
                                state = WordState::Normal;
                            } else {
                                s.push(c);
                            }
                        },
                        WordState::InDoubleQuote => {
                            if c == '"' {
                                state = WordState::Normal;
                            } else if c == '\\' {
                                state = WordState::QuotedBackSpace;
                            } else {
                                s.push(c);
                            }
                        },
                        WordState::BackSpace => {
                            state = WordState::Normal;
                            s.push(c);
                        },
                        WordState::QuotedBackSpace => {
                            state = WordState::InDoubleQuote;
                            if c == '"' || c == '\\' {
                                s.push(c);
                            } else {
                                s.push('\\');
                                s.push(c);
                            }
                        },
                    }
                },
            }
            self.advance();
        }
        Ok(s)
    }

    /// Scans an integer token.
    fn integer(&mut self) -> (result: Result<Token, ScanError>)
        requires
            old(self)@.len() > 0,
            is_digit_char(old(self)@[0]),
        ensures
            final(self)@ == scan_integer(old(self)@).rest,
            match result {
                Ok(token) => scan_integer(old(self)@).outcome == Ok::<TokenView, ScanErrorView>(
                    token@,
                ),
                Err(e) => scan_integer(old(self)@).outcome == Err::<TokenView, ScanErrorView>(e@),
            },
    {
        let ghost start = self@;
        let mut lexeme = String::new();
        loop
            invariant
                lexeme@.len() <= start.len(),
                lexeme@ == start.take(lexeme@.len() as int),
                self@ == start.skip(lexeme@.len() as int),
                all_digits(lexeme@),
                digit_run_len(start) == lexeme@.len() + digit_run_len(self@),
            ensures
                lexeme@.len() <= start.len(),
                lexeme@ == start.take(lexeme@.len() as int),
                self@ == start.skip(lexeme@.len() as int),
                all_digits(lexeme@),
                digit_run_len(start) == lexeme@.len(),
            decreases self@.len(),
        {
            let ghost k = lexeme@.len() as int;
            match self.current() {
                Some(c) => {
                    if is_digit(c) {
                        lexeme.push(c);
                        self.advance();
                        proof {
                            assert(start.skip(k)[0] == start[k]);
                            assert(lexeme@ =~= start.take(k + 1));
                            assert(self@ =~= start.skip(k + 1));
                        }
                    } else {
                        break ;
                    }
                },
                None => {
                    break ;
                },
            }
        }
        let ghost digits = lexeme@;
        assert(digits.len() > 0);
        assert(is_digit_char(digits[0]));
        assert(without_plus_sign(digits) == digits);
        let i = match parse_u32(lexeme.as_str()) {
            Ok(i) => i,
            Err(e) => {
                return Err(e);
            },
        };
        let ghost after = self@;
        let tag = match (self.current(), self.next()) {
            (Some('>'), Some('>')) => {
                lexeme.push('>');
                lexeme.push('>');
                self.advance();
                self.advance();
                assert(self@ =~= after.skip(2));
                TokenTag::RedirectOutAppendWithFileDescriptor(i)
            },
            (Some('>'), _) => {
                lexeme.push('>');
                self.advance();
                TokenTag::RedirectOutWithFileDescriptor(i)
            },
            _ => TokenTag::Integer(i),
        };
        Ok(Token::new(tag, lexeme))
    }

    /// Returns the next token in the command text.
    ///
    /// Once the text is exhausted every call returns the end-of-command
    /// token. After an error the scanner stands where the error was found.
    pub fn next_token(&mut self) -> (result: Result<Token, ScanError>)
        ensures
            final(self)@ == scan_token(old(self)@).rest,
            match result {
                Ok(token) => scan_token(old(self)@).outcome == Ok::<TokenView, ScanErrorView>(
                    token@,
                ),
                Err(e) => scan_token(old(self)@).outcome == Err::<TokenView, ScanErrorView>(e@),
            },
    {
        self.skip_whitespace();
        let ghost t = self@;
        match self.current() {
            None => Ok(Token::new(TokenTag::EndOfCommand, String::new())),
            Some(c) => {
                if c == '|' {
                    self.advance();
                    let mut lexeme = String::new();
                    lexeme.push('|');
                    assert(lexeme@ =~= seq!['|']);
                    Ok(Token::new(TokenTag::Pipe, lexeme))
                } else if c == '>' {
                    let mut lexeme = String::new();
                    lexeme.push('>');
                    match self.next() {
                        Some('>') => {
                            self.advance();
                            self.advance();
                            assert(self@ =~= t.skip(2));
                            lexeme.push('>');
                            assert(lexeme@ =~= seq!['>', '>']);
                            Ok(Token::new(TokenTag::RedirectOutAppend, lexeme))
                        },
                        _ => {
                            self.advance();
                            assert(lexeme@ =~= seq!['>']);
                            Ok(Token::new(TokenTag::RedirectOut, lexeme))
                        },
                    }
                } else if is_digit(c) {
                    self.integer()
                } else {
                    match self.word() {
                        Ok(lexeme) => Ok(Token::new(TokenTag::Word, lexeme)),
                        Err(e) => Err(e),
                    }
                }
            },
        }
    }
}

} // verus!
