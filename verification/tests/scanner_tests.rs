use shell_core::scanner::{
    is_digit, is_whitespace, parse_u32, ScanError, Scanner, Token, TokenTag,
};

fn scan_all(text: &str) -> Result<Vec<(TokenTag, String)>, String> {
    let mut scanner = Scanner::new(text);
    let mut tokens = Vec::new();
    loop {
        match scanner.next_token() {
            Ok(token) => {
                if token.tag == TokenTag::EndOfCommand {
                    return Ok(tokens);
                }
                tokens.push((token.tag, token.lexeme));
            }
            Err(e) => return Err(e.message()),
        }
    }
}

fn word(text: &str) -> (TokenTag, String) {
    (TokenTag::Word, text.to_string())
}

#[test]
fn scans_a_plain_word() {
    let mut scanner = Scanner::new("hello");
    let token = scanner.next_token().unwrap();
    assert_eq!(token.tag, TokenTag::Word);
    assert_eq!(token.lexeme, "hello");
    let end = scanner.next_token().unwrap();
    assert_eq!(end.tag, TokenTag::EndOfCommand);
    assert_eq!(end.lexeme, "");
}

#[test]
fn end_of_command_repeats_forever() {
    let mut scanner = Scanner::new("  a \t\r\n");
    assert_eq!(scanner.next_token().unwrap().tag, TokenTag::Word);
    for _ in 0..5 {
        let token = scanner.next_token().unwrap();
        assert_eq!(token.tag, TokenTag::EndOfCommand);
        assert_eq!(token.lexeme, "");
    }
}

#[test]
fn empty_and_blank_text_have_no_tokens() {
    assert_eq!(scan_all(""), Ok(vec![]));
    assert_eq!(scan_all(" \t \r\n  "), Ok(vec![]));
}

#[test]
fn whitespace_separates_words() {
    assert_eq!(
        scan_all("echo  hello\tworld\r\n"),
        Ok(vec![word("echo"), word("hello"), word("world")])
    );
}

#[test]
fn plain_words_are_scanned_verbatim() {
    for text in ["ls", "a.b-c_d", "/usr/bin/env", "x1", "h|i", "a>b", "~", "=1"] {
        assert_eq!(scan_all(text), Ok(vec![word(text)]));
    }
}

#[test]
fn single_quotes_keep_everything() {
    assert_eq!(scan_all("'a  b'"), Ok(vec![word("a  b")]));
    assert_eq!(scan_all("'a\\nb'"), Ok(vec![word("a\\nb")]));
    assert_eq!(scan_all("'say \"hi\"'"), Ok(vec![word("say \"hi\"")]));
    assert_eq!(scan_all("''"), Ok(vec![word("")]));
}

#[test]
fn double_quotes_keep_spaces_and_single_quotes() {
    assert_eq!(scan_all("\"a  b\""), Ok(vec![word("a  b")]));
    assert_eq!(scan_all("\"it's\""), Ok(vec![word("it's")]));
}

#[test]
fn double_quote_escapes() {
    // \" and \\ drop the backslash, any other escape keeps it.
    assert_eq!(scan_all("\"a\\\"b\""), Ok(vec![word("a\"b")]));
    assert_eq!(scan_all("\"a\\\\b\""), Ok(vec![word("a\\b")]));
    assert_eq!(scan_all("\"a\\nb\""), Ok(vec![word("a\\nb")]));
    assert_eq!(scan_all("\"a\\'b\""), Ok(vec![word("a\\'b")]));
    assert_eq!(scan_all("\"a\\ b\""), Ok(vec![word("a\\ b")]));
}

#[test]
fn backslash_outside_quotes_takes_next_character() {
    assert_eq!(scan_all("a\\ b"), Ok(vec![word("a b")]));
    assert_eq!(scan_all("\\'x"), Ok(vec![word("'x")]));
    assert_eq!(scan_all("\\\\"), Ok(vec![word("\\")]));
    assert_eq!(scan_all("a\\nb"), Ok(vec![word("anb")]));
}

#[test]
fn adjacent_quoted_parts_form_one_word() {
    assert_eq!(scan_all("a'b c'\"d e\"f"), Ok(vec![word("ab cd ef")]));
}

#[test]
fn unclosed_single_quote_is_an_error() {
    assert_eq!(scan_all("echo 'abc"), Err("unclosed single quote".to_string()));
}

#[test]
fn unclosed_double_quote_is_an_error() {
    assert_eq!(scan_all("echo \"abc"), Err("unclosed double quote".to_string()));
    assert_eq!(scan_all("echo \"abc\\"), Err("unclosed double quote".to_string()));
}

#[test]
fn dangling_backslash_is_an_error() {
    assert_eq!(scan_all("echo abc\\"), Err("dangling backslash".to_string()));
}

#[test]
fn scanner_stands_at_the_end_after_a_quote_error() {
    let mut scanner = Scanner::new("'abc");
    assert!(matches!(scanner.next_token(), Err(ScanError::UnclosedSingleQuote)));
    assert_eq!(scanner.next_token().unwrap().tag, TokenTag::EndOfCommand);
}

#[test]
fn operators() {
    assert_eq!(
        scan_all("| > >>"),
        Ok(vec![
            (TokenTag::Pipe, "|".to_string()),
            (TokenTag::RedirectOut, ">".to_string()),
            (TokenTag::RedirectOutAppend, ">>".to_string()),
        ])
    );
    assert_eq!(
        scan_all(">>>"),
        Ok(vec![
            (TokenTag::RedirectOutAppend, ">>".to_string()),
            (TokenTag::RedirectOut, ">".to_string()),
        ])
    );
    assert_eq!(
        scan_all("||"),
        Ok(vec![(TokenTag::Pipe, "|".to_string()), (TokenTag::Pipe, "|".to_string())])
    );
}

#[test]
fn integers_and_descriptor_redirections() {
    assert_eq!(scan_all("42"), Ok(vec![(TokenTag::Integer(42), "42".to_string())]));
    assert_eq!(scan_all("007"), Ok(vec![(TokenTag::Integer(7), "007".to_string())]));
    assert_eq!(
        scan_all("1> 2>> 3>"),
        Ok(vec![
            (TokenTag::RedirectOutWithFileDescriptor(1), "1>".to_string()),
            (TokenTag::RedirectOutAppendWithFileDescriptor(2), "2>>".to_string()),
            (TokenTag::RedirectOutWithFileDescriptor(3), "3>".to_string()),
        ])
    );
    assert_eq!(
        scan_all("4294967295"),
        Ok(vec![(TokenTag::Integer(u32::MAX), "4294967295".to_string())])
    );
}

#[test]
fn digits_end_where_another_character_starts() {
    assert_eq!(
        scan_all("12ab"),
        Ok(vec![(TokenTag::Integer(12), "12".to_string()), word("ab")])
    );
    assert_eq!(
        scan_all("1 >"),
        Ok(vec![(TokenTag::Integer(1), "1".to_string()), (TokenTag::RedirectOut, ">".to_string())])
    );
}

#[test]
fn integer_overflow_is_an_error() {
    assert_eq!(
        scan_all("echo 4294967296"),
        Err("couldn't parse `4294967296` as an unsigned 32 bit integer".to_string())
    );
    assert_eq!(
        scan_all("99999999999999999999999>"),
        Err("couldn't parse `99999999999999999999999` as an unsigned 32 bit integer".to_string())
    );
}

#[test]
fn scanner_stands_behind_the_digits_after_an_overflow() {
    let mut scanner = Scanner::new("4294967296 x");
    assert!(matches!(scanner.next_token(), Err(ScanError::InvalidInteger(_))));
    let token = scanner.next_token().unwrap();
    assert_eq!((token.tag, token.lexeme.as_str()), (TokenTag::Word, "x"));
}

#[test]
fn parse_u32_accepts_what_the_standard_library_accepts() {
    for text in [
        "0", "7", "42", "007", "+5", "+0", "4294967295", "4294967296", "", "+", "-1", "1 ", " 1",
        "1_000", "12a", "++1", "99999999999999999999", "000000000000000000001", "٣",
    ] {
        let expected: Result<u32, _> = text.parse::<u32>();
        match (parse_u32(text), expected) {
            (Ok(a), Ok(b)) => assert_eq!(a, b, "value of {:?}", text),
            (Err(e), Err(_)) => assert_eq!(
                e.message(),
                format!("couldn't parse `{}` as an unsigned 32 bit integer", text)
            ),
            (a, b) => panic!("{:?}: {:?} against {:?}", text, a, b),
        }
    }
}

#[test]
fn character_classes() {
    for c in ['0', '5', '9'] {
        assert!(is_digit(c));
    }
    for c in ['a', ' ', '/', ':', '٣'] {
        assert!(!is_digit(c));
    }
    for c in [' ', '\t', '\r', '\n'] {
        assert!(is_whitespace(c));
    }
    for c in ['a', '0', '\u{b}', '\u{c}', '\u{a0}'] {
        assert!(!is_whitespace(c));
    }
}

#[test]
fn token_accessors() {
    let token = Token::new(TokenTag::Integer(3), "3".to_string());
    assert_eq!(token.tag(), TokenTag::Integer(3));
    assert_eq!(token.lexeme(), "3");
}

#[test]
fn tag_display_text() {
    assert_eq!(TokenTag::EndOfCommand.to_string(), "End of Command");
    assert_eq!(TokenTag::Integer(0).to_string(), "0");
    assert_eq!(TokenTag::Integer(4294967295).to_string(), "4294967295");
    assert_eq!(TokenTag::Pipe.to_string(), "|");
    assert_eq!(TokenTag::RedirectOut.to_string(), ">");
    assert_eq!(TokenTag::RedirectOutAppend.to_string(), ">>");
    assert_eq!(TokenTag::RedirectOutWithFileDescriptor(12).to_string(), "12>");
    assert_eq!(TokenTag::RedirectOutAppendWithFileDescriptor(2).to_string(), "2>>");
    assert_eq!(TokenTag::Word.to_string(), "Word");
}

#[test]
fn tag_debug_text_is_the_derived_one() {
    for tag in [
        TokenTag::EndOfCommand,
        TokenTag::Integer(105),
        TokenTag::Pipe,
        TokenTag::RedirectOut,
        TokenTag::RedirectOutAppend,
        TokenTag::RedirectOutWithFileDescriptor(1),
        TokenTag::RedirectOutAppendWithFileDescriptor(20),
        TokenTag::Word,
    ] {
        assert_eq!(tag.debug_string(), format!("{:?}", tag));
    }
}

#[test]
fn unicode_text_is_scanned_by_character() {
    assert_eq!(scan_all("héllo 'wörld ✓'"), Ok(vec![word("héllo"), word("wörld ✓")]));
}

#[test]
fn every_state_has_a_transition_for_every_kind_of_character() {
    // (text, what the scanner makes of it); each line names the state in
    // which the character of interest is read.
    let table: [(&str, Result<&str, &str>); 31] = [
        // normal
        ("ab", Ok("ab")),
        ("a b", Ok("a")),
        ("a'b'", Ok("ab")),
        ("a\"b\"", Ok("ab")),
        ("a\\b", Ok("ab")),
        ("a", Ok("a")),
        // inside single quotes
        ("'a'", Ok("a")),
        ("' '", Ok(" ")),
        ("'\t'", Ok("\t")),
        ("'\"'", Ok("\"")),
        ("'\\'", Ok("\\")),
        ("'", Err("unclosed single quote")),
        ("'a", Err("unclosed single quote")),
        // inside double quotes
        ("\"a\"", Ok("a")),
        ("\" \"", Ok(" ")),
        ("\"\n\"", Ok("\n")),
        ("\"'\"", Ok("'")),
        ("\"", Err("unclosed double quote")),
        ("\"a", Err("unclosed double quote")),
        // behind a backslash
        ("\\a", Ok("a")),
        ("\\ ", Ok(" ")),
        ("\\'", Ok("'")),
        ("\\\"", Ok("\"")),
        ("\\\\", Ok("\\")),
        ("\\", Err("dangling backslash")),
        // behind a backslash inside double quotes
        ("\"\\\"\"", Ok("\"")),
        ("\"\\\\\"", Ok("\\")),
        ("\"\\a\"", Ok("\\a")),
        ("\"\\ \"", Ok("\\ ")),
        ("\"\\'\"", Ok("\\'")),
        ("\"\\", Err("unclosed double quote")),
    ];
    for (text, expected) in table {
        let mut scanner = Scanner::new(text);
        match (scanner.next_token(), expected) {
            (Ok(token), Ok(lexeme)) => {
                assert_eq!(token.tag, TokenTag::Word, "{:?}", text);
                assert_eq!(token.lexeme, lexeme, "{:?}", text);
            }
            (Err(e), Err(message)) => assert_eq!(e.message(), message, "{:?}", text),
            (got, _) => panic!("{:?} gave {:?}", text, got),
        }
    }
}
