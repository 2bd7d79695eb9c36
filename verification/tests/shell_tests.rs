use lib::shell::{
    Command, ExecutionPipeline, LexError, Lexer, ParseOutcome, Parser, ParserError, Span, Token,
    MAX_ARGS, MAX_COMMANDS,
};

fn span(start: u8, len: u8) -> Span {
    Span { start, len }
}

fn tokens(line: &str) -> Result<Vec<Token>, LexError> {
    let mut lexer = Lexer::new(line);
    let mut out = Vec::new();
    while let Some(t) = lexer.next_token()? {
        out.push(t);
    }
    Ok(out)
}

/// Each run as (background, commands as word lists).
fn runs(line: &str, outcome: &ParseOutcome) -> Vec<(bool, Vec<Vec<String>>)> {
    outcome
        .runs
        .iter()
        .map(|r| {
            let p = &r.pipeline;
            let cmds = (0..p.count())
                .map(|i| {
                    p.command(i)
                        .words(line)
                        .unwrap()
                        .iter()
                        .map(|w| w.to_string())
                        .collect()
                })
                .collect();
            (r.background, cmds)
        })
        .collect()
}

fn parse(line: &str) -> (Vec<(bool, Vec<Vec<String>>)>, Result<(), ParserError>) {
    let mut parser = Parser::new(line);
    let outcome = parser.parse_and_run();
    (runs(line, &outcome), outcome.result)
}

fn cmd(words: &[&str]) -> Vec<String> {
    words.iter().map(|w| w.to_string()).collect()
}

#[test]
fn span_empty_and_as_str() {
    assert_eq!(Span::empty(), span(0, 0));
    assert_eq!(Span::empty().as_str("abc"), "");
    assert_eq!(span(4, 5).as_str("say hello there"), "hello");
    assert_eq!(span(0, 3).as_str("abc"), "abc");
}

#[test]
fn span_as_str_on_multibyte_text() {
    let line = "echo h\u{e9}llo";
    assert_eq!(span(5, 6).as_str(line), "h\u{e9}llo");
}

#[test]
fn lexes_words_and_operators() {
    assert_eq!(
        tokens("ls -l|wc;a&").unwrap(),
        vec![
            Token::Word(span(0, 2)),
            Token::Word(span(3, 2)),
            Token::Pipe,
            Token::Word(span(6, 2)),
            Token::Semicolon,
            Token::Word(span(9, 1)),
            Token::Background,
        ]
    );
}

#[test]
fn lexes_blank_kinds() {
    assert_eq!(
        tokens(" \t a\r\n\x0cb ").unwrap(),
        vec![Token::Word(span(3, 1)), Token::Word(span(7, 1))]
    );
    assert_eq!(tokens("   ").unwrap(), vec![]);
    assert_eq!(tokens("").unwrap(), vec![]);
}

#[test]
fn lexes_quoted_word() {
    let line = "echo \"hello world | ; &\" x";
    let t = tokens(line).unwrap();
    assert_eq!(t, vec![Token::Word(span(0, 4)), Token::Word(span(6, 17)), Token::Word(span(25, 1))]);
    if let Token::Word(s) = t[1] {
        assert_eq!(s.as_str(line), "hello world | ; &");
    }
}

#[test]
fn quote_ends_a_word() {
    assert_eq!(
        tokens("ab\"c d\"e").unwrap(),
        vec![Token::Word(span(0, 2)), Token::Word(span(3, 3)), Token::Word(span(7, 1))]
    );
    assert_eq!(tokens("\"\"").unwrap(), vec![Token::Word(span(1, 0))]);
}

#[test]
fn unterminated_quote_is_an_error() {
    assert_eq!(tokens("echo \"abc"), Err(LexError::UnterminatedString));
    let mut lexer = Lexer::new("\"abc");
    assert_eq!(lexer.next_token(), Err(LexError::UnterminatedString));
}

#[test]
fn end_of_line_repeats() {
    let mut lexer = Lexer::new("a");
    assert_eq!(lexer.next_token(), Ok(Some(Token::Word(span(0, 1)))));
    assert_eq!(lexer.next_token(), Ok(None));
    assert_eq!(lexer.next_token(), Ok(None));
}

#[test]
fn command_with_arguments_runs_in_foreground() {
    let (r, res) = parse("echo hello world");
    assert_eq!(res, Ok(()));
    assert_eq!(r, vec![(false, vec![cmd(&["echo", "hello", "world"])])]);
}

#[test]
fn ampersand_runs_in_background() {
    let (r, res) = parse("ptest arg &");
    assert_eq!(res, Ok(()));
    assert_eq!(r, vec![(true, vec![cmd(&["ptest", "arg"])])]);
}

#[test]
fn background_then_foreground() {
    let (r, res) = parse("a 1 & b 2");
    assert_eq!(res, Ok(()));
    assert_eq!(r, vec![(true, vec![cmd(&["a", "1"])]), (false, vec![cmd(&["b", "2"])])]);
}

#[test]
fn semicolon_runs_in_sequence() {
    let (r, res) = parse("a; b x;");
    assert_eq!(res, Ok(()));
    assert_eq!(r, vec![(false, vec![cmd(&["a"])]), (false, vec![cmd(&["b", "x"])])]);
}

#[test]
fn quoted_argument_keeps_spaces() {
    let (r, res) = parse("echo \"a b\" c");
    assert_eq!(res, Ok(()));
    assert_eq!(r, vec![(false, vec![cmd(&["echo", "a b", "c"])])]);
}

#[test]
fn pipe_joins_commands() {
    let (r, res) = parse("cat f | wc -l | x &");
    assert_eq!(res, Ok(()));
    assert_eq!(r, vec![(true, vec![cmd(&["cat", "f"]), cmd(&["wc", "-l"]), cmd(&["x"])])]);
}

#[test]
fn empty_lines_run_nothing() {
    assert_eq!(parse(""), (vec![], Ok(())));
    assert_eq!(parse("  ;  ; &"), (vec![], Ok(())));
}

#[test]
fn empty_command_errors() {
    assert_eq!(parse("| a"), (vec![], Err(ParserError::EmptyCommand)));
    assert_eq!(parse("a |"), (vec![], Err(ParserError::EmptyCommand)));
    assert_eq!(parse("a | ; b"), (vec![], Err(ParserError::EmptyCommand)));
    assert_eq!(parse("a || b"), (vec![], Err(ParserError::EmptyCommand)));
}

#[test]
fn runs_before_an_error_are_kept() {
    let (r, res) = parse("first; second | ");
    assert_eq!(res, Err(ParserError::EmptyCommand));
    assert_eq!(r, vec![(false, vec![cmd(&["first"])])]);
    let (r, res) = parse("a & b \"unterminated");
    assert_eq!(res, Err(ParserError::Lex(LexError::UnterminatedString)));
    assert_eq!(r, vec![(true, vec![cmd(&["a"])])]);
}

#[test]
fn too_many_arguments() {
    let sixteen = "w ".repeat(MAX_ARGS);
    let (r, res) = parse(&sixteen);
    assert_eq!(res, Ok(()));
    assert_eq!(r[0].1[0].len(), MAX_ARGS);
    let seventeen = "w ".repeat(MAX_ARGS + 1);
    assert_eq!(parse(&seventeen), (vec![], Err(ParserError::TooManyArguments)));
}

#[test]
fn too_many_commands() {
    let eight = vec!["c"; MAX_COMMANDS].join("|");
    let (r, res) = parse(&eight);
    assert_eq!(res, Ok(()));
    assert_eq!(r[0].1.len(), MAX_COMMANDS);
    let nine = vec!["c"; MAX_COMMANDS + 1].join("|");
    assert_eq!(parse(&nine), (vec![], Err(ParserError::TooManyCommands)));
    let nine_then_semicolon = format!("{};", nine);
    assert_eq!(parse(&nine_then_semicolon), (vec![], Err(ParserError::TooManyCommands)));
}

#[test]
fn second_parse_of_a_line_runs_nothing() {
    let mut parser = Parser::new("a; b");
    assert_eq!(parser.parse_and_run().runs.len(), 2);
    let again = parser.parse_and_run();
    assert_eq!(again.runs.len(), 0);
    assert_eq!(again.result, Ok(()));
}

#[test]
fn new_command_and_pipeline_are_empty() {
    assert_eq!(Command::new().argc(), 0);
    assert_eq!(ExecutionPipeline::new().count(), 0);
}

#[test]
fn command_words_and_args() {
    let line = "grep \"x y\" file";
    let mut parser = Parser::new(line);
    let outcome = parser.parse_and_run();
    let command = outcome.runs[0].pipeline.command(0);
    assert_eq!(command.argc(), 3);
    assert_eq!(command.arg(1), span(6, 3));
    assert_eq!(command.words(line).unwrap(), vec!["grep", "x y", "file"]);
    // against another line the spans do not fit
    assert!(command.words("gr").is_none());
}

#[test]
fn words_reject_spans_inside_a_character() {
    let line = "\u{e9}\u{e9} x";
    let mut parser = Parser::new(line);
    let outcome = parser.parse_and_run();
    let command = outcome.runs[0].pipeline.command(0);
    assert_eq!(command.words(line).unwrap(), vec!["\u{e9}\u{e9}", "x"]);
    assert!(command.words("a\u{e9}\u{e9} x").is_none());
}

#[test]
fn trailing_blanks_end_the_line() {
    let mut lexer = Lexer::new("cmd \t  ");
    assert_eq!(lexer.next_token(), Ok(Some(Token::Word(span(0, 3)))));
    assert_eq!(lexer.next_token(), Ok(None));
    assert_eq!(lexer.next_token(), Ok(None));
}

#[test]
fn lexer_stays_on_character_boundaries() {
    let line = "\u{e9}t\u{e9} \"\u{e0} b\" | x";
    let mut lexer = Lexer::new(line);
    let mut words = Vec::new();
    while let Some(t) = lexer.next_token().unwrap() {
        if let Token::Word(s) = t {
            words.push(s.as_str(line).to_string());
        }
    }
    assert_eq!(words, vec!["\u{e9}t\u{e9}", "\u{e0} b", "x"]);
}
