//! The user shell's command line: a lexer that splits a line into words and
//! operators, and a parser that groups the words into commands, pipelines
//! and the runs the shell performs.
//!
//! A line is a sequence of pipelines separated by `;` (run in the
//! foreground) or `&` (run in the background); a pipeline is commands joined
//! by `|`; a command is words.  Words are separated by blanks and operators;
//! a word in double quotes may hold blanks and operators.

use vstd::prelude::*;

verus! {

/// Most words one command may hold.
pub const MAX_ARGS: usize = 16;

/// Most commands one pipeline may hold.
pub const MAX_COMMANDS: usize = 8;

/// A word of the line: `len` bytes from byte offset `start`.  Offsets are
/// kept in bytes, which limits lines to 255 bytes.
#[derive(Clone, Copy, PartialEq, Eq, Structural, Debug)]
pub struct Span {
    pub start: u8,
    pub len: u8,
}

impl Span {
    pub fn empty() -> (span: Self)
        ensures
            span == (Span { start: 0, len: 0 }),
    {
        Self { start: 0, len: 0 }
    }

    /// The word this span marks in `input`.  The span must lie within the
    /// line and start and end on character boundaries.
    pub fn as_str<'a>(&self, input: &'a str) -> (word: &'a str)
        requires
            self.start + self.len <= text_bytes(input).len(),
            vstd::utf8::is_char_boundary(text_bytes(input), self.start as int),
            vstd::utf8::is_char_boundary(text_bytes(input), self.start + self.len),
        ensures
            text_bytes(word) == text_bytes(input).subrange(self.start as int, self.start + self.len),
    {
        let start = self.start as usize;
        let len = self.len as usize;
        proof {
            vstd::utf8::encode_utf8_valid_utf8(input@);
            lemma_subrange_boundary(text_bytes(input), start as int, start + len);
        }
        let (_, rest) = input.split_at(start);
        let (word, _) = rest.split_at(len);
        proof {
            assert(text_bytes(word) =~= text_bytes(input).subrange(start as int, start + len));
        }
        word
    }
}

/// Cutting a UTF-8 text at a character boundary `start` leaves the later
/// boundary `end` a boundary of the rest, at `end - start`.
proof fn lemma_subrange_boundary(b: Seq<u8>, start: int, end: int)
    requires
        0 <= start <= end <= b.len(),
        vstd::utf8::valid_utf8(b),
        vstd::utf8::is_char_boundary(b, start),
        vstd::utf8::is_char_boundary(b, end),
    ensures
        vstd::utf8::valid_utf8(b.subrange(start, b.len() as int)),
        vstd::utf8::is_char_boundary(b.subrange(start, b.len() as int), end - start),
{
    let rest = b.subrange(start, b.len() as int);
    vstd::utf8::valid_utf8_split(b, start);
    vstd::utf8::is_char_boundary_start_end_of_seq(rest);
    if end < b.len() && end > start {
        vstd::utf8::is_char_boundary_iff_not_is_continuation_byte(b, end);
        vstd::utf8::is_char_boundary_iff_not_is_continuation_byte(rest, end - start);
        assert(rest[end - start] == b[end]);
    }
}

/// A token of the command line.
#[derive(Clone, Copy, PartialEq, Eq, Structural, Debug)]
pub enum Token {
    Word(Span),
    Pipe,
    Semicolon,
    Background,
}

/// Why a line cannot be split into tokens.
#[derive(Clone, Copy, PartialEq, Eq, Structural, Debug)]
pub enum LexError {
    UnterminatedString,
}

/// The bytes of a string slice (its UTF-8 encoding).
pub open spec fn text_bytes(s: &str) -> Seq<u8> {
    vstd::string::StringSliceAdditionalSpecFns::spec_bytes(s)
}

/// ASCII whitespace: space, tab, line feed, form feed, carriage return.
pub open spec fn is_blank(c: u8) -> bool {
    c == 0x20 || c == 0x09 || c == 0x0a || c == 0x0c || c == 0x0d
}

/// `|`, `;` or `&`.
pub open spec fn is_operator(c: u8) -> bool {
    c == 0x7c || c == 0x3b || c == 0x26
}

/// The double quote.
pub open spec fn is_quote(c: u8) -> bool {
    c == 0x22
}

/// A byte that ends an unquoted word.
pub open spec fn ends_word(c: u8) -> bool {
    is_blank(c) || is_operator(c) || is_quote(c)
}

/// First position at or after `i` that does not hold a blank.
pub open spec fn skip_blanks(b: Seq<u8>, i: int) -> int
    decreases b.len() - i,
{
    if 0 <= i < b.len() && is_blank(b[i]) {
        skip_blanks(b, i + 1)
    } else {
        i
    }
}

/// First position at or after `i` that holds a double quote, or the end.
pub open spec fn quote_end(b: Seq<u8>, i: int) -> int
    decreases b.len() - i,
{
    if 0 <= i < b.len() && !is_quote(b[i]) {
        quote_end(b, i + 1)
    } else {
        i
    }
}

/// First position at or after `i` that ends an unquoted word, or the end.
pub open spec fn word_end(b: Seq<u8>, i: int) -> int
    decreases b.len() - i,
{
    if 0 <= i < b.len() && !ends_word(b[i]) {
        word_end(b, i + 1)
    } else {
        i
    }
}

/// The span from `start` to `end`, offsets truncated to bytes.
pub open spec fn span_between(start: int, end: int) -> Span {
    Span { start: start as u8, len: (end - start) as u8 }
}

/// One step of the lexer from position `pos` of `b`: the token (or error)
/// and the position after it.
pub open spec fn lex_step(b: Seq<u8>, pos: int) -> (Result<Option<Token>, LexError>, int) {
    let p = skip_blanks(b, pos);
    if p < 0 || p >= b.len() {
        (Ok(None), p)
    } else if b[p] == 0x7c {
        (Ok(Some(Token::Pipe)), p + 1)
    } else if b[p] == 0x3b {
        (Ok(Some(Token::Semicolon)), p + 1)
    } else if b[p] == 0x26 {
        (Ok(Some(Token::Background)), p + 1)
    } else if is_quote(b[p]) {
        let e = quote_end(b, p + 1);
        if e >= b.len() {
            (Err(LexError::UnterminatedString), e)
        } else {
            (Ok(Some(Token::Word(span_between(p + 1, e)))), e + 1)
        }
    } else {
        let e = word_end(b, p);
        (Ok(Some(Token::Word(span_between(p, e)))), e)
    }
}

pub proof fn lemma_skip_blanks(b: Seq<u8>, i: int)
    requires
        0 <= i,
    ensures
        i <= skip_blanks(b, i),
        i <= b.len() ==> skip_blanks(b, i) <= b.len(),
        0 <= skip_blanks(b, i) < b.len() ==> !is_blank(b[skip_blanks(b, i)]),
        forall|k: int| i <= k < skip_blanks(b, i) ==> is_blank(#[trigger] b[k]),
    decreases b.len() - i,
{
    if 0 <= i < b.len() && is_blank(b[i]) {
        lemma_skip_blanks(b, i + 1);
    }
}

pub proof fn lemma_quote_end(b: Seq<u8>, i: int)
    requires
        0 <= i <= b.len(),
    ensures
        i <= quote_end(b, i) <= b.len(),
        quote_end(b, i) < b.len() ==> is_quote(b[quote_end(b, i)]),
        forall|k: int| i <= k < quote_end(b, i) ==> !is_quote(#[trigger] b[k]),
    decreases b.len() - i,
{
    if 0 <= i < b.len() && !is_quote(b[i]) {
        lemma_quote_end(b, i + 1);
    }
}

pub proof fn lemma_word_end(b: Seq<u8>, i: int)
    requires
        0 <= i <= b.len(),
    ensures
        i <= word_end(b, i) <= b.len(),
        word_end(b, i) < b.len() ==> ends_word(b[word_end(b, i)]),
        forall|k: int| i <= k < word_end(b, i) ==> !ends_word(#[trigger] b[k]),
    decreases b.len() - i,
{
    if 0 <= i < b.len() && !ends_word(b[i]) {
        lemma_word_end(b, i + 1);
    }
}

/// A lexer step that yields a token moves forward and stays within the line.
pub proof fn lemma_lex_step_advances(b: Seq<u8>, pos: int)
    requires
        0 <= pos,
    ensures
        lex_step(b, pos).1 >= pos,
        pos <= b.len() ==> lex_step(b, pos).1 <= b.len(),
        lex_step(b, pos).0 matches Ok(Some(_)) ==> pos < lex_step(b, pos).1 <= b.len(),
{
    lemma_skip_blanks(b, pos);
    let p = skip_blanks(b, pos);
    if 0 <= p < b.len() {
        if is_quote(b[p]) {
            lemma_quote_end(b, p + 1);
        } else if !is_operator(b[p]) {
            lemma_word_end(b, p);
        }
    }
}

/// From a position followed only by blanks the lexer yields the end of the
/// line and moves to the end; from the end it yields the end again and
/// stays put.
pub proof fn lemma_lex_step_at_end(b: Seq<u8>, pos: int)
    requires
        0 <= pos <= b.len(),
        forall|k: int| pos <= k < b.len() ==> is_blank(#[trigger] b[k]),
    ensures
        lex_step(b, pos) == (Ok::<Option<Token>, LexError>(None), b.len() as int),
        lex_step(b, b.len() as int) == (Ok::<Option<Token>, LexError>(None), b.len() as int),
{
    lemma_skip_blanks(b, pos);
    lemma_skip_blanks(b, b.len() as int);
}

/// Whether `c` is one of the bytes that separate unquoted words: space,
/// tab, line feed, form feed, carriage return, `|`, `;`, `&` or `"`.
pub open spec fn separates_words(c: u8) -> bool {
    c == 0x20 || c == 0x09 || c == 0x0a || c == 0x0c || c == 0x0d || c == 0x7c || c == 0x3b
        || c == 0x26 || c == 0x22
}

/// A word the lexer yields is either unquoted: one or more bytes of which
/// none separates words (no ASCII whitespace, operator or quote), ending at
/// a separator or the end of the line; or quoted: the bytes between two
/// double quotes, holding no double quote.
pub proof fn lemma_word_bytes(b: Seq<u8>, pos: int)
    requires
        0 <= pos <= b.len(),
        b.len() <= 255,
    ensures
        lex_step(b, pos).0 matches Ok(Some(Token::Word(span))) ==> {
            let (start, end) = (span.start as int, span.start + span.len);
            &&& end <= b.len()
            &&& forall|k: int| start <= k < end ==> #[trigger] b[k] != 0x22
            &&& {
                ||| (start < end && (forall|k: int| start <= k < end ==> !separates_words(
                    #[trigger] b[k])) && (end == b.len() || separates_words(b[end]))
                    && lex_step(b, pos).1 == end)
                ||| (start > 0 && b[start - 1] == 0x22 && end < b.len() && b[end] == 0x22
                    && lex_step(b, pos).1 == end + 1)
            }
        },
{
    lemma_skip_blanks(b, pos);
    let p = skip_blanks(b, pos);
    if 0 <= p < b.len() {
        if is_quote(b[p]) {
            lemma_quote_end(b, p + 1);
        } else if !is_operator(b[p]) {
            lemma_word_end(b, p);
        }
    }
}

/// Whether `c` is ASCII whitespace.
fn is_blank_byte(c: u8) -> (r: bool)
    ensures
        r == is_blank(c),
{
    c == 0x20 || c == 0x09 || c == 0x0a || c == 0x0c || c == 0x0d
}

/// Whether `c` ends an unquoted word.
fn ends_word_byte(c: u8) -> (r: bool)
    ensures
        r == ends_word(c),
{
    c == 0x7c || c == 0x22 || c == 0x3b || c == 0x26 || is_blank_byte(c)
}

/// Splits a command line into tokens, one at a time.
#[derive(Clone, Copy)]
pub struct Lexer<'a> {
    input: &'a str,
    pos: usize,
}

impl<'a> Lexer<'a> {
    #[verifier::type_invariant]
    closed spec fn inv(&self) -> bool {
        &&& self.pos <= text_bytes(self.input).len()
        &&& vstd::utf8::is_char_boundary(text_bytes(self.input), self.pos as int)
    }

    /// The line being split.
    pub closed spec fn text(&self) -> &'a str {
        self.input
    }

    /// Byte offset of the next unread byte.
    pub closed spec fn position(&self) -> int {
        self.pos as int
    }

    pub fn new(input: &'a str) -> (lexer: Self)
        ensures
            lexer.text() == input,
            lexer.position() == 0,
            0 <= lexer.position() <= text_bytes(lexer.text()).len(),
            vstd::utf8::is_char_boundary(text_bytes(lexer.text()), lexer.position()),
    {
        proof {
            vstd::utf8::encode_utf8_valid_utf8(input@);
        }
        Self { input, pos: 0 }
    }

    /// The next token of the line: `Ok(None)` at the end of the line, and an
    /// error for a double quote that is never closed.
    pub fn next_token(&mut self) -> (token: Result<Option<Token>, LexError>)
        ensures
            final(self).text() == old(self).text(),
            token == lex_step(text_bytes(old(self).text()), old(self).position()).0,
            final(self).position() == lex_step(text_bytes(old(self).text()), old(self).position()).1,
            0 <= old(self).position() <= final(self).position() <= text_bytes(final(self).text()).len(),
            vstd::utf8::is_char_boundary(text_bytes(final(self).text()), final(self).position()),
            text_bytes(old(self).text()).len() <= 255 ==> (token matches Ok(Some(Token::Word(span)))
                ==> span_in(text_bytes(old(self).text()), span)),
    {
        let bytes = self.input.as_bytes();
        let ghost b = text_bytes(self.input);
        let ghost pos0 = self.pos as int;
        proof {
            use_type_invariant(&*self);
            vstd::utf8::encode_utf8_valid_utf8(self.input@);
            lemma_lex_step_advances(b, pos0);
            lemma_lex_step_in_line(b, pos0);
        }
        let mut p: usize = self.pos;
        while p < bytes.len() && is_blank_byte(bytes[p])
            invariant
                bytes@ == b,
                pos0 <= p,
                skip_blanks(b, p as int) == skip_blanks(b, pos0),
            decreases bytes.len() - p,
        {
            p += 1;
        }
        assert(skip_blanks(b, pos0) == p);
        if p >= bytes.len() {
            self.pos = p;
            return Ok(None);
        }
        let c = bytes[p];
        if c == 0x7c {
            self.pos = p + 1;
            Ok(Some(Token::Pipe))
        } else if c == 0x3b {
            self.pos = p + 1;
            Ok(Some(Token::Semicolon))
        } else if c == 0x26 {
            self.pos = p + 1;
            Ok(Some(Token::Background))
        } else if c == 0x22 {
            let start = p + 1;
            p = start;
            while p < bytes.len() && bytes[p] != 0x22
                invariant
                    bytes@ == b,
                    start <= p <= bytes.len(),
                    quote_end(b, p as int) == quote_end(b, start as int),
                decreases bytes.len() - p,
            {
                p += 1;
            }
            if p == bytes.len() {
                self.pos = p;
                return Err(LexError::UnterminatedString);
            }
            let span = Span {
                start: #[verifier::truncate] (start as u8),
                len: #[verifier::truncate] ((p - start) as u8),
            };
            self.pos = p + 1;
            Ok(Some(Token::Word(span)))
        } else {
            let start = p;
            while p < bytes.len() && !ends_word_byte(bytes[p])
                invariant
                    bytes@ == b,
                    start <= p <= bytes.len(),
                    word_end(b, p as int) == word_end(b, start as int),
                decreases bytes.len() - p,
            {
                p += 1;
            }
            let span = Span {
                start: #[verifier::truncate] (start as u8),
                len: #[verifier::truncate] ((p - start) as u8),
            };
            self.pos = p;
            Ok(Some(Token::Word(span)))
        }
    }
}

/// Why a command line is rejected.
#[derive(Clone, Copy, PartialEq, Eq, Structural, Debug)]
pub enum ParserError {
    Lex(LexError),
    /// An operator with no command before it (`| a`, `a | ;`, `a |`).
    EmptyCommand,
    /// A command with more than `MAX_ARGS` words.
    TooManyArguments,
    /// A pipeline with more than `MAX_COMMANDS` commands.
    TooManyCommands,
}

/// A pipeline as the parser sees it: each command as the spans of its words.
pub type PipelineView = Seq<Seq<Span>>;

/// The parser's state between tokens: the command being read, the pipeline
/// being built, and the runs decided so far (each a pipeline and whether it
/// runs in the background).
pub type ParseState = (Seq<Span>, PipelineView, Seq<(PipelineView, bool)>);

/// Closes the command being read at a `;`, an `&` or the end of the line:
/// the pipeline to run (empty when there is nothing to run), or the error.
pub open spec fn close_pipeline(current: Seq<Span>, pipeline: PipelineView) -> Result<PipelineView, ParserError> {
    if current.len() == 0 {
        if pipeline.len() > 0 {
            Err(ParserError::EmptyCommand)
        } else {
            Ok(pipeline)
        }
    } else if pipeline.len() >= MAX_COMMANDS {
        Err(ParserError::TooManyCommands)
    } else {
        Ok(pipeline.push(current))
    }
}

/// `runs` with `pipeline` appended when it holds a command.
pub open spec fn schedule(runs: Seq<(PipelineView, bool)>, pipeline: PipelineView, background: bool) -> Seq<(PipelineView, bool)> {
    if pipeline.len() > 0 {
        runs.push((pipeline, background))
    } else {
        runs
    }
}

/// The parser's state after one token, or the error the token causes.
pub open spec fn parse_token(st: ParseState, token: Token) -> Result<ParseState, ParserError> {
    let (current, pipeline, runs) = st;
    match token {
        Token::Word(span) => if current.len() >= MAX_ARGS {
            Err(ParserError::TooManyArguments)
        } else {
            Ok((current.push(span), pipeline, runs))
        },
        Token::Pipe => if current.len() == 0 {
            Err(ParserError::EmptyCommand)
        } else if pipeline.len() >= MAX_COMMANDS {
            Err(ParserError::TooManyCommands)
        } else {
            Ok((Seq::empty(), pipeline.push(current), runs))
        },
        Token::Semicolon | Token::Background => match close_pipeline(current, pipeline) {
            Err(e) => Err(e),
            Ok(p) => Ok((Seq::empty(), Seq::empty(), schedule(runs, p, token is Background))),
        },
    }
}

/// The parse of `b` from position `pos` in state `st`: every run decided,
/// in order, up to the end of the line or the first error; the outcome; and
/// the position where the lexer stopped.
pub open spec fn parse_from(b: Seq<u8>, pos: int, st: ParseState) -> (Seq<(PipelineView, bool)>, Result<(), ParserError>, int)
    decreases b.len() - pos,
{
    let (token, next) = lex_step(b, pos);
    match token {
        Err(e) => (st.2, Err(ParserError::Lex(e)), next),
        Ok(None) => match close_pipeline(st.0, st.1) {
            Err(e) => (st.2, Err(e), next),
            Ok(p) => (schedule(st.2, p, false), Ok(()), next),
        },
        Ok(Some(t)) => match parse_token(st, t) {
            Err(e) => (st.2, Err(e), next),
            Ok(st2) => if pos >= 0 {
                proof {
                    lemma_lex_step_advances(b, pos);
                }
                parse_from(b, next, st2)
            } else {
                (st.2, Ok(()), pos)
            },
        },
    }
}

/// The parse of a whole line.
pub open spec fn parse_line(b: Seq<u8>) -> (Seq<(PipelineView, bool)>, Result<(), ParserError>, int) {
    parse_from(b, 0, (Seq::empty(), Seq::empty(), Seq::empty()))
}

/// One command: the spans of its words, program name first.
pub struct Command {
    argv: Vec<Span>,
}

impl View for Command {
    type V = Seq<Span>;

    closed spec fn view(&self) -> Seq<Span> {
        self.argv@
    }
}

impl Command {
    pub fn new() -> (command: Self)
        ensures
            command@ == Seq::<Span>::empty(),
    {
        Self { argv: Vec::new() }
    }

    /// Number of words.
    pub fn argc(&self) -> (n: usize)
        ensures
            n == self@.len(),
    {
        self.argv.len()
    }

    /// The words of the command as text of `input`, program name first, or
    /// `None` when a word does not mark bytes of `input` on character
    /// boundaries.
    pub fn words<'a>(&self, input: &'a str) -> (words: Option<Vec<&'a str>>)
        ensures
            words is Some <==> forall|k: int| 0 <= k < self@.len() ==> span_in(text_bytes(input), #[trigger] self@[k]),
            words matches Some(ws) ==> ws@.len() == self@.len() && forall|k: int| 0 <= k < ws@.len() ==> text_bytes(#[trigger] ws@[k]) == text_bytes(input).subrange(self@[k].start as int, self@[k].start + self@[k].len),
    {
        let mut words: Vec<&'a str> = Vec::new();
        let mut i: usize = 0;
        while i < self.argv.len()
            invariant
                i <= self.argv.len(),
                words@.len() == i,
                forall|k: int| 0 <= k < i ==> span_in(text_bytes(input), #[trigger] self@[k]),
                forall|k: int| 0 <= k < i ==> text_bytes(#[trigger] words@[k]) == text_bytes(input).subrange(self@[k].start as int, self@[k].start + self@[k].len),
            decreases self.argv.len() - i,
        {
            let span = self.argv[i];
            let start = span.start as usize;
            let end = start + span.len as usize;
            if end > input.as_bytes().len() || !input.is_char_boundary(start) || !input.is_char_boundary(end) {
                assert(!span_in(text_bytes(input), self@[i as int]));
                return None;
            }
            words.push(span.as_str(input));
            i = i + 1;
        }
        Some(words)
    }

    /// Word `i`.
    pub fn arg(&self, i: usize) -> (span: Span)
        requires
            i < self@.len(),
        ensures
            span == self@[i as int],
    {
        self.argv[i]
    }
}

/// Commands joined by `|`.
pub struct ExecutionPipeline {
    commands: Vec<Command>,
}

impl View for ExecutionPipeline {
    type V = PipelineView;

    closed spec fn view(&self) -> PipelineView {
        self.commands@.map_values(|c: Command| c@)
    }
}

impl ExecutionPipeline {
    pub fn new() -> (pipeline: Self)
        ensures
            pipeline@ == Seq::<Seq<Span>>::empty(),
    {
        let pipeline = Self { commands: Vec::new() };
        assert(pipeline@ =~= Seq::<Seq<Span>>::empty());
        pipeline
    }

    /// Number of commands.
    pub fn count(&self) -> (n: usize)
        ensures
            n == self@.len(),
    {
        self.commands.len()
    }

    /// Command `i`.
    pub fn command(&self, i: usize) -> (command: &Command)
        requires
            i < self@.len(),
        ensures
            command@ == self@[i as int],
    {
        &self.commands[i]
    }

    fn push(&mut self, command: Command)
        ensures
            final(self)@ == old(self)@.push(command@),
    {
        self.commands.push(command);
        assert(self@ =~= old(self)@.push(command@));
    }
}

/// A pipeline the shell runs, in the background or not.
pub struct PipelineRun {
    pub pipeline: ExecutionPipeline,
    pub background: bool,
}

impl View for PipelineRun {
    type V = (PipelineView, bool);

    open spec fn view(&self) -> (PipelineView, bool) {
        (self.pipeline@, self.background)
    }
}

/// The runs of a line, in order, and how the line ended.
pub struct ParseOutcome {
    pub runs: Vec<PipelineRun>,
    pub result: Result<(), ParserError>,
}

/// The views of `runs`.
pub open spec fn runs_view(runs: Seq<PipelineRun>) -> Seq<(PipelineView, bool)> {
    runs.map_values(|r: PipelineRun| r@)
}

fn push_run(runs: &mut Vec<PipelineRun>, pipeline: ExecutionPipeline, background: bool)
    ensures
        runs_view(final(runs)@) == runs_view(old(runs)@).push((pipeline@, background)),
{
    runs.push(PipelineRun { pipeline, background });
    assert(runs_view(runs@) =~= runs_view(old(runs)@).push((pipeline@, background)));
}

/// Parses a command line.
pub struct Parser<'a> {
    input: &'a str,
    lexer: Lexer<'a>,
}

impl<'a> Parser<'a> {
    /// The line being parsed.
    pub closed spec fn text(&self) -> &'a str {
        self.input
    }

    /// Byte offset where parsing resumes.
    pub closed spec fn position(&self) -> int {
        self.lexer.position()
    }

    /// The lexer reads the parser's own line.
    #[verifier::type_invariant]
    closed spec fn inv(&self) -> bool {
        self.lexer.text() == self.input
    }

    pub fn new(input: &'a str) -> (parser: Self)
        ensures
            parser.text() == input,
            parser.position() == 0,
    {
        Self { input, lexer: Lexer::new(input) }
    }

    /// Parses the rest of the line into the runs the shell performs, in
    /// order: each pipeline ended by `;` or `&` or the end of the line, with
    /// `&` asking for the background.  Parsing stops at the first error;
    /// the runs decided before it are kept, as the shell has run them.
    pub fn parse_and_run(&mut self) -> (outcome: ParseOutcome)
        ensures
            final(self).text() == old(self).text(),
            runs_view(outcome.runs@) == parse_from(text_bytes(old(self).text()), old(self).position(), (Seq::empty(), Seq::empty(), Seq::empty())).0,
            outcome.result == parse_from(text_bytes(old(self).text()), old(self).position(), (Seq::empty(), Seq::empty(), Seq::empty())).1,
            final(self).position() == parse_from(text_bytes(old(self).text()), old(self).position(), (Seq::empty(), Seq::empty(), Seq::empty())).2,
    {
        proof {
            use_type_invariant(&*self);
        }
        let mut lexer = self.lexer;
        let outcome = parse_rest(&mut lexer);
        self.lexer = lexer;
        outcome
    }
}

/// Parses the rest of `lexer`'s line; see `Parser::parse_and_run`.
fn parse_rest<'a>(lexer: &mut Lexer<'a>) -> (outcome: ParseOutcome)
    ensures
        final(lexer).text() == old(lexer).text(),
        runs_view(outcome.runs@) == parse_from(text_bytes(old(lexer).text()), old(lexer).position(), (Seq::empty(), Seq::empty(), Seq::empty())).0,
        outcome.result == parse_from(text_bytes(old(lexer).text()), old(lexer).position(), (Seq::empty(), Seq::empty(), Seq::empty())).1,
        final(lexer).position() == parse_from(text_bytes(old(lexer).text()), old(lexer).position(), (Seq::empty(), Seq::empty(), Seq::empty())).2,
{
    let ghost b = text_bytes(lexer.input);
    let ghost goal = parse_from(b, lexer.position(), (Seq::empty(), Seq::empty(), Seq::empty()));
    let mut runs: Vec<PipelineRun> = Vec::new();
    let mut pipeline = ExecutionPipeline::new();
    let mut current = Command::new();
    proof {
        assert(runs_view(runs@) =~= Seq::<(PipelineView, bool)>::empty());
    }
    loop
        invariant
            lexer.input == old(lexer).input,
            b == text_bytes(lexer.input),
            lexer.position() >= 0,
            parse_from(b, lexer.position(), (current@, pipeline@, runs_view(runs@))) == goal,
            goal == parse_from(text_bytes(old(lexer).text()), old(lexer).position(), (Seq::empty(), Seq::empty(), Seq::empty())),
        decreases b.len() - lexer.position(),
    {
        let ghost pos = lexer.position();
        let ghost st = (current@, pipeline@, runs_view(runs@));
        proof {
            lemma_lex_step_advances(b, pos);
        }
        let next = lexer.next_token();
        let token = match next {
            Ok(token) => token,
            Err(e) => {
                return ParseOutcome { runs, result: Err(ParserError::Lex(e)) };
            },
        };
        match token {
            Some(Token::Word(span)) => {
                if current.argv.len() >= MAX_ARGS {
                    return ParseOutcome { runs, result: Err(ParserError::TooManyArguments) };
                }
                current.argv.push(span);
                assert(parse_token(st, Token::Word(span)) == Ok::<ParseState, ParserError>((current@, pipeline@, runs_view(runs@))));
            },
            Some(Token::Pipe) => {
                if current.argv.len() == 0 {
                    return ParseOutcome { runs, result: Err(ParserError::EmptyCommand) };
                }
                if pipeline.commands.len() >= MAX_COMMANDS {
                    return ParseOutcome { runs, result: Err(ParserError::TooManyCommands) };
                }
                pipeline.push(current);
                current = Command::new();
                assert(parse_token(st, Token::Pipe) == Ok::<ParseState, ParserError>((current@, pipeline@, runs_view(runs@))));
            },
            Some(Token::Semicolon) | Some(Token::Background) => {
                let background = matches!(token, Some(Token::Background));
                if current.argv.len() == 0 {
                    if pipeline.commands.len() > 0 {
                        return ParseOutcome { runs, result: Err(ParserError::EmptyCommand) };
                    }
                } else {
                    if pipeline.commands.len() >= MAX_COMMANDS {
                        return ParseOutcome { runs, result: Err(ParserError::TooManyCommands) };
                    }
                    pipeline.push(current);
                    current = Command::new();
                }
                if pipeline.commands.len() > 0 {
                    push_run(&mut runs, pipeline, background);
                    pipeline = ExecutionPipeline::new();
                }
                assert(current@ =~= Seq::<Span>::empty());
                assert(pipeline@ =~= Seq::<Seq<Span>>::empty());
                assert(parse_token(st, token.unwrap()) == Ok::<ParseState, ParserError>((current@, pipeline@, runs_view(runs@))));
            },
            None => {
                if current.argv.len() == 0 {
                    if pipeline.commands.len() > 0 {
                        return ParseOutcome { runs, result: Err(ParserError::EmptyCommand) };
                    }
                } else {
                    if pipeline.commands.len() >= MAX_COMMANDS {
                        return ParseOutcome { runs, result: Err(ParserError::TooManyCommands) };
                    }
                    pipeline.push(current);
                }
                if pipeline.commands.len() > 0 {
                    push_run(&mut runs, pipeline, false);
                }
                return ParseOutcome { runs, result: Ok(()) };
            },
        }
    }
}


/// `span` marks bytes of `b` that start and end on character boundaries.
pub open spec fn span_in(b: Seq<u8>, span: Span) -> bool {
    &&& span.start + span.len <= b.len()
    &&& vstd::utf8::is_char_boundary(b, span.start as int)
    &&& vstd::utf8::is_char_boundary(b, span.start + span.len)
}

/// A command of `b` as the parser builds it: one to `MAX_ARGS` words, each
/// marking bytes of `b`.
pub open spec fn command_ok(b: Seq<u8>, command: Seq<Span>) -> bool {
    &&& 1 <= command.len() <= MAX_ARGS
    &&& forall|k: int| 0 <= k < command.len() ==> span_in(b, #[trigger] command[k])
}

/// A pipeline of `b` as the parser builds it: at most `MAX_COMMANDS`
/// well-formed commands.
pub open spec fn pipeline_ok(b: Seq<u8>, pipeline: PipelineView) -> bool {
    &&& pipeline.len() <= MAX_COMMANDS
    &&& forall|k: int| 0 <= k < pipeline.len() ==> command_ok(b, #[trigger] pipeline[k])
}

/// Every run is a non-empty well-formed pipeline.
pub open spec fn runs_ok(b: Seq<u8>, runs: Seq<(PipelineView, bool)>) -> bool {
    forall|k: int| 0 <= k < runs.len() ==> (#[trigger] runs[k]).0.len() >= 1 && pipeline_ok(b, runs[k].0)
}

spec fn state_ok(b: Seq<u8>, st: ParseState) -> bool {
    &&& st.0.len() <= MAX_ARGS
    &&& forall|k: int| 0 <= k < st.0.len() ==> span_in(b, #[trigger] st.0[k])
    &&& pipeline_ok(b, st.1)
    &&& runs_ok(b, st.2)
}

/// An ASCII byte of valid UTF-8 starts a character, and so does the byte after it.
proof fn lemma_ascii_boundaries(b: Seq<u8>, i: int)
    requires
        vstd::utf8::valid_utf8(b),
        0 <= i < b.len(),
        b[i] <= 0x7f,
    ensures
        vstd::utf8::is_char_boundary(b, i),
        vstd::utf8::is_char_boundary(b, i + 1),
{
    vstd::utf8::is_char_boundary_iff_not_is_continuation_byte(b, i);
    vstd::utf8::valid_utf8_split(b, i);
    let rest = b.subrange(i, b.len() as int);
    assert(rest[0] == b[i]);
    let tail = vstd::utf8::pop_first_scalar(rest);
    assert(vstd::utf8::length_of_first_scalar(rest) == 1);
    assert(tail =~= b.subrange(i + 1, b.len() as int));
    assert(vstd::utf8::valid_utf8(tail));
    if i + 1 < b.len() {
        assert(tail[0] == b[i + 1]);
        assert(vstd::utf8::valid_first_scalar(tail));
        assert(vstd::utf8::valid_leading_and_continuation_bytes_first_codepoint(tail));
        assert(!vstd::utf8::is_continuation_byte(b[i + 1]));
        vstd::utf8::is_char_boundary_iff_not_is_continuation_byte(b, i + 1);
    } else {
        vstd::utf8::is_char_boundary_start_end_of_seq(b);
    }
}

/// Lexing valid UTF-8 from a character boundary stops on a character
/// boundary, and on a line of at most 255 bytes the word it yields marks
/// bytes of the line.
pub proof fn lemma_lex_step_in_line(b: Seq<u8>, pos: int)
    requires
        vstd::utf8::valid_utf8(b),
        0 <= pos <= b.len(),
        vstd::utf8::is_char_boundary(b, pos),
    ensures
        pos <= lex_step(b, pos).1 <= b.len(),
        vstd::utf8::is_char_boundary(b, lex_step(b, pos).1),
        b.len() <= 255 ==> (lex_step(b, pos).0 matches Ok(Some(Token::Word(span))) ==> span_in(b, span)),
{
    lemma_lex_step_advances(b, pos);
    lemma_skip_blanks(b, pos);
    vstd::utf8::is_char_boundary_start_end_of_seq(b);
    let p = skip_blanks(b, pos);
    if p > pos {
        lemma_ascii_boundaries(b, p - 1);
    }
    if p < b.len() {
        let c = b[p];
        if is_operator(c) {
            lemma_ascii_boundaries(b, p);
        } else if is_quote(c) {
            lemma_ascii_boundaries(b, p);
            lemma_quote_end(b, p + 1);
            let e = quote_end(b, p + 1);
            if e < b.len() {
                lemma_ascii_boundaries(b, e);
            }
        } else {
            lemma_word_end(b, p);
            let e = word_end(b, p);
            if e < b.len() {
                lemma_ascii_boundaries(b, e);
            }
        }
    }
}

proof fn lemma_parse_from_ok(b: Seq<u8>, pos: int, st: ParseState)
    requires
        vstd::utf8::valid_utf8(b),
        b.len() <= 255,
        0 <= pos <= b.len(),
        vstd::utf8::is_char_boundary(b, pos),
        state_ok(b, st),
    ensures
        runs_ok(b, parse_from(b, pos, st).0),
    decreases b.len() - pos,
{
    lemma_lex_step_in_line(b, pos);
    lemma_lex_step_advances(b, pos);
    let (token, next) = lex_step(b, pos);
    let (current, pipeline, runs) = st;
    match token {
        Err(_) => {},
        Ok(None) => {
            match close_pipeline(current, pipeline) {
                Err(_) => {},
                Ok(p) => {
                    if p.len() > 0 {
                        assert(pipeline_ok(b, p));
                        let r2 = schedule(runs, p, false);
                        assert(r2[r2.len() - 1] == (p, false));
                        assert(runs_ok(b, r2));
                    }
                },
            }
        },
        Ok(Some(t)) => {
            match parse_token(st, t) {
                Err(_) => {},
                Ok(st2) => {
                    match t {
                        Token::Word(span) => {
                            assert(state_ok(b, st2));
                        },
                        Token::Pipe => {
                            assert(st2.1.last() == current);
                            assert(state_ok(b, st2));
                        },
                        _ => {
                            if let Ok(p) = close_pipeline(current, pipeline) {
                                if p.len() > 0 {
                                    assert(pipeline_ok(b, p));
                                    assert(st2.2.last() == (p, t is Background));
                                }
                            }
                            assert(state_ok(b, st2));
                        },
                    }
                    lemma_parse_from_ok(b, next, st2);
                },
            }
        },
    }
}

/// Every run of a line is a pipeline of 1 to `MAX_COMMANDS` commands of 1 to
/// `MAX_ARGS` words each; on a line of at most 255 bytes, each word marks
/// bytes of the line that start and end on character boundaries.
pub proof fn lemma_parse_line_runs_in_line(line: &str)
    requires
        text_bytes(line).len() <= 255,
    ensures
        runs_ok(text_bytes(line), parse_line(text_bytes(line)).0),
{
    let b = text_bytes(line);
    vstd::utf8::encode_utf8_valid_utf8(line@);
    vstd::utf8::is_char_boundary_start_end_of_seq(b);
    lemma_parse_from_ok(b, 0, (Seq::empty(), Seq::empty(), Seq::empty()));
}

/// The tokens of `b` from position `pos`, up to the end of the line or the
/// first lexing error.
pub open spec fn lexed(b: Seq<u8>, pos: int) -> Seq<Token>
    decreases b.len() - pos,
{
    let (token, next) = lex_step(b, pos);
    match token {
        Ok(Some(t)) => if pos >= 0 {
            proof {
                lemma_lex_step_advances(b, pos);
            }
            seq![t] + lexed(b, next)
        } else {
            Seq::empty()
        },
        _ => Seq::empty(),
    }
}

/// `ts` holds a `|` with no word on one side: at the start of the line,
/// after or before an operator, or at the end.
pub open spec fn has_empty_pipe(ts: Seq<Token>) -> bool {
    exists|i: int|
        0 <= i < ts.len() && #[trigger] ts[i] == Token::Pipe && (i == 0 || !(ts[i - 1] is Word) || i
            + 1 == ts.len() || !(ts[i + 1] is Word))
}

spec fn is_word(prev: Option<Token>) -> bool {
    prev matches Some(Token::Word(_))
}

/// `has_empty_pipe` of the tokens that follow `prev` (the token before
/// them, if any).
spec fn empty_pipe_after(prev: Option<Token>, ts: Seq<Token>) -> bool {
    ||| prev == Some(Token::Pipe) && (ts.len() == 0 || !(ts[0] is Word))
    ||| exists|i: int|
        0 <= i < ts.len() && #[trigger] ts[i] == Token::Pipe && ((if i == 0 {
            !is_word(prev)
        } else {
            !(ts[i - 1] is Word)
        }) || i + 1 == ts.len() || !(ts[i + 1] is Word))
}

proof fn lemma_empty_pipe_after_cons(prev: Option<Token>, t: Token, rest: Seq<Token>)
    ensures
        empty_pipe_after(prev, seq![t] + rest) == (prev == Some(Token::Pipe) && !(t is Word) || t
            == Token::Pipe && !is_word(prev) || empty_pipe_after(Some(t), rest)),
{
    let ts = seq![t] + rest;
    assert(ts[0] == t);
    assert forall|i: int| 0 <= i < rest.len() implies ts[i + 1] == rest[i] by {}
    if empty_pipe_after(prev, ts) {
        if !(prev == Some(Token::Pipe) && !(t is Word)) {
            let i = choose|i: int|
                0 <= i < ts.len() && #[trigger] ts[i] == Token::Pipe && ((if i == 0 {
                    !is_word(prev)
                } else {
                    !(ts[i - 1] is Word)
                }) || i + 1 == ts.len() || !(ts[i + 1] is Word));
            if i == 0 {
                if !(t == Token::Pipe && !is_word(prev)) {
                    assert(empty_pipe_after(Some(t), rest));
                }
            } else {
                assert(rest[i - 1] == Token::Pipe);
                if i >= 2 {
                    assert(ts[i - 1] == rest[i - 2]);
                }
                if i + 1 < ts.len() {
                    assert(ts[i + 1] == rest[i]);
                }
            }
        }
    }
    if empty_pipe_after(Some(t), rest) {
        if !(t == Token::Pipe && (rest.len() == 0 || !(rest[0] is Word))) {
            let j = choose|j: int|
                0 <= j < rest.len() && #[trigger] rest[j] == Token::Pipe && ((if j == 0 {
                    !is_word(Some(t))
                } else {
                    !(rest[j - 1] is Word)
                }) || j + 1 == rest.len() || !(rest[j + 1] is Word));
            assert(ts[j + 1] == Token::Pipe);
            if j >= 1 {
                assert(ts[j] == rest[j - 1]);
            }
            if j + 2 < ts.len() {
                assert(ts[j + 2] == rest[j + 1]);
            }
        } else {
            assert(ts[0] == Token::Pipe);
            if ts.len() > 1 {
                assert(ts[1] == rest[0]);
            }
        }
    }
    if t == Token::Pipe && !is_word(prev) {
        assert(ts[0] == Token::Pipe);
    }
}

/// The parser state agrees with the token read last: the command is empty
/// unless that token is a word, and a pipeline waits for its next command
/// exactly after a `|`.
spec fn state_follows(st: ParseState, prev: Option<Token>) -> bool {
    &&& (st.0.len() == 0 <==> !is_word(prev))
    &&& (st.0.len() == 0 && st.1.len() > 0 <==> prev == Some(Token::Pipe))
}

proof fn lemma_empty_command_from(b: Seq<u8>, pos: int, st: ParseState, prev: Option<Token>)
    requires
        0 <= pos,
        state_follows(st, prev),
    ensures
        parse_from(b, pos, st).1 == Err::<(), ParserError>(ParserError::EmptyCommand) ==> empty_pipe_after(prev, lexed(b, pos)),
        empty_pipe_after(prev, lexed(b, pos)) ==> parse_from(b, pos, st).1 is Err,
    decreases b.len() - pos,
{
    lemma_lex_step_advances(b, pos);
    let (token, next) = lex_step(b, pos);
    match token {
        Ok(Some(t)) => {
            let rest = lexed(b, next);
            assert(lexed(b, pos) == seq![t] + rest);
            lemma_empty_pipe_after_cons(prev, t, rest);
            match parse_token(st, t) {
                Err(_) => {},
                Ok(st2) => {
                    assert(state_follows(st2, Some(t)));
                    lemma_empty_command_from(b, next, st2, Some(t));
                },
            }
        },
        _ => {
            assert(lexed(b, pos) =~= Seq::<Token>::empty());
        },
    }
}

/// A line fails with `EmptyCommand` only if its tokens hold a `|` with no
/// word on one side, and a line whose tokens hold such a `|` never parses
/// without an error.
pub proof fn lemma_empty_command(b: Seq<u8>)
    ensures
        parse_line(b).1 == Err::<(), ParserError>(ParserError::EmptyCommand) ==> has_empty_pipe(lexed(b, 0)),
        has_empty_pipe(lexed(b, 0)) ==> parse_line(b).1 is Err,
{
    let ts = lexed(b, 0);
    lemma_empty_command_from(b, 0, (Seq::empty(), Seq::empty(), Seq::empty()), None);
    if has_empty_pipe(ts) {
        let i = choose|i: int|
            0 <= i < ts.len() && #[trigger] ts[i] == Token::Pipe && (i == 0 || !(ts[i - 1] is Word) || i
                + 1 == ts.len() || !(ts[i + 1] is Word));
        assert(empty_pipe_after(None, ts));
    }
    if empty_pipe_after(None, ts) {
        let i = choose|i: int|
            0 <= i < ts.len() && #[trigger] ts[i] == Token::Pipe && ((if i == 0 {
                !is_word(None)
            } else {
                !(ts[i - 1] is Word)
            }) || i + 1 == ts.len() || !(ts[i + 1] is Word));
        assert(has_empty_pipe(ts));
    }
}

/// Runs are only ever added: whatever the rest of the line holds, an error
/// included, the runs already decided stay, in order, at the front.
pub proof fn lemma_runs_only_grow(b: Seq<u8>, pos: int, st: ParseState)
    requires
        0 <= pos,
    ensures
        st.2.is_prefix_of(parse_from(b, pos, st).0),
    decreases b.len() - pos,
{
    lemma_lex_step_advances(b, pos);
    let (token, next) = lex_step(b, pos);
    match token {
        Err(_) => {},
        Ok(None) => {
            if let Ok(p) = close_pipeline(st.0, st.1) {
                if p.len() > 0 {
                    assert(st.2.is_prefix_of(st.2.push((p, false))));
                }
            }
        },
        Ok(Some(t)) => {
            match parse_token(st, t) {
                Err(_) => {},
                Ok(st2) => {
                    lemma_runs_only_grow(b, next, st2);
                    if let Ok(p) = close_pipeline(st.0, st.1) {
                        if p.len() > 0 {
                            assert(st.2.is_prefix_of(st.2.push((p, t is Background))));
                        }
                    }
                    assert(st.2.is_prefix_of(st2.2));
                    let full = parse_from(b, next, st2).0;
                    assert(full.subrange(0, st.2.len() as int) =~= st2.2.subrange(0, st.2.len() as int));
                },
            }
        },
    }
}

/// Blanks are skipped alike in a line and in a prefix of it that ends in a
/// non-blank byte.
proof fn lemma_skip_blanks_prefix(b: Seq<u8>, k: int, i: int)
    requires
        0 <= i <= k < b.len(),
        !is_blank(b[k]),
    ensures
        skip_blanks(b, i) == skip_blanks(b.subrange(0, k + 1), i),
        skip_blanks(b, i) <= k,
    decreases k - i,
{
    if i < k && is_blank(b[i]) {
        lemma_skip_blanks_prefix(b, k, i + 1);
    }
}

/// An unquoted word ends alike in a line and in a prefix of it that ends in
/// a byte that ends words.
proof fn lemma_word_end_prefix(b: Seq<u8>, k: int, i: int)
    requires
        0 <= i <= k < b.len(),
        ends_word(b[k]),
    ensures
        word_end(b, i) == word_end(b.subrange(0, k + 1), i),
        word_end(b, i) <= k,
    decreases k - i,
{
    if i < k && !ends_word(b[i]) {
        lemma_word_end_prefix(b, k, i + 1);
    }
}

/// Before an unquoted `;` or `&` at `k`, the lexer reads a line and its
/// prefix up to that operator alike, and reaches `k + 1` only by reading it.
proof fn lemma_lex_step_prefix(b: Seq<u8>, k: int, pos: int)
    requires
        0 <= pos <= k < b.len(),
        b[k] == 0x3b || b[k] == 0x26,
        forall|i: int| 0 <= i < k ==> !is_quote(#[trigger] b[i]),
    ensures
        lex_step(b, pos) == lex_step(b.subrange(0, k + 1), pos),
        lex_step(b, pos).1 <= k + 1,
        lex_step(b, pos).1 == k + 1 ==> lex_step(b, pos).0 == Ok::<Option<Token>, LexError>(Some(
            if b[k] == 0x3b {
                Token::Semicolon
            } else {
                Token::Background
            },
        )),
{
    let b2 = b.subrange(0, k + 1);
    lemma_skip_blanks_prefix(b, k, pos);
    lemma_skip_blanks(b, pos);
    let p = skip_blanks(b, pos);
    assert(b2[p] == b[p]);
    if !is_operator(b[p]) && !is_quote(b[p]) {
        lemma_word_end_prefix(b, k, p);
        lemma_word_end(b, p);
        assert(p < k);
    }
}

proof fn lemma_prefix_runs_kept(b: Seq<u8>, k: int, pos: int, st: ParseState)
    requires
        0 <= pos <= k < b.len(),
        b[k] == 0x3b || b[k] == 0x26,
        forall|i: int| 0 <= i < k ==> !is_quote(#[trigger] b[i]),
        parse_from(b.subrange(0, k + 1), pos, st).1 is Ok,
    ensures
        parse_from(b.subrange(0, k + 1), pos, st).0.is_prefix_of(parse_from(b, pos, st).0),
    decreases k + 1 - pos,
{
    let b2 = b.subrange(0, k + 1);
    lemma_lex_step_prefix(b, k, pos);
    lemma_lex_step_advances(b, pos);
    let (token, next) = lex_step(b, pos);
    match token {
        Ok(Some(t)) => {
            match parse_token(st, t) {
                Err(_) => {},
                Ok(st2) => {
                    if next == k + 1 {
                        lemma_skip_blanks(b2, k + 1);
                        assert(lex_step(b2, k + 1).0 == Ok::<Option<Token>, LexError>(None));
                        assert(st2.0.len() == 0 && st2.1.len() == 0);
                        assert(parse_from(b2, next, st2).0 == st2.2);
                        lemma_runs_only_grow(b, next, st2);
                    } else {
                        lemma_prefix_runs_kept(b, k, next, st2);
                    }
                },
            }
        },
        _ => {},
    }
}

/// Runs decided before an error survive it: when a line cut right after an
/// unquoted `;` or `&` (no double quote before it) parses without error, the
/// runs of the whole line start with the runs of the cut line, whatever
/// error the rest of the line causes.
pub proof fn lemma_runs_before_error_kept(b: Seq<u8>, k: int)
    requires
        0 <= k < b.len(),
        b[k] == 0x3b || b[k] == 0x26,
        forall|i: int| 0 <= i < k ==> b[i] != 0x22,
        parse_line(b.subrange(0, k + 1)).1 is Ok,
    ensures
        parse_line(b.subrange(0, k + 1)).0.is_prefix_of(parse_line(b).0),
{
    lemma_prefix_runs_kept(b, k, 0, (Seq::empty(), Seq::empty(), Seq::empty()));
}

/// After any blanks, `|` is read as a pipe, `;` as a sequence break and
/// `&` as a background marker, each one byte long; a line of blanks only
/// has no further token.
pub proof fn lemma_operator_tokens(b: Seq<u8>, pos: int, p: int)
    requires
        0 <= pos <= p <= b.len(),
        forall|k: int| pos <= k < p ==> #[trigger] b[k] == 0x20 || b[k] == 0x09,
        p < b.len() ==> b[p] != 0x20 && b[p] != 0x09 && b[p] != 0x0a && b[p] != 0x0c && b[p]
            != 0x0d,
    ensures
        p < b.len() && b[p] == 0x7c ==> lex_step(b, pos) == (Ok::<Option<Token>, LexError>(Some(Token::Pipe)), p + 1),
        p < b.len() && b[p] == 0x3b ==> lex_step(b, pos) == (Ok::<Option<Token>, LexError>(Some(Token::Semicolon)), p + 1),
        p < b.len() && b[p] == 0x26 ==> lex_step(b, pos) == (Ok::<Option<Token>, LexError>(Some(Token::Background)), p + 1),
        p == b.len() ==> lex_step(b, pos) == (Ok::<Option<Token>, LexError>(None), p),
    decreases p - pos,
{
    if pos < p {
        lemma_operator_tokens(b, pos + 1, p);
    }
}

/// Closing a pipeline with `&` runs it in the background, with `;` or at the
/// end of the line in the foreground; the pipeline runs as built: the
/// commands read so far followed by the current one, if any.
pub proof fn lemma_closer_flags(current: Seq<Span>, pipeline: PipelineView, runs: Seq<(PipelineView, bool)>)
    requires
        1 <= current.len() <= MAX_ARGS,
        pipeline.len() < MAX_COMMANDS,
    ensures
        parse_token((current, pipeline, runs), Token::Background) == Ok::<ParseState, ParserError>((
            Seq::empty(),
            Seq::empty(),
            runs.push((pipeline.push(current), true)),
        )),
        parse_token((current, pipeline, runs), Token::Semicolon) == Ok::<ParseState, ParserError>((
            Seq::empty(),
            Seq::empty(),
            runs.push((pipeline.push(current), false)),
        )),
        close_pipeline(current, pipeline) == Ok::<PipelineView, ParserError>(pipeline.push(current)),
{
}

} // verus!
