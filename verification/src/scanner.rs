//! The scanner: from program text to tokens.
use crate::report::{Diagnostic, Place};
use crate::table::Table;
use crate::text::{chars_of, text_of};
use crate::token::{Literal, Token, TokenType};
use vstd::prelude::*;
use vstd::string::StringExecFns;

verus! {

/// Decimal digits.
pub open spec fn is_digit(c: char) -> bool {
    '0' <= c && c <= '9'
}

/// ASCII letters and the underscore.
pub open spec fn is_letter(c: char) -> bool {
    ('a' <= c && c <= 'z') || ('A' <= c && c <= 'Z') || c == '_'
}

/// The characters that blanks are made of.
pub open spec fn is_blank(c: char) -> bool {
    c == ' ' || c == '\r' || c == '\t' || c == '\n'
}

pub fn is_numeric(c: char) -> (r: bool)
    ensures
        r == is_digit(c),
{
    c >= '0' && c <= '9'
}

pub fn is_alpha(c: char) -> (r: bool)
    ensures
        r == is_letter(c),
{
    (c >= 'a' && c <= 'z') || (c >= 'A' && c <= 'Z') || c == '_'
}

pub fn is_alpha_numeric(c: char) -> (r: bool)
    ensures
        r == (is_letter(c) || is_digit(c)),
{
    is_alpha(c) || is_numeric(c)
}

/// The kinds of character runs that the scanner reads in one go.
pub enum Run {
    /// Digits.
    Digits,
    /// Letters, digits and underscores.
    Name,
    /// Anything up to the end of the line.
    Comment,
    /// Anything up to a double quote.
    Quoted,
}

/// Whether `c` continues a run of the given kind.
pub open spec fn continues(run: Run, c: char) -> bool {
    match run {
        Run::Digits => is_digit(c),
        Run::Name => is_letter(c) || is_digit(c),
        Run::Comment => c != '\n',
        Run::Quoted => c != '"',
    }
}

/// The first position at or after `from` that does not continue the run: a
/// character outside it, or the end of the text.
pub open spec fn run_end(src: Seq<char>, from: int, run: Run) -> int
    decreases src.len() - from,
{
    if 0 <= from < src.len() && continues(run, src[from]) {
        run_end(src, from + 1, run)
    } else {
        from
    }
}

pub proof fn lemma_run_end(src: Seq<char>, from: int, run: Run)
    requires
        0 <= from <= src.len(),
    ensures
        from <= run_end(src, from, run) <= src.len(),
        forall|i: int| from <= i < run_end(src, from, run) ==> continues(run, #[trigger] src[i]),
        run_end(src, from, run) < src.len() ==> !continues(run, src[run_end(src, from, run)]),
    decreases src.len() - from,
{
    if from < src.len() && continues(run, src[from]) {
        lemma_run_end(src, from + 1, run);
    }
}

/// How many line breaks `s` holds.
pub open spec fn newlines(s: Seq<char>) -> nat
    decreases s.len(),
{
    if s.len() == 0 {
        0
    } else {
        newlines(s.drop_last()) + if s.last() == '\n' {
            1nat
        } else {
            0nat
        }
    }
}

/// The number of the line that position `pos` of `src` lies on. Lines are
/// counted from 1; the count stops at the largest `usize`.
pub open spec fn line_number(src: Seq<char>, pos: int) -> usize {
    let n = 1 + newlines(src.subrange(0, pos));
    if n > usize::MAX {
        usize::MAX
    } else {
        n as usize
    }
}

/// What a stretch of program text is.
pub enum PieceKind {
    /// A token of the given class.
    Word(TokenType),
    /// Blanks or a comment.
    Blank,
    /// A character that starts no token.
    Stray,
    /// A string whose closing quote is missing.
    OpenString,
}

/// A stretch of program text: the characters from `start` up to `end`.
pub struct Piece {
    pub kind: PieceKind,
    pub start: int,
    pub end: int,
}

/// The class of a token that is a single punctuation character.
pub open spec fn punctuation(c: char) -> Option<TokenType> {
    if c == '(' {
        Some(TokenType::LeftParen)
    } else if c == ')' {
        Some(TokenType::RightParen)
    } else if c == '{' {
        Some(TokenType::LeftBrace)
    } else if c == '}' {
        Some(TokenType::RightBrace)
    } else if c == ',' {
        Some(TokenType::Comma)
    } else if c == '.' {
        Some(TokenType::Dot)
    } else if c == '-' {
        Some(TokenType::Minus)
    } else if c == '+' {
        Some(TokenType::Plus)
    } else if c == ';' {
        Some(TokenType::Semicolon)
    } else if c == '*' {
        Some(TokenType::Star)
    } else {
        None
    }
}

/// The classes of an operator character alone and followed by `=`.
pub open spec fn operator(c: char) -> Option<(TokenType, TokenType)> {
    if c == '!' {
        Some((TokenType::Bang, TokenType::BangEqual))
    } else if c == '=' {
        Some((TokenType::Equal, TokenType::EqualEqual))
    } else if c == '<' {
        Some((TokenType::Less, TokenType::LessEqual))
    } else if c == '>' {
        Some((TokenType::Greater, TokenType::GreaterEqual))
    } else {
        None
    }
}

/// The reserved words and their token classes.
pub open spec fn keywords() -> Map<Seq<char>, TokenType> {
    Map::<Seq<char>, TokenType>::empty().insert("and"@, TokenType::And).insert(
        "class"@,
        TokenType::Class,
    ).insert("else"@, TokenType::Else).insert("false"@, TokenType::False).insert(
        "for"@,
        TokenType::For,
    ).insert("fun"@, TokenType::Fun).insert("if"@, TokenType::If).insert(
        "nil"@,
        TokenType::NilTokenType,
    ).insert("or"@, TokenType::Or).insert("print"@, TokenType::Print).insert(
        "return"@,
        TokenType::Return,
    ).insert("super"@, TokenType::Super).insert("this"@, TokenType::This).insert(
        "true"@,
        TokenType::True,
    ).insert("var"@, TokenType::Var).insert("while"@, TokenType::While)
}

/// The class of a name: its keyword if it is reserved, an identifier if not.
pub open spec fn name_class(text: Seq<char>) -> TokenType {
    if keywords().contains_key(text) {
        keywords()[text]
    } else {
        TokenType::Identifier
    }
}

/// Where a number that starts at `pos` ends: after its digits, and after a
/// fraction if a dot and at least one digit follow.
pub open spec fn number_end(src: Seq<char>, pos: int) -> int {
    let whole = run_end(src, pos, Run::Digits);
    if whole + 1 < src.len() && src[whole] == '.' && is_digit(src[whole + 1]) {
        run_end(src, whole + 1, Run::Digits)
    } else {
        whole
    }
}

/// The piece of `src` that starts at `pos`.
pub open spec fn piece_at(src: Seq<char>, pos: int) -> Piece
    recommends
        0 <= pos < src.len(),
{
    let c = src[pos];
    if punctuation(c) is Some {
        Piece { kind: PieceKind::Word(punctuation(c).unwrap()), start: pos, end: pos + 1 }
    } else if operator(c) is Some {
        if pos + 1 < src.len() && src[pos + 1] == '=' {
            Piece { kind: PieceKind::Word(operator(c).unwrap().1), start: pos, end: pos + 2 }
        } else {
            Piece { kind: PieceKind::Word(operator(c).unwrap().0), start: pos, end: pos + 1 }
        }
    } else if c == '/' {
        if pos + 1 < src.len() && src[pos + 1] == '/' {
            Piece { kind: PieceKind::Blank, start: pos, end: run_end(src, pos + 2, Run::Comment) }
        } else {
            Piece { kind: PieceKind::Word(TokenType::Slash), start: pos, end: pos + 1 }
        }
    } else if is_blank(c) {
        Piece { kind: PieceKind::Blank, start: pos, end: pos + 1 }
    } else if c == '"' {
        let close = run_end(src, pos + 1, Run::Quoted);
        if close < src.len() {
            Piece { kind: PieceKind::Word(TokenType::StringToken), start: pos, end: close + 1 }
        } else {
            Piece { kind: PieceKind::OpenString, start: pos, end: close }
        }
    } else if is_digit(c) {
        Piece { kind: PieceKind::Word(TokenType::Number), start: pos, end: number_end(src, pos) }
    } else if is_letter(c) {
        let end = run_end(src, pos, Run::Name);
        Piece { kind: PieceKind::Word(name_class(src.subrange(pos, end))), start: pos, end }
    } else {
        Piece { kind: PieceKind::Stray, start: pos, end: pos + 1 }
    }
}

/// Every piece is at least one character long and ends within the text.
pub proof fn lemma_piece_bounds(src: Seq<char>, pos: int)
    requires
        0 <= pos < src.len(),
    ensures
        piece_at(src, pos).start == pos,
        pos < piece_at(src, pos).end <= src.len(),
{
    let c = src[pos];
    if pos + 1 < src.len() && src[pos + 1] == '/' {
        lemma_run_end(src, pos + 2, Run::Comment);
    }
    lemma_run_end(src, pos + 1, Run::Quoted);
    lemma_run_end(src, pos, Run::Digits);
    let whole = run_end(src, pos, Run::Digits);
    if whole + 1 < src.len() {
        lemma_run_end(src, whole + 1, Run::Digits);
    }
    lemma_run_end(src, pos, Run::Name);
}

/// The constant that a token of class `kind` read from `src[start..end]`
/// carries: a string without its quotes, a number as it was written.
pub open spec fn carries(literal: Literal, kind: TokenType, src: Seq<char>, start: int, end: int) -> bool {
    match kind {
        TokenType::StringToken => literal matches Literal::StringLiteral(s) && s@ == src.subrange(
            start + 1,
            end - 1,
        ),
        TokenType::Number => literal matches Literal::NumberLiteral(s) && s@ == src.subrange(
            start,
            end,
        ),
        _ => literal is NoneLiteral,
    }
}

/// `token` is the token that the piece `p` of `src` gives.
pub open spec fn produced(src: Seq<char>, p: Piece, token: Token) -> bool {
    &&& p.kind == PieceKind::Word(token.token_type)
    &&& token.lexeme@ == src.subrange(p.start, p.end)
    &&& token.offset == p.start
    &&& token.line == line_number(src, p.end)
    &&& carries(token.literal, token.token_type, src, p.start, p.end)
}

/// The complaint about a piece that gives no token and is no blank.
pub open spec fn fault(src: Seq<char>, p: Piece) -> Diagnostic {
    Diagnostic {
        line: line_number(src, p.end),
        place: Place::Nowhere,
        message: if p.kind is OpenString {
            "Unterminated string."
        } else {
            "Unexpected character."
        },
    }
}

/// All the pieces of `src` from `pos` on, in order.
pub open spec fn pieces_from(src: Seq<char>, pos: int) -> Seq<Piece>
    decreases src.len() - pos,
{
    if 0 <= pos < src.len() {
        let p = piece_at(src, pos);
        if pos < p.end <= src.len() {
            seq![p] + pieces_from(src, p.end)
        } else {
            seq![p]
        }
    } else {
        Seq::empty()
    }
}

/// The pieces of `src` from `pos` on that are tokens.
pub open spec fn words_from(src: Seq<char>, pos: int) -> Seq<Piece>
    decreases src.len() - pos,
{
    if 0 <= pos < src.len() {
        let p = piece_at(src, pos);
        let rest = if pos < p.end <= src.len() {
            words_from(src, p.end)
        } else {
            Seq::empty()
        };
        if p.kind is Word {
            seq![p] + rest
        } else {
            rest
        }
    } else {
        Seq::empty()
    }
}

/// The complaints about `src` from `pos` on.
pub open spec fn faults_from(src: Seq<char>, pos: int) -> Seq<Diagnostic>
    decreases src.len() - pos,
{
    if 0 <= pos < src.len() {
        let p = piece_at(src, pos);
        let rest = if pos < p.end <= src.len() {
            faults_from(src, p.end)
        } else {
            Seq::empty()
        };
        if p.kind is Stray || p.kind is OpenString {
            seq![fault(src, p)] + rest
        } else {
            rest
        }
    } else {
        Seq::empty()
    }
}

/// `token` is the end-of-input token of `src`.
pub open spec fn is_eof(src: Seq<char>, token: Token) -> bool {
    &&& token.token_type == TokenType::Eof
    &&& token.lexeme@ == Seq::<char>::empty()
    &&& token.literal is NoneLiteral
    &&& token.line == line_number(src, src.len() as int)
    &&& token.offset == src.len()
}

/// `tokens` and `errors` are what scanning `src` gives: one token for each
/// token piece, in order, then the end-of-input token; and one complaint for
/// each stray character and for a string left open.
pub open spec fn scanned(src: Seq<char>, tokens: Seq<Token>, errors: Seq<Diagnostic>) -> bool {
    let words = words_from(src, 0);
    &&& tokens.len() == words.len() + 1
    &&& forall|i: int| 0 <= i < words.len() ==> produced(src, words[i], #[trigger] tokens[i])
    &&& is_eof(src, tokens.last())
    &&& errors == faults_from(src, 0)
}

/// How one scanning step changes the tokens: a token piece adds its token,
/// any other piece adds nothing.
pub open spec fn emitted(src: Seq<char>, p: Piece, before: Seq<Token>, after: Seq<Token>) -> bool {
    if p.kind is Word {
        &&& after.len() == before.len() + 1
        &&& after.drop_last() == before
        &&& produced(src, p, after.last())
    } else {
        after == before
    }
}

/// How one scanning step changes the complaints.
pub open spec fn complained(
    src: Seq<char>,
    p: Piece,
    before: Seq<Diagnostic>,
    after: Seq<Diagnostic>,
) -> bool {
    if p.kind is Stray || p.kind is OpenString {
        after == before.push(fault(src, p))
    } else {
        after == before
    }
}

proof fn lemma_line_step(src: Seq<char>, pos: int)
    requires
        0 <= pos < src.len(),
    ensures
        newlines(src.subrange(0, pos + 1)) == newlines(src.subrange(0, pos)) + if src[pos] == '\n' {
            1nat
        } else {
            0nat
        },
{
    assert(src.subrange(0, pos + 1).drop_last() =~= src.subrange(0, pos));
}

proof fn lemma_line_run(src: Seq<char>, from: int, to: int)
    requires
        0 <= from <= to <= src.len(),
        forall|i: int| from <= i < to ==> #[trigger] src[i] != '\n',
    ensures
        line_number(src, to) == line_number(src, from),
    decreases to - from,
{
    if from < to {
        lemma_line_run(src, from, to - 1);
        lemma_line_step(src, to - 1);
    }
}

/// Reads program text and produces its tokens.
pub struct Scanner {
    pub tokens: Vec<Token>,
    pub errors: Vec<Diagnostic>,
    pub source_chars: Vec<char>,
    pub start: usize,
    pub current: usize,
    pub line: usize,
    pub keywords: Table<TokenType>,
}

impl Scanner {
    /// The scanner is between two pieces or inside one, and its line count
    /// agrees with the text it has read.
    pub open spec fn wf(&self) -> bool {
        &&& self.start <= self.current <= self.source_chars@.len() <= usize::MAX
        &&& self.line == line_number(self.source_chars@, self.current as int)
        &&& self.keywords@ == keywords()
    }

    /// The state that differs from `self` in how far it has read only.
    pub open spec fn moved_to(&self, current: int) -> Scanner {
        Scanner {
            current: current as usize,
            line: line_number(self.source_chars@, current),
            ..*self
        }
    }

    /// A scanner at the beginning of `source`.
    pub fn new(source: &str) -> (s: Self)
        ensures
            s.wf(),
            s.source_chars@ == source@,
            s.start == 0,
            s.current == 0,
            s.tokens@.len() == 0,
            s.errors@.len() == 0,
    {
        let source_chars = chars_of(source);
        let mut keywords: Table<TokenType> = Table::new();
        keywords.insert(String::from_str("and"), TokenType::And);
        keywords.insert(String::from_str("class"), TokenType::Class);
        keywords.insert(String::from_str("else"), TokenType::Else);
        keywords.insert(String::from_str("false"), TokenType::False);
        keywords.insert(String::from_str("for"), TokenType::For);
        keywords.insert(String::from_str("fun"), TokenType::Fun);
        keywords.insert(String::from_str("if"), TokenType::If);
        keywords.insert(String::from_str("nil"), TokenType::NilTokenType);
        keywords.insert(String::from_str("or"), TokenType::Or);
        keywords.insert(String::from_str("print"), TokenType::Print);
        keywords.insert(String::from_str("return"), TokenType::Return);
        keywords.insert(String::from_str("super"), TokenType::Super);
        keywords.insert(String::from_str("this"), TokenType::This);
        keywords.insert(String::from_str("true"), TokenType::True);
        keywords.insert(String::from_str("var"), TokenType::Var);
        keywords.insert(String::from_str("while"), TokenType::While);
        proof {
            assert(source_chars@.subrange(0, 0) =~= Seq::<char>::empty());
        }
        Scanner {
            tokens: Vec::new(),
            errors: Vec::new(),
            source_chars,
            start: 0,
            current: 0,
            line: 1,
            keywords,
        }
    }

    /// Scans the whole text: `tokens` and `errors` then hold what it gives.
    pub fn scan_tokens(&mut self)
        requires
            old(self).wf(),
            old(self).current == 0,
            old(self).tokens@.len() == 0,
            old(self).errors@.len() == 0,
        ensures
            final(self).source_chars == old(self).source_chars,
            scanned(final(self).source_chars@, final(self).tokens@, final(self).errors@),
    {
        let ghost src = self.source_chars@;
        let ghost chars = self.source_chars;
        let ghost mut done: Seq<Piece> = Seq::empty();
        assert(done + words_from(src, 0) =~= words_from(src, 0));
        assert(self.errors@ + faults_from(src, 0) =~= faults_from(src, 0));
        while !self.is_at_end()
            invariant
                self.wf(),
                self.source_chars == chars,
                chars@ == src,
                done + words_from(src, self.current as int) == words_from(src, 0),
                self.tokens@.len() == done.len(),
                forall|i: int| 0 <= i < done.len() ==> produced(src, done[i], #[trigger] self.tokens@[i]),
                self.errors@ + faults_from(src, self.current as int) == faults_from(src, 0),
            decreases src.len() - self.current,
        {
            // We are at the beginning of the next lexeme.
            self.start = self.current;
            let ghost before = *self;
            let ghost p = piece_at(src, self.current as int);
            proof {
                lemma_piece_bounds(src, self.current as int);
            }
            self.scan_token();
            proof {
                let rest = words_from(src, p.end);
                if p.kind is Word {
                    assert(done.push(p) + rest =~= done + (seq![p] + rest));
                    assert(self.tokens@.drop_last() == before.tokens@);
                    assert forall|i: int| 0 <= i < done.len() + 1 implies produced(
                        src,
                        done.push(p)[i],
                        #[trigger] self.tokens@[i],
                    ) by {
                        if i < done.len() {
                            assert(self.tokens@[i] == before.tokens@[i]);
                        }
                    }
                    done = done.push(p);
                }
                let more = faults_from(src, p.end);
                if p.kind is Stray || p.kind is OpenString {
                    assert(before.errors@.push(fault(src, p)) + more =~= before.errors@ + (seq![
                        fault(src, p),
                    ] + more));
                }
            }
        }
        let end = Token::from(
            TokenType::Eof,
            String::new(),
            Literal::NoneLiteral,
            self.line,
            self.current,
        );
        self.tokens.push(end);
        proof {
            assert(done + words_from(src, src.len() as int) =~= done);
            assert(self.errors@ + faults_from(src, src.len() as int) =~= self.errors@);
        }
    }

    fn is_at_end(&self) -> (r: bool)
        ensures
            r == (self.current >= self.source_chars@.len()),
    {
        self.current >= self.source_chars.len()
    }

    /// Reads the piece at the current position.
    fn scan_token(&mut self)
        requires
            old(self).wf(),
            old(self).start == old(self).current,
            old(self).current < old(self).source_chars@.len(),
        ensures
            final(self).wf(),
            final(self).source_chars == old(self).source_chars,
            final(self).current == piece_at(old(self).source_chars@, old(self).current as int).end,
            emitted(
                old(self).source_chars@,
                piece_at(old(self).source_chars@, old(self).current as int),
                old(self).tokens@,
                final(self).tokens@,
            ),
            complained(
                old(self).source_chars@,
                piece_at(old(self).source_chars@, old(self).current as int),
                old(self).errors@,
                final(self).errors@,
            ),
    {
        let ghost src = self.source_chars@;
        let ghost pos = self.current as int;
        let c = self.advance();
        if c == '(' {
            self.add_token_null_literal(TokenType::LeftParen)
        } else if c == ')' {
            self.add_token_null_literal(TokenType::RightParen)
        } else if c == '{' {
            self.add_token_null_literal(TokenType::LeftBrace)
        } else if c == '}' {
            self.add_token_null_literal(TokenType::RightBrace)
        } else if c == ',' {
            self.add_token_null_literal(TokenType::Comma)
        } else if c == '.' {
            self.add_token_null_literal(TokenType::Dot)
        } else if c == '-' {
            self.add_token_null_literal(TokenType::Minus)
        } else if c == '+' {
            self.add_token_null_literal(TokenType::Plus)
        } else if c == ';' {
            self.add_token_null_literal(TokenType::Semicolon)
        } else if c == '*' {
            self.add_token_null_literal(TokenType::Star)
        } else if c == '!' {
            let token_type = if self.match_cur('=') {
                TokenType::BangEqual
            } else {
                TokenType::Bang
            };
            self.add_token_null_literal(token_type);
        } else if c == '=' {
            let token_type = if self.match_cur('=') {
                TokenType::EqualEqual
            } else {
                TokenType::Equal
            };
            self.add_token_null_literal(token_type);
        } else if c == '<' {
            let token_type = if self.match_cur('=') {
                TokenType::LessEqual
            } else {
                TokenType::Less
            };
            self.add_token_null_literal(token_type);
        } else if c == '>' {
            let token_type = if self.match_cur('=') {
                TokenType::GreaterEqual
            } else {
                TokenType::Greater
            };
            self.add_token_null_literal(token_type);
        } else if c == '/' {
            if self.match_cur('/') {
                // A comment goes until the end of the line.
                self.skip_run(Run::Comment);
                } else {
                self.add_token_null_literal(TokenType::Slash)
            }
        } else if c == ' ' || c == '\r' || c == '\t' || c == '\n' {
        } else if c == '"' {
            self.handle_string()
        } else if is_numeric(c) {
            self.handle_number();
        } else if is_alpha(c) {
            self.handle_identifier();
        } else {
            self.errors.push(
                Diagnostic {
                    line: self.line,
                    place: Place::Nowhere,
                    message: "Unexpected character.",
                },
            );
        }
    }

    /// Reads on while the characters continue `run`.
    fn skip_run(&mut self, run: Run)
        requires
            old(self).wf(),
        ensures
            *final(self) == old(self).moved_to(
                run_end(old(self).source_chars@, old(self).current as int, run),
            ),
            final(self).current == run_end(old(self).source_chars@, old(self).current as int, run),
            final(self).wf(),
    {
        let ghost src = self.source_chars@;
        let ghost from = self.current as int;
        let ghost before = *self;
        proof {
            lemma_run_end(src, from, run);
        }
        while !self.is_at_end() && continuing(&run, self.source_chars[self.current])
            invariant
                self.wf(),
                before.source_chars@ == src,
                from <= self.current <= src.len(),
                run_end(src, self.current as int, run) == run_end(src, from, run),
                *self == before.moved_to(self.current as int),
            decreases src.len() - self.current,
        {
            self.advance();
        }
    }

    fn handle_identifier(&mut self)
        requires
            old(self).wf(),
            old(self).start + 1 == old(self).current,
            is_letter(old(self).source_chars@[old(self).start as int]),
        ensures
            final(self).wf(),
            final(self).source_chars == old(self).source_chars,
            final(self).errors == old(self).errors,
            final(self).current == piece_at(old(self).source_chars@, old(self).start as int).end,
            emitted(
                old(self).source_chars@,
                piece_at(old(self).source_chars@, old(self).start as int),
                old(self).tokens@,
                final(self).tokens@,
            ),
    {
        let ghost src = self.source_chars@;
        proof {
            lemma_run_end(src, self.current as int, Run::Name);
        }
        self.skip_run(Run::Name);
        let text = text_of(&self.source_chars, self.start, self.current);
        match self.keywords.get(&text) {
            None => self.add_token_null_literal(TokenType::Identifier),
            Some(id) => {
                let token_type = *id;
                self.add_token_null_literal(token_type)
            },
        }
    }

    fn handle_number(&mut self)
        requires
            old(self).wf(),
            old(self).start + 1 == old(self).current,
            is_digit(old(self).source_chars@[old(self).start as int]),
        ensures
            final(self).wf(),
            final(self).source_chars == old(self).source_chars,
            final(self).errors == old(self).errors,
            final(self).current == piece_at(old(self).source_chars@, old(self).start as int).end,
            emitted(
                old(self).source_chars@,
                piece_at(old(self).source_chars@, old(self).start as int),
                old(self).tokens@,
                final(self).tokens@,
            ),
    {
        let ghost src = self.source_chars@;
        proof {
            lemma_run_end(src, self.current as int, Run::Digits);
        }
        self.skip_run(Run::Digits);
        // Look for a fractional part.
        if self.peek() == '.' && is_numeric(self.peek_next()) {
            // Consume the "."
            self.advance();
            proof {
                lemma_run_end(src, self.current as int, Run::Digits);
            }
            self.skip_run(Run::Digits);
        }
        let number_text = text_of(&self.source_chars, self.start, self.current);
        self.add_token(TokenType::Number, Literal::NumberLiteral(number_text));
    }

    fn handle_string(&mut self)
        requires
            old(self).wf(),
            old(self).start + 1 == old(self).current,
            old(self).source_chars@[old(self).start as int] == '"',
        ensures
            final(self).wf(),
            final(self).source_chars == old(self).source_chars,
            final(self).current == piece_at(old(self).source_chars@, old(self).start as int).end,
            emitted(
                old(self).source_chars@,
                piece_at(old(self).source_chars@, old(self).start as int),
                old(self).tokens@,
                final(self).tokens@,
            ),
            complained(
                old(self).source_chars@,
                piece_at(old(self).source_chars@, old(self).start as int),
                old(self).errors@,
                final(self).errors@,
            ),
    {
        let ghost src = self.source_chars@;
        proof {
            lemma_run_end(src, self.current as int, Run::Quoted);
        }
        self.skip_run(Run::Quoted);
        if self.is_at_end() {
            self.errors.push(
                Diagnostic { line: self.line, place: Place::Nowhere, message: "Unterminated string." },
            );
            return ;
        }
        // The closing ".
        self.advance();
        // Trim the surrounding quotes.
        let value = text_of(&self.source_chars, self.start + 1, self.current - 1);
        self.add_token(TokenType::StringToken, Literal::StringLiteral(value));
    }

    /// Reads the next character if it is `expected`.
    fn match_cur(&mut self, expected: char) -> (r: bool)
        requires
            old(self).wf(),
            expected != '\n',
        ensures
            r == (old(self).current < old(self).source_chars@.len() && old(self).source_chars@[old(
                self,
            ).current as int] == expected),
            *final(self) == if r {
                old(self).moved_to(old(self).current + 1)
            } else {
                *old(self)
            },
            final(self).wf(),
    {
        if self.is_at_end() || self.source_chars[self.current] != expected {
            false
        } else {
            self.advance();
            true
        }
    }

    /// The next character, or `'\0'` at the end of the text.
    fn peek(&self) -> (c: char)
        ensures
            c == if self.current < self.source_chars@.len() {
                self.source_chars@[self.current as int]
            } else {
                '\0'
            },
    {
        if self.is_at_end() {
            '\0'
        } else {
            self.source_chars[self.current]
        }
    }

    /// The character after the next, or `'\0'` where there is none.
    fn peek_next(&self) -> (c: char)
        requires
            self.current <= self.source_chars@.len(),
        ensures
            c == if self.current + 1 < self.source_chars@.len() {
                self.source_chars@[self.current + 1]
            } else {
                '\0'
            },
    {
        if self.current >= self.source_chars.len() || self.current + 1
            >= self.source_chars.len() {
            '\0'
        } else {
            self.source_chars[self.current + 1]
        }
    }

    /// Reads one character, counting the line break if it is one.
    fn advance(&mut self) -> (c: char)
        requires
            old(self).wf(),
            old(self).current < old(self).source_chars@.len(),
        ensures
            c == old(self).source_chars@[old(self).current as int],
            *final(self) == old(self).moved_to(old(self).current + 1),
            final(self).wf(),
    {
        let c = self.source_chars[self.current];
        proof {
            lemma_line_step(self.source_chars@, self.current as int);
        }
        if c == '\n' && self.line < usize::MAX {
            self.line += 1;
        }
        self.current += 1;
        c
    }

    fn add_token_null_literal(&mut self, token_type: TokenType)
        requires
            old(self).wf(),
        ensures
            *final(self) == (Scanner { tokens: final(self).tokens, ..*old(self) }),
            final(self).tokens@.len() == old(self).tokens@.len() + 1,
            final(self).tokens@.drop_last() == old(self).tokens@,
            final(self).tokens@.last().token_type == token_type,
            final(self).tokens@.last().lexeme@ == old(self).source_chars@.subrange(
                old(self).start as int,
                old(self).current as int,
            ),
            final(self).tokens@.last().literal is NoneLiteral,
            final(self).tokens@.last().line == old(self).line,
            final(self).tokens@.last().offset == old(self).start,
    {
        self.add_token(token_type, Literal::NoneLiteral)
    }

    fn add_token(&mut self, token_type: TokenType, literal: Literal)
        requires
            old(self).wf(),
        ensures
            *final(self) == (Scanner { tokens: final(self).tokens, ..*old(self) }),
            final(self).tokens@.len() == old(self).tokens@.len() + 1,
            final(self).tokens@.drop_last() == old(self).tokens@,
            final(self).tokens@.last().token_type == token_type,
            final(self).tokens@.last().lexeme@ == old(self).source_chars@.subrange(
                old(self).start as int,
                old(self).current as int,
            ),
            final(self).tokens@.last().literal == literal,
            final(self).tokens@.last().line == old(self).line,
            final(self).tokens@.last().offset == old(self).start,
    {
        let text = text_of(&self.source_chars, self.start, self.current);
        self.tokens.push(Token::from(token_type, text, literal, self.line, self.start));
        assert(self.tokens@.drop_last() =~= old(self).tokens@);
    }
}

fn continuing(run: &Run, c: char) -> (r: bool)
    ensures
        r == continues(*run, c),
{
    match run {
        Run::Digits => is_numeric(c),
        Run::Name => is_alpha_numeric(c),
        Run::Comment => c != '\n',
        Run::Quoted => c != '"',
    }
}

/// Scans `source`: its tokens, the end-of-input token last, and the
/// complaints about what is no token.
pub fn scan(source: &str) -> (r: (Vec<Token>, Vec<Diagnostic>))
    ensures
        scanned(source@, r.0@, r.1@),
{
    let mut scanner = Scanner::new(source);
    scanner.scan_tokens();
    (scanner.tokens, scanner.errors)
}

/// The text of the given pieces of `src`, one after the other.
pub open spec fn joined(src: Seq<char>, pieces: Seq<Piece>) -> Seq<char>
    decreases pieces.len(),
{
    if pieces.len() == 0 {
        Seq::empty()
    } else {
        src.subrange(pieces[0].start, pieces[0].end) + joined(src, pieces.drop_first())
    }
}

/// Whether a piece is a token.
pub open spec fn is_word(p: Piece) -> bool {
    p.kind is Word
}

/// The pieces from `pos` on, put together again, are the text from `pos` on;
/// the token pieces are those of them that are tokens, in the same order; and
/// each of them lies within the text at or after `pos`.
pub proof fn lemma_pieces_rejoin(src: Seq<char>, pos: int)
    requires
        0 <= pos <= src.len(),
    ensures
        joined(src, pieces_from(src, pos)) == src.subrange(pos, src.len() as int),
        words_from(src, pos) == pieces_from(src, pos).filter(|p: Piece| is_word(p)),
        forall|i: int|
            0 <= i < words_from(src, pos).len() ==> pos <= (#[trigger] words_from(src, pos)[i]).start
                < words_from(src, pos)[i].end <= src.len(),
    decreases src.len() - pos,
{
    let pred = |p: Piece| is_word(p);
    if pos < src.len() {
        let p = piece_at(src, pos);
        lemma_piece_bounds(src, pos);
        lemma_pieces_rejoin(src, p.end);
        let rest = pieces_from(src, p.end);
        let all = seq![p] + rest;
        assert(all.drop_first() =~= rest);
        assert(src.subrange(pos, p.end) + src.subrange(p.end, src.len() as int) =~= src.subrange(
            pos,
            src.len() as int,
        ));
        Seq::filter_distributes_over_add(seq![p], rest, pred);
        reveal_with_fuel(Seq::filter, 2);
        assert(seq![p].drop_last() =~= Seq::<Piece>::empty());
        assert(seq![p].filter(pred) =~= if is_word(p) {
            seq![p]
        } else {
            Seq::<Piece>::empty()
        });
        assert(words_from(src, pos) =~= all.filter(pred));
    } else {
        assert(src.subrange(pos, src.len() as int) =~= Seq::<char>::empty());
        assert(pieces_from(src, pos).filter(pred) =~= Seq::<Piece>::empty());
    }
}

/// Scanning loses no text. Every token's lexeme is the text of the input at
/// the offset that the token records; and the pieces that the scanner cuts
/// the input into (tokens, blanks and comments, stray characters) give the
/// input back when they are put together in order, the tokens being those of
/// the pieces that are tokens.
pub proof fn lemma_round_trip(src: Seq<char>, tokens: Seq<Token>, errors: Seq<Diagnostic>)
    requires
        scanned(src, tokens, errors),
    ensures
        forall|i: int|
            0 <= i < tokens.len() ==> (#[trigger] tokens[i]).offset + tokens[i].lexeme@.len()
                <= src.len() && tokens[i].lexeme@ == src.subrange(
                tokens[i].offset as int,
                tokens[i].offset + tokens[i].lexeme@.len(),
            ),
        joined(src, pieces_from(src, 0)) == src,
        tokens.len() == pieces_from(src, 0).filter(|p: Piece| is_word(p)).len() + 1,
{
    lemma_pieces_rejoin(src, 0);
    assert(src.subrange(0, src.len() as int) =~= src);
    let words = words_from(src, 0);
    assert forall|i: int| 0 <= i < tokens.len() implies (#[trigger] tokens[i]).offset
        + tokens[i].lexeme@.len() <= src.len() && tokens[i].lexeme@ == src.subrange(
        tokens[i].offset as int,
        tokens[i].offset + tokens[i].lexeme@.len(),
    ) by {
        if i < words.len() {
            assert(produced(src, words[i], tokens[i]));
            assert(0 <= words[i].start < words[i].end <= src.len());
        } else {
            assert(tokens[i] == tokens.last());
            assert(src.subrange(src.len() as int, src.len() as int) =~= Seq::<char>::empty());
        }
    }
}

/// Scanning is determined by the text: two scans of one text give the same
/// complaints and, token for token, the same class, text, constant, line and
/// offset.
pub proof fn lemma_scan_is_determined(
    src: Seq<char>,
    first: Seq<Token>,
    first_errors: Seq<Diagnostic>,
    second: Seq<Token>,
    second_errors: Seq<Diagnostic>,
)
    requires
        scanned(src, first, first_errors),
        scanned(src, second, second_errors),
    ensures
        first_errors == second_errors,
        first.len() == second.len(),
        forall|i: int|
            0 <= i < first.len() ==> {
                &&& (#[trigger] first[i]).token_type == second[i].token_type
                &&& first[i].lexeme@ == second[i].lexeme@
                &&& first[i].line == second[i].line
                &&& first[i].offset == second[i].offset
                &&& same_constant(first[i].literal, second[i].literal)
            },
{
    let words = words_from(src, 0);
    assert forall|i: int| 0 <= i < first.len() implies {
        &&& (#[trigger] first[i]).token_type == second[i].token_type
        &&& first[i].lexeme@ == second[i].lexeme@
        &&& first[i].line == second[i].line
        &&& first[i].offset == second[i].offset
        &&& same_constant(first[i].literal, second[i].literal)
    } by {
        if i < words.len() {
            assert(produced(src, words[i], first[i]));
            assert(produced(src, words[i], second[i]));
        } else {
            assert(first[i] == first.last());
            assert(second[i] == second.last());
        }
    }
}

/// Two constants of tokens read the same.
pub open spec fn same_constant(a: Literal, b: Literal) -> bool {
    match (a, b) {
        (Literal::NumberLiteral(x), Literal::NumberLiteral(y)) => x@ == y@,
        (Literal::StringLiteral(x), Literal::StringLiteral(y)) => x@ == y@,
        (Literal::BoolLiteral(x), Literal::BoolLiteral(y)) => x == y,
        (Literal::NoneLiteral, Literal::NoneLiteral) => true,
        _ => false,
    }
}

} // verus!
