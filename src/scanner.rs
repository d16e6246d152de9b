//! Turning source text into tokens.
use vstd::prelude::*;
use crate::literals::shows_as;
use crate::messages::{signed_decimal, signed_decimal_text};
use crate::text::{append_str, chars_of, debug_quoted, quoted_of, slice_equals, string_of};

verus! {

/// The kinds of token that the scanner produces.
#[derive(Debug, Copy, Clone, PartialEq, Eq, Structural)]
pub enum TokenType {
    LParen,
    RParen,
    LBrace,
    RBrace,
    Comma,
    Dot,
    Minus,
    Plus,
    Semicolon,
    Slash,
    Star,
    Bang,
    BangEqual,
    Equal,
    EqualEqual,
    Greater,
    GreaterEqual,
    Less,
    LessEqual,
    Identifier,
    StringLit,
    Number,
    And,
    Class,
    Else,
    False,
    Fun,
    For,
    If,
    Nil,
    Or,
    Print,
    Return,
    Super,
    This,
    True,
    Var,
    While,
    Eof,
}

/// The payload of a `Number`, `StringLit` or `Identifier` token.
/// A double is held as its IEEE-754 bit pattern; a number token may also carry an integer.
#[derive(Debug, Clone)]
pub enum LiteralVal {
    IntVal(i64),
    FVal(u64),
    StringVal(String),
    IdentifierVal(String),
}

/// The mathematical form of a token payload.
pub enum Payload {
    Int(i64),
    Float(u64),
    Str(Seq<char>),
    Ident(Seq<char>),
}

impl View for LiteralVal {
    type V = Payload;

    open spec fn view(&self) -> Payload {
        match self {
            LiteralVal::IntVal(i) => Payload::Int(*i),
            LiteralVal::FVal(b) => Payload::Float(*b),
            LiteralVal::StringVal(s) => Payload::Str(s@),
            LiteralVal::IdentifierVal(s) => Payload::Ident(s@),
        }
    }
}

impl LiteralVal {
    /// A copy with the same view.
    pub fn duplicate(&self) -> (r: LiteralVal)
        ensures
            r@ == self@,
    {
        match self {
            LiteralVal::IntVal(i) => LiteralVal::IntVal(*i),
            LiteralVal::FVal(b) => LiteralVal::FVal(*b),
            LiteralVal::StringVal(s) => LiteralVal::StringVal(s.clone()),
            LiteralVal::IdentifierVal(s) => LiteralVal::IdentifierVal(s.clone()),
        }
    }
}

pub open spec fn payload_view(p: Option<LiteralVal>) -> Option<Payload> {
    match p {
        Some(l) => Some(l@),
        None => None,
    }
}

/// A scanned token: its kind, its text, its payload and the line it ends on.
#[derive(Debug, Clone)]
pub struct Token {
    pub token_type: TokenType,
    pub lexeme: String,
    pub literal: Option<LiteralVal>,
    pub line_num: usize,
}

/// The mathematical form of a token.
pub struct TokenV {
    pub kind: TokenType,
    pub lexeme: Seq<char>,
    pub literal: Option<Payload>,
    pub line: nat,
}

impl View for Token {
    type V = TokenV;

    open spec fn view(&self) -> TokenV {
        TokenV {
            kind: self.token_type,
            lexeme: self.lexeme@,
            literal: payload_view(self.literal),
            line: self.line_num as nat,
        }
    }
}

/// A `Number` token carries a double or an integer, and a `StringLit` token its text.
pub open spec fn parsable_token(t: TokenV) -> bool {
    &&& (t.kind == TokenType::Number ==> (t.literal matches Some(Payload::Float(_))
        || t.literal matches Some(Payload::Int(_))))
    &&& (t.kind == TokenType::StringLit ==> (t.literal matches Some(Payload::Str(_))))
}

pub open spec fn tokens_view(v: Seq<Token>) -> Seq<TokenV> {
    v.map_values(|t: Token| t@)
}

impl Token {
    pub fn new_token(
        token_type: TokenType,
        lexeme: String,
        literal: Option<LiteralVal>,
        line_num: usize,
    ) -> (r: Self)
        ensures
            r.token_type == token_type,
            r.lexeme == lexeme,
            r.literal == literal,
            r.line_num == line_num,
    {
        Token { token_type, lexeme, literal, line_num }
    }

    /// A copy with the same view.
    pub fn duplicate(&self) -> (r: Token)
        ensures
            r@ == self@,
    {
        let literal = match &self.literal {
            Some(l) => Some(l.duplicate()),
            None => None,
        };
        Token {
            token_type: self.token_type,
            lexeme: self.lexeme.clone(),
            literal,
            line_num: self.line_num,
        }
    }
}

/// What went wrong while scanning one lexeme.
#[derive(Debug, Clone)]
pub enum ScanError {
    BadChar { line: usize, c: char },
    UnterminatedString { line: usize },
    NumberParse { text: String },
}

pub enum ScanErr {
    BadChar { line: nat, c: char },
    UnterminatedString { line: nat },
    NumberParse { text: Seq<char> },
}

impl View for ScanError {
    type V = ScanErr;

    open spec fn view(&self) -> ScanErr {
        match self {
            ScanError::BadChar { line, c } => ScanErr::BadChar { line: *line as nat, c: *c },
            ScanError::UnterminatedString { line } => ScanErr::UnterminatedString {
                line: *line as nat,
            },
            ScanError::NumberParse { text } => ScanErr::NumberParse { text: text@ },
        }
    }
}

pub open spec fn errors_view(v: Seq<ScanError>) -> Seq<ScanErr> {
    v.map_values(|e: ScanError| e@)
}

// ---------------------------------------------------------------- character classes

pub open spec fn digit_char(c: char) -> bool {
    '0' <= c <= '9'
}

pub open spec fn alpha_char(c: char) -> bool {
    ('a' <= c <= 'z') || ('A' <= c <= 'Z') || c == '_'
}

pub open spec fn alnum_char(c: char) -> bool {
    alpha_char(c) || digit_char(c)
}

/// Whether `c` is an ASCII digit.
pub fn is_digit(c: char) -> (r: bool)
    ensures
        r == digit_char(c),
{
    '0' <= c && c <= '9'
}

/// Whether `c` is an ASCII letter or `_`.
pub fn is_alpha(c: char) -> (r: bool)
    ensures
        r == alpha_char(c),
{
    ('a' <= c && c <= 'z') || ('A' <= c && c <= 'Z') || c == '_'
}

/// Whether `c` may continue an identifier.
pub fn is_alpha_num(c: char) -> (r: bool)
    ensures
        r == alnum_char(c),
{
    is_alpha(c) || is_digit(c)
}

// ---------------------------------------------------------------- keywords

pub open spec fn keyword_table() -> Seq<(Seq<char>, TokenType)> {
    seq![
        (seq!['a', 'n', 'd'], TokenType::And),
        (seq!['c', 'l', 'a', 's', 's'], TokenType::Class),
        (seq!['e', 'l', 's', 'e'], TokenType::Else),
        (seq!['t', 'r', 'u', 'e'], TokenType::True),
        (seq!['f', 'a', 'l', 's', 'e'], TokenType::False),
        (seq!['f', 'o', 'r'], TokenType::For),
        (seq!['i', 'f'], TokenType::If),
        (seq!['f', 'u', 'n'], TokenType::Fun),
        (seq!['n', 'i', 'l'], TokenType::Nil),
        (seq!['o', 'r'], TokenType::Or),
        (seq!['p', 'r', 'i', 'n', 't'], TokenType::Print),
        (seq!['r', 'e', 't', 'u', 'r', 'n'], TokenType::Return),
        (seq!['s', 'u', 'p', 'e', 'r'], TokenType::Super),
        (seq!['t', 'h', 'i', 's'], TokenType::This),
        (seq!['v', 'a', 'r'], TokenType::Var),
        (seq!['w', 'h', 'i', 'l', 'e'], TokenType::While),
    ]
}

/// The kind of the first entry of `table`, from index `i` on, whose text is `s`.
pub open spec fn lookup_from(table: Seq<(Seq<char>, TokenType)>, s: Seq<char>, i: int) -> Option<
    TokenType,
>
    decreases table.len() - i,
{
    if i < 0 || i >= table.len() {
        None
    } else if table[i].0 == s {
        Some(table[i].1)
    } else {
        lookup_from(table, s, i + 1)
    }
}

/// The keyword kind of `s`, if `s` is a reserved word.
pub open spec fn keyword_kind(s: Seq<char>) -> Option<TokenType> {
    lookup_from(keyword_table(), s, 0)
}

pub open spec fn table_view(v: Seq<(Vec<char>, TokenType)>) -> Seq<(Seq<char>, TokenType)> {
    v.map_values(|p: (Vec<char>, TokenType)| (p.0@, p.1))
}

pub open spec fn literal_free(k: TokenType) -> bool {
    k != TokenType::Number && k != TokenType::StringLit
}

proof fn lemma_keyword_kinds()
    ensures
        forall|j: int|
            0 <= j < keyword_table().len() ==> literal_free(#[trigger] keyword_table()[j].1),
{
    let t = keyword_table();
    assert forall|j: int| 0 <= j < t.len() implies literal_free(#[trigger] t[j].1) by {
        assert(j == 0 || j == 1 || j == 2 || j == 3 || j == 4 || j == 5 || j == 6 || j == 7 || j
            == 8 || j == 9 || j == 10 || j == 11 || j == 12 || j == 13 || j == 14 || j == 15);
    }
}

/// The table of reserved words and their token kinds.
pub fn get_kws_hash() -> (r: Vec<(Vec<char>, TokenType)>)
    ensures
        table_view(r@) == keyword_table(),
{
    let r = vec![
        (vec!['a', 'n', 'd'], TokenType::And),
        (vec!['c', 'l', 'a', 's', 's'], TokenType::Class),
        (vec!['e', 'l', 's', 'e'], TokenType::Else),
        (vec!['t', 'r', 'u', 'e'], TokenType::True),
        (vec!['f', 'a', 'l', 's', 'e'], TokenType::False),
        (vec!['f', 'o', 'r'], TokenType::For),
        (vec!['i', 'f'], TokenType::If),
        (vec!['f', 'u', 'n'], TokenType::Fun),
        (vec!['n', 'i', 'l'], TokenType::Nil),
        (vec!['o', 'r'], TokenType::Or),
        (vec!['p', 'r', 'i', 'n', 't'], TokenType::Print),
        (vec!['r', 'e', 't', 'u', 'r', 'n'], TokenType::Return),
        (vec!['s', 'u', 'p', 'e', 'r'], TokenType::Super),
        (vec!['t', 'h', 'i', 's'], TokenType::This),
        (vec!['v', 'a', 'r'], TokenType::Var),
        (vec!['w', 'h', 'i', 'l', 'e'], TokenType::While),
    ];
    assert(table_view(r@) =~= keyword_table());
    r
}

} // verus!

verus! {

// ---------------------------------------------------------------- the scanning relation

/// The end of the run of digits that starts at `i`.
pub open spec fn digits_end(src: Seq<char>, i: int) -> int
    decreases src.len() - i,
{
    if 0 <= i < src.len() && digit_char(src[i]) {
        digits_end(src, i + 1)
    } else {
        i
    }
}

/// The end of the run of identifier characters that starts at `i`.
pub open spec fn alnum_end(src: Seq<char>, i: int) -> int
    decreases src.len() - i,
{
    if 0 <= i < src.len() && alnum_char(src[i]) {
        alnum_end(src, i + 1)
    } else {
        i
    }
}

/// The position of the first newline at or after `i`, or the end of the text.
pub open spec fn line_end(src: Seq<char>, i: int) -> int
    decreases src.len() - i,
{
    if 0 <= i < src.len() && src[i] != '\n' {
        line_end(src, i + 1)
    } else {
        i
    }
}

/// The position of the first double quote at or after `i` that no backslash escapes, or the
/// end of the text. A backslash takes the character after it into the literal.
pub open spec fn quote_end(src: Seq<char>, i: int) -> int
    decreases src.len() - i,
{
    if 0 <= i < src.len() && src[i] != '"' {
        if src[i] == '\\' && i + 1 < src.len() {
            quote_end(src, i + 2)
        } else {
            quote_end(src, i + 1)
        }
    } else {
        i
    }
}

/// The end of the number literal that starts at `start`: digits, then optionally a dot
/// and more digits when a digit follows the dot.
pub open spec fn number_end(src: Seq<char>, start: int) -> int {
    let j = digits_end(src, start + 1);
    if j + 1 < src.len() && src[j] == '.' && digit_char(src[j + 1]) {
        digits_end(src, j + 1)
    } else {
        j
    }
}

/// The number of newlines in `s`.
pub open spec fn newlines(s: Seq<char>) -> nat
    decreases s.len(),
{
    if s.len() == 0 {
        0
    } else {
        newlines(s.drop_last()) + if s.last() == '\n' {
            1nat
        } else {
            0nat
        }
    }
}

/// What scanning one lexeme gives: at most one token or error, where scanning goes on, and
/// the line counter after it.
pub struct Step {
    pub item: Option<Result<TokenV, ScanErr>>,
    pub next: int,
    pub line: nat,
}

pub open spec fn token_at(
    kind: TokenType,
    src: Seq<char>,
    from: int,
    to: int,
    literal: Option<Payload>,
    line: nat,
) -> TokenV {
    TokenV { kind, lexeme: src.subrange(from, to), literal, line }
}

pub open spec fn emit(kind: TokenType, src: Seq<char>, start: int, len: int, line: nat) -> Step {
    Step {
        item: Some(Ok(token_at(kind, src, start, start + len, None, line))),
        next: start + len,
        line,
    }
}

pub open spec fn skip(next: int, line: nat) -> Step {
    Step { item: None, next, line }
}

/// A one- or two-character operator: the long kind when `=` follows.
pub open spec fn with_equal(
    src: Seq<char>,
    start: int,
    line: nat,
    long: TokenType,
    short: TokenType,
) -> Step {
    if start + 1 < src.len() && src[start + 1] == '=' {
        emit(long, src, start, 2, line)
    } else {
        emit(short, src, start, 1, line)
    }
}

pub open spec fn single_kind(c: char) -> Option<TokenType> {
    if c == '(' {
        Some(TokenType::LParen)
    } else if c == ')' {
        Some(TokenType::RParen)
    } else if c == '{' {
        Some(TokenType::LBrace)
    } else if c == '}' {
        Some(TokenType::RBrace)
    } else if c == ',' {
        Some(TokenType::Comma)
    } else if c == '.' {
        Some(TokenType::Dot)
    } else if c == '-' {
        Some(TokenType::Minus)
    } else if c == '+' {
        Some(TokenType::Plus)
    } else if c == ';' {
        Some(TokenType::Semicolon)
    } else if c == '*' {
        Some(TokenType::Star)
    } else {
        None
    }
}

pub open spec fn string_step(src: Seq<char>, start: int, line: nat) -> Step {
    let q = quote_end(src, start + 1);
    let l = line + newlines(src.subrange(start + 1, q));
    if q >= src.len() {
        Step { item: Some(Err(ScanErr::UnterminatedString { line: l })), next: q, line: l }
    } else {
        Step {
            item: Some(
                Ok(
                    token_at(
                        TokenType::StringLit,
                        src,
                        start,
                        q + 1,
                        Some(Payload::Str(src.subrange(start + 1, q))),
                        l,
                    ),
                ),
            ),
            next: q + 1,
            line: l,
        }
    }
}

pub open spec fn number_step(
    src: Seq<char>,
    start: int,
    line: nat,
    pf: spec_fn(Seq<char>) -> Option<u64>,
) -> Step {
    let e = number_end(src, start);
    let text = src.subrange(start, e);
    match pf(text) {
        Some(b) => Step {
            item: Some(
                Ok(token_at(TokenType::Number, src, start, e, Some(Payload::Float(b)), line)),
            ),
            next: e,
            line,
        },
        None => Step { item: Some(Err(ScanErr::NumberParse { text })), next: e, line },
    }
}

pub open spec fn identifier_step(src: Seq<char>, start: int, line: nat) -> Step {
    let e = alnum_end(src, start + 1);
    let text = src.subrange(start, e);
    let t = match keyword_kind(text) {
        Some(k) => token_at(k, src, start, e, None, line),
        None => token_at(TokenType::Identifier, src, start, e, Some(Payload::Ident(text)), line),
    };
    Step { item: Some(Ok(t)), next: e, line }
}

/// Scanning the lexeme that starts at `start`, with `pf` reading number literals.
pub open spec fn scan_step(
    src: Seq<char>,
    start: int,
    line: nat,
    pf: spec_fn(Seq<char>) -> Option<u64>,
) -> Step {
    let c = src[start];
    if single_kind(c) is Some {
        emit(single_kind(c)->0, src, start, 1, line)
    } else if c == '!' {
        with_equal(src, start, line, TokenType::BangEqual, TokenType::Bang)
    } else if c == '=' {
        with_equal(src, start, line, TokenType::EqualEqual, TokenType::Equal)
    } else if c == '<' {
        with_equal(src, start, line, TokenType::LessEqual, TokenType::Less)
    } else if c == '>' {
        with_equal(src, start, line, TokenType::GreaterEqual, TokenType::Greater)
    } else if c == '/' {
        if start + 1 < src.len() && src[start + 1] == '/' {
            skip(line_end(src, start + 2), line)
        } else {
            emit(TokenType::Slash, src, start, 1, line)
        }
    } else if c == ' ' || c == '\r' || c == '\t' {
        skip(start + 1, line)
    } else if c == '\n' {
        skip(start + 1, line + 1)
    } else if c == '"' {
        string_step(src, start, line)
    } else if digit_char(c) {
        number_step(src, start, line, pf)
    } else if alpha_char(c) {
        identifier_step(src, start, line)
    } else {
        Step { item: Some(Err(ScanErr::BadChar { line, c })), next: start + 1, line }
    }
}

/// The tokens and errors of scanning `src` from `pos` on with the line counter at `line`,
/// and the line counter at the end.
pub open spec fn scan_from(
    src: Seq<char>,
    pos: int,
    line: nat,
    pf: spec_fn(Seq<char>) -> Option<u64>,
) -> (Seq<TokenV>, Seq<ScanErr>, nat)
    decreases src.len() - pos,
{
    if pos < 0 || pos >= src.len() {
        (seq![], seq![], line)
    } else {
        let st = scan_step(src, pos, line, pf);
        if st.next <= pos || st.next > src.len() {
            (seq![], seq![], line)
        } else {
            let rest = scan_from(src, st.next, st.line, pf);
            match st.item {
                None => rest,
                Some(Ok(t)) => (seq![t] + rest.0, rest.1, rest.2),
                Some(Err(e)) => (rest.0, seq![e] + rest.1, rest.2),
            }
        }
    }
}

pub open spec fn eof_token(line: nat) -> TokenV {
    TokenV { kind: TokenType::Eof, lexeme: seq![], literal: None, line }
}

/// The tokens of `src`, ending in one `Eof` token, whatever the errors.
pub open spec fn scanned_tokens(src: Seq<char>, pf: spec_fn(Seq<char>) -> Option<u64>) -> Seq<
    TokenV,
> {
    let r = scan_from(src, 0, 1, pf);
    r.0.push(eof_token(r.2))
}

/// The result of scanning `src`: every error when there is one, else the tokens.
pub open spec fn scan_result(src: Seq<char>, pf: spec_fn(Seq<char>) -> Option<u64>) -> Result<
    Seq<TokenV>,
    Seq<ScanErr>,
> {
    let r = scan_from(src, 0, 1, pf);
    if r.1.len() > 0 {
        Err(r.1)
    } else {
        Ok(scanned_tokens(src, pf))
    }
}

/// `parse` reads number literals as `pf` does.
pub open spec fn reads_numbers_as<P: Fn(&str) -> Option<u64>>(
    parse: P,
    pf: spec_fn(Seq<char>) -> Option<u64>,
) -> bool {
    forall|s: &str, r: Option<u64>| #[trigger] parse.ensures((s,), r) ==> r == pf(s@)
}

proof fn lemma_newlines_push(s: Seq<char>, c: char)
    ensures
        newlines(s.push(c)) == newlines(s) + if c == '\n' {
            1nat
        } else {
            0nat
        },
{
    assert(s.push(c).drop_last() =~= s);
}

proof fn lemma_newlines_bound(s: Seq<char>)
    ensures
        newlines(s) <= s.len(),
    decreases s.len(),
{
    if s.len() > 0 {
        lemma_newlines_bound(s.drop_last());
    }
}

} // verus!

verus! {

// ---------------------------------------------------------------- the scanner

/// The character at `i`, or `'\0'` past the end.
pub open spec fn char_at(src: Seq<char>, i: int) -> char {
    if 0 <= i < src.len() {
        src[i]
    } else {
        '\0'
    }
}

/// The kind of the first entry of `kws` whose text is `src[from..to]`.
fn keyword_lookup(kws: &Vec<(Vec<char>, TokenType)>, src: &[char], from: usize, to: usize) -> (r:
    Option<TokenType>)
    requires
        from <= to <= src@.len(),
        table_view(kws@) == keyword_table(),
    ensures
        r == lookup_from(table_view(kws@), src@.subrange(from as int, to as int), 0),
        r matches Some(k) ==> literal_free(k),
{
    proof {
        lemma_keyword_kinds();
    }
    let ghost text = src@.subrange(from as int, to as int);
    let mut i: usize = 0;
    while i < kws.len()
        invariant
            i <= kws@.len(),
            from <= to <= src@.len(),
            table_view(kws@) == keyword_table(),
            forall|j: int|
                0 <= j < keyword_table().len() ==> literal_free(#[trigger] keyword_table()[j].1),
            text == src@.subrange(from as int, to as int),
            lookup_from(table_view(kws@), text, 0) == lookup_from(table_view(kws@), text, i as int),
        decreases kws.len() - i,
    {
        proof {
            assert(table_view(kws@).len() == kws@.len());
            assert(table_view(kws@)[i as int] == (kws@[i as int].0@, kws@[i as int].1));
        }
        let word = kws[i].0.as_slice();
        assert(word@ == kws@[i as int].0@);
        let same = slice_equals(src, from, to, word);
        assert(same == (table_view(kws@)[i as int].0 == text));
        if same {
            assert(lookup_from(table_view(kws@), text, i as int) == Some(kws@[i as int].1));
            return Some(kws[i].1);
        }
        assert(lookup_from(table_view(kws@), text, i as int) == lookup_from(table_view(kws@), text, i + 1));
        i += 1;
    }
    None
}

/// A scanner over one source text.
pub struct Scanner {
    pub source: Vec<char>,
    pub tokens: Vec<Token>,
    pub start: usize,
    pub current: usize,
    pub line: usize,
    pub kws: Vec<(Vec<char>, TokenType)>,
}

/// `new` is `old` after one step `st` whose outcome was `r`.
pub open spec fn stepped(old: Scanner, new: Scanner, r: Result<(), ScanError>, st: Step) -> bool {
    &&& new.current == st.next
    &&& new.line == st.line
    &&& match st.item {
        None => tokens_view(new.tokens@) == tokens_view(old.tokens@) && r is Ok,
        Some(Ok(t)) => tokens_view(new.tokens@) == tokens_view(old.tokens@).push(t) && r is Ok,
        Some(Err(e)) => tokens_view(new.tokens@) == tokens_view(old.tokens@) && r is Err
            && r->Err_0@ == e,
    }
}

impl Scanner {
    pub open spec fn wf(&self) -> bool {
        &&& self.start <= self.current <= self.source@.len()
        &&& self.source@.len() < usize::MAX
        &&& 1 <= self.line <= self.current + 1
        &&& table_view(self.kws@) == keyword_table()
        &&& forall|i: int|
            0 <= i < self.tokens@.len() ==> parsable_token(#[trigger] self.tokens@[i]@)
    }

    /// `self` and `other` scan the same text with the same table, from the same start.
    pub open spec fn same_input(&self, other: &Scanner) -> bool {
        &&& self.source@ == other.source@
        &&& self.kws@ == other.kws@
        &&& self.start == other.start
    }

    pub fn new(s: &str) -> (r: Self)
        requires
            s@.len() < usize::MAX,
        ensures
            r.wf(),
            r.source@ == s@,
            r.tokens@.len() == 0,
            r.start == 0,
            r.current == 0,
            r.line == 1,
    {
        Scanner {
            source: chars_of(s),
            tokens: Vec::new(),
            start: 0,
            current: 0,
            line: 1,
            kws: get_kws_hash(),
        }
    }

    /// Scans the whole text. On success, the tokens end in one `Eof` token; otherwise every
    /// error comes back, in the order of the text. Either way `tokens` holds what was scanned.
    pub fn scan_tokens<P: Fn(&str) -> Option<u64>>(&mut self, parse: &P) -> (r: Result<
        Vec<Token>,
        Vec<ScanError>,
    >)
        requires
            old(self).wf(),
            old(self).current == 0,
            old(self).line == 1,
            old(self).tokens@.len() == 0,
            forall|s: &str| parse.requires((s,)),
        ensures
            final(self).source@ == old(self).source@,
            forall|i: int|
                0 <= i < final(self).tokens@.len() ==> parsable_token(
                    #[trigger] final(self).tokens@[i]@,
                ),
            r matches Ok(v) ==> forall|i: int|
                0 <= i < v@.len() ==> parsable_token(#[trigger] v@[i]@),
            forall|pf: spec_fn(Seq<char>) -> Option<u64>|
                #[trigger] reads_numbers_as(*parse, pf) ==> {
                    &&& tokens_view(final(self).tokens@) == scanned_tokens(old(self).source@, pf)
                    &&& match r {
                        Ok(v) => scan_result(old(self).source@, pf) == Ok::<
                            Seq<TokenV>,
                            Seq<ScanErr>,
                        >(tokens_view(v@)),
                        Err(es) => scan_result(old(self).source@, pf) == Err::<
                            Seq<TokenV>,
                            Seq<ScanErr>,
                        >(errors_view(es@)),
                    }
                },
    {
        let ghost src = self.source@;
        let mut errs: Vec<ScanError> = Vec::new();
        proof {
            assert forall|pf: spec_fn(Seq<char>) -> Option<u64>|
                #[trigger] reads_numbers_as(*parse, pf) implies {
                let full = scan_from(src, 0, 1, pf);
                &&& full.0 == tokens_view(self.tokens@) + full.0
                &&& full.1 == errors_view(errs@) + full.1
            } by {
                let full = scan_from(src, 0, 1, pf);
                assert(full.0 =~= tokens_view(self.tokens@) + full.0);
                assert(full.1 =~= errors_view(errs@) + full.1);
            }
        }
        while !self.is_at_end()
            invariant
                self.wf(),
                self.source@ == src,
                forall|s: &str| parse.requires((s,)),
                forall|pf: spec_fn(Seq<char>) -> Option<u64>|
                    #[trigger] reads_numbers_as(*parse, pf) ==> {
                        let full = scan_from(src, 0, 1, pf);
                        let rest = scan_from(src, self.current as int, self.line as nat, pf);
                        &&& full.0 == tokens_view(self.tokens@) + rest.0
                        &&& full.1 == errors_view(errs@) + rest.1
                        &&& full.2 == rest.2
                    },
            decreases self.source@.len() - self.current,
        {
            self.start = self.current;
            let ghost before = *self;
            let ghost errs_before = errs@;
            let res = self.scan_token(parse);
            match res {
                Ok(_) => {},
                Err(e) => errs.push(e),
            }
            proof {
                assert forall|pf: spec_fn(Seq<char>) -> Option<u64>|
                    #[trigger] reads_numbers_as(*parse, pf) implies {
                    let full = scan_from(src, 0, 1, pf);
                    let rest = scan_from(src, self.current as int, self.line as nat, pf);
                    &&& full.0 == tokens_view(self.tokens@) + rest.0
                    &&& full.1 == errors_view(errs@) + rest.1
                    &&& full.2 == rest.2
                } by {
                    let st = scan_step(src, before.current as int, before.line as nat, pf);
                    let rest = scan_from(src, self.current as int, self.line as nat, pf);
                    let tb = tokens_view(before.tokens@);
                    let eb = errors_view(errs_before);
                    match st.item {
                        None => {
                            assert(errs@ == errs_before);
                        },
                        Some(Ok(t)) => {
                            assert(errs@ == errs_before);
                            assert(tb + (seq![t] + rest.0) =~= tb.push(t) + rest.0);
                        },
                        Some(Err(e)) => {
                            assert(errors_view(errs@) =~= eb.push(e));
                            assert(eb + (seq![e] + rest.1) =~= eb.push(e) + rest.1);
                        },
                    }
                }
            }
        }
        let eof = Token {
            token_type: TokenType::Eof,
            lexeme: String::new(),
            literal: None,
            line_num: self.line,
        };
        let ghost before_eof = self.tokens@;
        self.tokens.push(eof);
        proof {
            assert(self.tokens@ =~= before_eof.push(eof));
            assert forall|i: int| 0 <= i < self.tokens@.len() implies parsable_token(
                #[trigger] self.tokens@[i]@,
            ) by {
                if i < before_eof.len() {
                    assert(self.tokens@[i] == before_eof[i]);
                }
            }
            assert(tokens_view(self.tokens@) =~= tokens_view(before_eof).push(
                eof_token(self.line as nat),
            ));
            assert forall|pf: spec_fn(Seq<char>) -> Option<u64>|
                #[trigger] reads_numbers_as(*parse, pf) implies tokens_view(self.tokens@)
                == scanned_tokens(src, pf) && errors_view(errs@) == scan_from(src, 0, 1, pf).1 by {
                let full = scan_from(src, 0, 1, pf);
                let rest = scan_from(src, self.current as int, self.line as nat, pf);
                assert(rest.0 =~= seq![]);
                assert(rest.1 =~= seq![]);
                assert(full.0 =~= tokens_view(before_eof));
                assert(full.1 =~= errors_view(errs@));
            }
        }
        if errs.len() > 0 {
            return Err(errs);
        }
        let mut out: Vec<Token> = Vec::new();
        let mut i: usize = 0;
        while i < self.tokens.len()
            invariant
                i <= self.tokens@.len(),
                tokens_view(out@) == tokens_view(self.tokens@).take(i as int),
                out@.len() == i,
                forall|k: int| 0 <= k < self.tokens@.len() ==> parsable_token(#[trigger] self.tokens@[k]@),
                forall|k: int| 0 <= k < out@.len() ==> parsable_token(#[trigger] out@[k]@),
            decreases self.tokens.len() - i,
        {
            let ghost prev = out@;
            let t = self.tokens[i].duplicate();
            out.push(t);
            proof {
                assert(out@ == prev.push(t));
                assert(tokens_view(out@)[i as int] == out@[i as int]@);
                assert(tokens_view(self.tokens@)[i as int] == self.tokens@[i as int]@);
                assert forall|k: int| 0 <= k < out@.len() implies parsable_token(
                    #[trigger] out@[k]@,
                ) by {
                    if k < i {
                        assert(out@[k] == prev[k]);
                    }
                }
                assert(tokens_view(out@) =~= tokens_view(prev).push(t@));
                assert(tokens_view(out@) =~= tokens_view(self.tokens@).take(i + 1));
            }
            i += 1;
        }
        proof {
            assert(tokens_view(out@) =~= tokens_view(self.tokens@));
            assert(errors_view(errs@) =~= seq![]);
        }
        Ok(out)
    }

    fn is_at_end(&self) -> (r: bool)
        ensures
            r == (self.current >= self.source@.len()),
    {
        self.current >= self.source.len()
    }

    /// Scans the one lexeme that starts at `current`.
    fn scan_token<P: Fn(&str) -> Option<u64>>(&mut self, parse: &P) -> (r: Result<(), ScanError>)
        requires
            old(self).wf(),
            old(self).start == old(self).current,
            old(self).current < old(self).source@.len(),
            forall|s: &str| parse.requires((s,)),
        ensures
            final(self).wf(),
            final(self).same_input(old(self)),
            final(self).current > old(self).current,
            forall|pf: spec_fn(Seq<char>) -> Option<u64>|
                #[trigger] reads_numbers_as(*parse, pf) ==> stepped(
                    *old(self),
                    *final(self),
                    r,
                    scan_step(old(self).source@, old(self).current as int, old(self).line as nat, pf),
                ),
    {
        let c = self.advance();
        match c {
            '(' => self.add_token(TokenType::LParen),
            ')' => self.add_token(TokenType::RParen),
            '{' => self.add_token(TokenType::LBrace),
            '}' => self.add_token(TokenType::RBrace),
            ',' => self.add_token(TokenType::Comma),
            '.' => self.add_token(TokenType::Dot),
            '-' => self.add_token(TokenType::Minus),
            '+' => self.add_token(TokenType::Plus),
            ';' => self.add_token(TokenType::Semicolon),
            '*' => self.add_token(TokenType::Star),
            '!' => {
                let t = if self.match_char('=') {
                    TokenType::BangEqual
                } else {
                    TokenType::Bang
                };
                self.add_token(t);
            },
            '=' => {
                let t = if self.match_char('=') {
                    TokenType::EqualEqual
                } else {
                    TokenType::Equal
                };
                self.add_token(t);
            },
            '<' => {
                let t = if self.match_char('=') {
                    TokenType::LessEqual
                } else {
                    TokenType::Less
                };
                self.add_token(t);
            },
            '>' => {
                let t = if self.match_char('=') {
                    TokenType::GreaterEqual
                } else {
                    TokenType::Greater
                };
                self.add_token(t);
            },
            '/' => {
                if self.match_char('/') {
                    while self.peek() != '\n' && !self.is_at_end()
                        invariant
                            self.wf(),
                            self.same_input(old(self)),
                            self.tokens@ == old(self).tokens@,
                            self.line == old(self).line,
                            old(self).start + 2 <= self.current <= self.source@.len(),
                            line_end(self.source@, old(self).start + 2) == line_end(
                                self.source@,
                                self.current as int,
                            ),
                        decreases self.source@.len() - self.current,
                    {
                        self.advance();
                    }
                } else {
                    self.add_token(TokenType::Slash);
                }
            },
            ' ' | '\r' | '\t' => {},
            '\n' => self.line += 1,
            '"' => return self.string(),
            c => {
                if is_digit(c) {
                    return self.number(parse);
                } else if is_alpha(c) {
                    return self.identifier();
                } else {
                    return Err(ScanError::BadChar { line: self.line, c });
                }
            },
        }
        Ok(())
    }

    /// Scans the rest of an identifier or reserved word.
    fn identifier(&mut self) -> (r: Result<(), ScanError>)
        requires
            old(self).wf(),
            old(self).current == old(self).start + 1,
            old(self).start < old(self).source@.len(),
        ensures
            final(self).wf(),
            final(self).same_input(old(self)),
            final(self).current > old(self).start,
            stepped(
                *old(self),
                *final(self),
                r,
                identifier_step(old(self).source@, old(self).start as int, old(self).line as nat),
            ),
    {
        while is_alpha_num(self.peek())
            invariant
                self.wf(),
                self.same_input(old(self)),
                self.tokens@ == old(self).tokens@,
                self.line == old(self).line,
                old(self).start + 1 <= self.current <= self.source@.len(),
                alnum_end(self.source@, old(self).start + 1) == alnum_end(
                    self.source@,
                    self.current as int,
                ),
            decreases self.source@.len() - self.current,
        {
            self.advance();
        }
        match keyword_lookup(&self.kws, self.source.as_slice(), self.start, self.current) {
            Some(t) => self.add_token(t),
            None => {
                let text = string_of(self.source.as_slice(), self.start, self.current);
                self.add_literal_token(TokenType::Identifier, Some(LiteralVal::IdentifierVal(text)));
            },
        }
        Ok(())
    }

    /// Scans the rest of a number literal and reads its value with `parse`.
    fn number<P: Fn(&str) -> Option<u64>>(&mut self, parse: &P) -> (r: Result<(), ScanError>)
        requires
            old(self).wf(),
            old(self).current == old(self).start + 1,
            old(self).start < old(self).source@.len(),
            forall|s: &str| parse.requires((s,)),
        ensures
            final(self).wf(),
            final(self).same_input(old(self)),
            final(self).current > old(self).start,
            forall|pf: spec_fn(Seq<char>) -> Option<u64>|
                #[trigger] reads_numbers_as(*parse, pf) ==> stepped(
                    *old(self),
                    *final(self),
                    r,
                    number_step(old(self).source@, old(self).start as int, old(self).line as nat, pf),
                ),
    {
        while is_digit(self.peek())
            invariant
                self.wf(),
                self.same_input(old(self)),
                self.tokens@ == old(self).tokens@,
                self.line == old(self).line,
                old(self).start + 1 <= self.current <= self.source@.len(),
                digits_end(self.source@, old(self).start + 1) == digits_end(
                    self.source@,
                    self.current as int,
                ),
            decreases self.source@.len() - self.current,
        {
            self.advance();
        }
        if self.peek() == '.' && is_digit(self.peek_next()) {
            self.advance();
            let ghost j = self.current;
            while is_digit(self.peek())
                invariant
                    self.wf(),
                    self.same_input(old(self)),
                    self.tokens@ == old(self).tokens@,
                    self.line == old(self).line,
                    j <= self.current <= self.source@.len(),
                    digits_end(self.source@, j as int) == digits_end(
                        self.source@,
                        self.current as int,
                    ),
                decreases self.source@.len() - self.current,
            {
                self.advance();
            }
        }
        let text = string_of(self.source.as_slice(), self.start, self.current);
        let v = parse(text.as_str());
        match v {
            Some(b) => {
                self.add_literal_token(TokenType::Number, Some(LiteralVal::FVal(b)));
                Ok(())
            },
            None => Err(ScanError::NumberParse { text }),
        }
    }

    /// Scans the rest of a string literal, counting the newlines inside it.
    fn string(&mut self) -> (r: Result<(), ScanError>)
        requires
            old(self).wf(),
            old(self).current == old(self).start + 1,
            old(self).start < old(self).source@.len(),
        ensures
            final(self).wf(),
            final(self).same_input(old(self)),
            final(self).current > old(self).start,
            stepped(
                *old(self),
                *final(self),
                r,
                string_step(old(self).source@, old(self).start as int, old(self).line as nat),
            ),
    {
        let ghost src = self.source@;
        let ghost s0 = self.start + 1;
        while self.peek() != '"' && !self.is_at_end()
            invariant
                self.wf(),
                self.same_input(old(self)),
                self.tokens@ == old(self).tokens@,
                s0 == old(self).start + 1,
                s0 <= self.current <= src.len(),
                src == self.source@,
                self.line == old(self).line + newlines(src.subrange(s0, self.current as int)),
                quote_end(src, s0) == quote_end(src, self.current as int),
            decreases src.len() - self.current,
        {
            let c = self.advance_in_string(Ghost(s0 as int));
            if c == '\\' && !self.is_at_end() {
                self.advance_in_string(Ghost(s0 as int));
            }
        }
        if self.is_at_end() {
            return Err(ScanError::UnterminatedString { line: self.line });
        }
        self.advance();
        let v = string_of(self.source.as_slice(), self.start + 1, self.current - 1);
        self.add_literal_token(TokenType::StringLit, Some(LiteralVal::StringVal(v)));
        Ok(())
    }

    /// Moves past one character of a string literal that started before `s0`, counting it
    /// when it is a newline.
    fn advance_in_string(&mut self, Ghost(s0): Ghost<int>) -> (c: char)
        requires
            old(self).wf(),
            old(self).current < old(self).source@.len(),
            0 <= s0 <= old(self).current,
        ensures
            final(self).wf(),
            final(self).same_input(old(self)),
            final(self).tokens@ == old(self).tokens@,
            final(self).current == old(self).current + 1,
            c == old(self).source@[old(self).current as int],
            final(self).line == old(self).line + newlines(
                old(self).source@.subrange(s0, old(self).current + 1),
            ) - newlines(old(self).source@.subrange(s0, old(self).current as int)),
    {
        let ghost src = self.source@;
        proof {
            lemma_newlines_push(src.subrange(s0, self.current as int), src[self.current as int]);
            assert(src.subrange(s0, self.current + 1) =~= src.subrange(
                s0,
                self.current as int,
            ).push(src[self.current as int]));
        }
        let c = self.advance();
        if c == '\n' {
            self.line += 1;
        }
        c
    }

    fn peek(&self) -> (r: char)
        ensures
            r == char_at(self.source@, self.current as int),
    {
        if self.is_at_end() {
            '\0'
        } else {
            self.source[self.current]
        }
    }

    fn peek_next(&self) -> (r: char)
        requires
            self.wf(),
        ensures
            r == char_at(self.source@, self.current + 1),
    {
        if self.current + 1 >= self.source.len() {
            '\0'
        } else {
            self.source[self.current + 1]
        }
    }

    /// Moves past `expect` when it comes next.
    fn match_char(&mut self, expect: char) -> (r: bool)
        requires
            old(self).wf(),
        ensures
            final(self).wf(),
            final(self).same_input(old(self)),
            final(self).tokens@ == old(self).tokens@,
            final(self).line == old(self).line,
            r == (old(self).current < old(self).source@.len() && old(self).source@[old(
                self,
            ).current as int] == expect),
            final(self).current == old(self).current + if r {
                1int
            } else {
                0int
            },
    {
        if self.is_at_end() {
            return false;
        }
        if self.source[self.current] != expect {
            false
        } else {
            self.current += 1;
            true
        }
    }

    fn advance(&mut self) -> (c: char)
        requires
            old(self).wf(),
            old(self).current < old(self).source@.len(),
        ensures
            final(self).wf(),
            final(self).same_input(old(self)),
            final(self).tokens@ == old(self).tokens@,
            final(self).line == old(self).line,
            final(self).current == old(self).current + 1,
            c == old(self).source@[old(self).current as int],
    {
        let c = self.source[self.current];
        self.current += 1;
        c
    }

    fn add_token(&mut self, token_type: TokenType)
        requires
            old(self).wf(),
            literal_free(token_type),
        ensures
            final(self).wf(),
            final(self).same_input(old(self)),
            final(self).current == old(self).current,
            final(self).line == old(self).line,
            tokens_view(final(self).tokens@) == tokens_view(old(self).tokens@).push(
                token_at(
                    token_type,
                    old(self).source@,
                    old(self).start as int,
                    old(self).current as int,
                    None,
                    old(self).line as nat,
                ),
            ),
    {
        self.add_literal_token(token_type, None);
    }

    fn add_literal_token(&mut self, token_type: TokenType, literal: Option<LiteralVal>)
        requires
            old(self).wf(),
            token_type == TokenType::Number ==> (literal matches Some(LiteralVal::FVal(_))),
            token_type == TokenType::StringLit ==> (literal matches Some(LiteralVal::StringVal(_))),
        ensures
            final(self).wf(),
            final(self).same_input(old(self)),
            final(self).current == old(self).current,
            final(self).line == old(self).line,
            tokens_view(final(self).tokens@) == tokens_view(old(self).tokens@).push(
                token_at(
                    token_type,
                    old(self).source@,
                    old(self).start as int,
                    old(self).current as int,
                    payload_view(literal),
                    old(self).line as nat,
                ),
            ),
    {
        let text = string_of(self.source.as_slice(), self.start, self.current);
        let ghost before = self.tokens@;
        self.tokens.push(Token { token_type, lexeme: text, literal, line_num: self.line });
        proof {
            assert(self.tokens@ =~= before.push(self.tokens@.last()));
            assert(tokens_view(self.tokens@) =~= tokens_view(before).push(
                token_at(
                    token_type,
                    self.source@,
                    self.start as int,
                    self.current as int,
                    payload_view(literal),
                    self.line as nat,
                ),
            ));
        }
    }
}

} // verus!

verus! {

// ---------------------------------------------------------------- text forms

/// The name of a token kind, as `{:?}` prints it.
pub open spec fn kind_text(k: TokenType) -> Seq<char> {
    match k {
        TokenType::LParen => "LParen"@,
        TokenType::RParen => "RParen"@,
        TokenType::LBrace => "LBrace"@,
        TokenType::RBrace => "RBrace"@,
        TokenType::Comma => "Comma"@,
        TokenType::Dot => "Dot"@,
        TokenType::Minus => "Minus"@,
        TokenType::Plus => "Plus"@,
        TokenType::Semicolon => "Semicolon"@,
        TokenType::Slash => "Slash"@,
        TokenType::Star => "Star"@,
        TokenType::Bang => "Bang"@,
        TokenType::BangEqual => "BangEqual"@,
        TokenType::Equal => "Equal"@,
        TokenType::EqualEqual => "EqualEqual"@,
        TokenType::Greater => "Greater"@,
        TokenType::GreaterEqual => "GreaterEqual"@,
        TokenType::Less => "Less"@,
        TokenType::LessEqual => "LessEqual"@,
        TokenType::Identifier => "Identifier"@,
        TokenType::StringLit => "StringLit"@,
        TokenType::Number => "Number"@,
        TokenType::And => "And"@,
        TokenType::Class => "Class"@,
        TokenType::Else => "Else"@,
        TokenType::False => "False"@,
        TokenType::Fun => "Fun"@,
        TokenType::For => "For"@,
        TokenType::If => "If"@,
        TokenType::Nil => "Nil"@,
        TokenType::Or => "Or"@,
        TokenType::Print => "Print"@,
        TokenType::Return => "Return"@,
        TokenType::Super => "Super"@,
        TokenType::This => "This"@,
        TokenType::True => "True"@,
        TokenType::Var => "Var"@,
        TokenType::While => "While"@,
        TokenType::Eof => "Eof"@,
    }
}

/// How a payload prints with `{:?}`, with `show` giving the text of a number.
pub open spec fn payload_text(p: Option<Payload>, show: spec_fn(u64) -> Seq<char>) -> Seq<char> {
    match p {
        None => "None"@,
        Some(Payload::Int(i)) => "Some(IntVal("@ + signed_decimal(i as int) + "))"@,
        Some(Payload::Float(x)) => "Some(FVal("@ + show(x) + "))"@,
        Some(Payload::Str(s)) => "Some(StringVal("@ + quoted_of(s) + "))"@,
        Some(Payload::Ident(s)) => "Some(IdentifierVal("@ + quoted_of(s) + "))"@,
    }
}

/// The text form of a token: kind, lexeme and payload, separated by spaces.
pub open spec fn token_text(t: TokenV, show: spec_fn(u64) -> Seq<char>) -> Seq<char> {
    kind_text(t.kind) + " "@ + t.lexeme + " "@ + payload_text(t.literal, show)
}

impl TokenType {
    /// The kind's name.
    pub fn name(&self) -> (r: &'static str)
        ensures
            r@ == kind_text(*self),
    {
        match self {
            TokenType::LParen => "LParen",
            TokenType::RParen => "RParen",
            TokenType::LBrace => "LBrace",
            TokenType::RBrace => "RBrace",
            TokenType::Comma => "Comma",
            TokenType::Dot => "Dot",
            TokenType::Minus => "Minus",
            TokenType::Plus => "Plus",
            TokenType::Semicolon => "Semicolon",
            TokenType::Slash => "Slash",
            TokenType::Star => "Star",
            TokenType::Bang => "Bang",
            TokenType::BangEqual => "BangEqual",
            TokenType::Equal => "Equal",
            TokenType::EqualEqual => "EqualEqual",
            TokenType::Greater => "Greater",
            TokenType::GreaterEqual => "GreaterEqual",
            TokenType::Less => "Less",
            TokenType::LessEqual => "LessEqual",
            TokenType::Identifier => "Identifier",
            TokenType::StringLit => "StringLit",
            TokenType::Number => "Number",
            TokenType::And => "And",
            TokenType::Class => "Class",
            TokenType::Else => "Else",
            TokenType::False => "False",
            TokenType::Fun => "Fun",
            TokenType::For => "For",
            TokenType::If => "If",
            TokenType::Nil => "Nil",
            TokenType::Or => "Or",
            TokenType::Print => "Print",
            TokenType::Return => "Return",
            TokenType::Super => "Super",
            TokenType::This => "This",
            TokenType::True => "True",
            TokenType::Var => "Var",
            TokenType::While => "While",
            TokenType::Eof => "Eof",
        }
    }
}

impl Token {
    /// The text form of the token: kind, lexeme and payload; `show` gives the text of a
    /// number.
    pub fn to_string<S: Fn(u64) -> String>(&self, show: &S) -> (r: String)
        requires
            forall|x: u64| show.requires((x,)),
        ensures
            forall|g: spec_fn(u64) -> Seq<char>| #[trigger]
                shows_as(*show, g) ==> r@ == token_text(self@, g),
    {
        let mut out = String::from_str(self.token_type.name());
        append_str(&mut out, " ");
        append_str(&mut out, self.lexeme.as_str());
        append_str(&mut out, " ");
        match &self.literal {
            None => append_str(&mut out, "None"),
            Some(LiteralVal::IntVal(i)) => {
                let text = signed_decimal_text(*i);
                append_str(&mut out, "Some(IntVal(");
                append_str(&mut out, text.as_str());
                append_str(&mut out, "))");
            },
            Some(LiteralVal::FVal(x)) => {
                let text = show(*x);
                append_str(&mut out, "Some(FVal(");
                append_str(&mut out, text.as_str());
                append_str(&mut out, "))");
            },
            Some(LiteralVal::StringVal(s)) => {
                let text = debug_quoted(s.as_str());
                append_str(&mut out, "Some(StringVal(");
                append_str(&mut out, text.as_str());
                append_str(&mut out, "))");
            },
            Some(LiteralVal::IdentifierVal(s)) => {
                let text = debug_quoted(s.as_str());
                append_str(&mut out, "Some(IdentifierVal(");
                append_str(&mut out, text.as_str());
                append_str(&mut out, "))");
            },
        }
        out
    }
}

} // verus!
