//! The scanner itself: a forward-only pull of tokens over an in-memory
//! source text, verified against the model in [`crate::scan_model`].

use crate::scan_model::digit_end;
use crate::scan_model::ident_end;
use crate::scan_model::is_digit;
use crate::scan_model::is_ident_char;
use crate::scan_model::is_ident_start;
use crate::scan_model::keyword_kind;
use crate::scan_model::lemma_next_spec_advances;
use crate::scan_model::next_spec;
use crate::scan_model::scan_model;
use crate::scan_model::skip_ws;
use crate::scan_model::skip_ws_at;
use crate::scan_model::string_end;
use crate::scan_model::token_at;
use crate::scan_model::ItemModel;
use crate::token::Token;
use crate::token::TokenType;
use vstd::prelude::*;
use vstd::string::StringExecFns;

verus! {

/// Relies on `String::push`: it appends the given character to the end of
/// the string.
#[verifier::external_body]
fn push_char(s: &mut String, c: char)
    ensures
        final(s)@ == old(s)@.push(c),
{
    s.push(c);
}

/// A one-character string.
fn char_lexeme(c: char) -> (s: String)
    ensures
        s@ == seq![c],
{
    let mut s = String::new();
    push_char(&mut s, c);
    proof {
        assert(s@ =~= seq![c]);
    }
    s
}

/// A two-character string.
fn two_char_lexeme(a: char, b: char) -> (s: String)
    ensures
        s@ == seq![a, b],
{
    let mut s = String::new();
    push_char(&mut s, a);
    push_char(&mut s, b);
    proof {
        assert(s@ =~= seq![a, b]);
    }
    s
}

/// The characters `v[from..to]` as a string.
fn string_of_range(v: &Vec<char>, from: usize, to: usize) -> (s: String)
    requires
        from <= to <= v@.len(),
    ensures
        s@ == v@.subrange(from as int, to as int),
{
    let mut s = String::new();
    let mut i: usize = from;
    while i < to
        invariant
            from <= i <= to <= v@.len(),
            s@ == v@.subrange(from as int, i as int),
        decreases to - i,
    {
        push_char(&mut s, v[i]);
        proof {
            assert(v@.subrange(from as int, i as int).push(v@[i as int]) =~= v@.subrange(
                from as int,
                i as int + 1,
            ));
        }
        i += 1;
    }
    s
}

/// Whether `c` is a decimal digit.
fn digit(c: char) -> (b: bool)
    ensures
        b == is_digit(c),
{
    '0' as u32 <= c as u32 && c as u32 <= '9' as u32
}

/// Whether `c` may begin an identifier.
fn ident_start(c: char) -> (b: bool)
    ensures
        b == is_ident_start(c),
{
    ('a' as u32 <= c as u32 && c as u32 <= 'z' as u32) || ('A' as u32 <= c as u32 && c as u32
        <= 'Z' as u32) || c == '_'
}

/// Whether `c` may continue an identifier.
fn ident_char(c: char) -> (b: bool)
    ensures
        b == is_ident_char(c),
{
    ident_start(c) || digit(c)
}

/// Classify a maximal identifier run against the reserved words.
fn classify(lexeme: &String) -> (kind: TokenType)
    ensures
        kind == keyword_kind(lexeme@),
{
    if *lexeme == String::from_str("and") {
        TokenType::And
    } else if *lexeme == String::from_str("class") {
        TokenType::Class
    } else if *lexeme == String::from_str("else") {
        TokenType::Else
    } else if *lexeme == String::from_str("false") {
        TokenType::False
    } else if *lexeme == String::from_str("fun") {
        TokenType::Fun
    } else if *lexeme == String::from_str("for") {
        TokenType::For
    } else if *lexeme == String::from_str("if") {
        TokenType::If
    } else if *lexeme == String::from_str("nil") {
        TokenType::Nil
    } else if *lexeme == String::from_str("or") {
        TokenType::Or
    } else if *lexeme == String::from_str("print") {
        TokenType::Print
    } else if *lexeme == String::from_str("return") {
        TokenType::Return
    } else if *lexeme == String::from_str("super") {
        TokenType::Super
    } else if *lexeme == String::from_str("this") {
        TokenType::This
    } else if *lexeme == String::from_str("true") {
        TokenType::True
    } else if *lexeme == String::from_str("var") {
        TokenType::Var
    } else if *lexeme == String::from_str("while") {
        TokenType::While
    } else {
        TokenType::Identifier
    }
}

/// One unrecoverable-at-that-point lexical fault: the line it was found on
/// and a human-readable description. The scanner goes on scanning after
/// reporting one.
#[derive(Debug)]
pub struct ScannerError {
    pub line: usize,
    pub desc: String,
}

/// The scanner's state: the source text as characters, the cursor, the
/// accumulation buffer used while inside a string literal, and the 1-based
/// line counter.
#[derive(Debug)]
pub struct Scanner {
    chars: Vec<char>,
    pos: usize,
    buff: Vec<char>,
    line: usize,
}

/// The abstract state of a scanner: the source text, the cursor position and
/// the line counter.
pub struct ScannerModel {
    pub src: Seq<char>,
    pub pos: nat,
    pub line: nat,
}

impl View for Scanner {
    type V = ScannerModel;

    closed spec fn view(&self) -> ScannerModel {
        ScannerModel { src: self.chars@, pos: self.pos as nat, line: self.line as nat }
    }
}

/// Whether an item the scanner returned is the one the model calls for.
pub open spec fn item_matches(r: Result<Token, ScannerError>, m: ItemModel) -> bool {
    match m {
        ItemModel::Tok { kind, lexeme, line } => r matches Ok(t) && t.kind == kind && t.lexeme@
            == lexeme && t.line == line && t.value is None,
        ItemModel::Fault { line, desc } => r matches Err(e) && e.line == line && e.desc@ == desc,
    }
}

/// Whether one pull's outcome is the one the model calls for.
pub open spec fn step_matches(
    r: Option<Result<Token, ScannerError>>,
    m: Option<ItemModel>,
) -> bool {
    match m {
        None => r is None,
        Some(item) => r matches Some(inner) && item_matches(inner, item),
    }
}

impl Scanner {
    /// The scanner's internal invariant: the cursor is inside the source, the
    /// line counter is at least 1 and cannot overflow on the characters that
    /// remain, and the string buffer is empty between pulls.
    pub closed spec fn wf(&self) -> bool {
        &&& self.pos <= self.chars.len()
        &&& 1 <= self.line
        &&& self.line + self.chars@.len() - self.pos as int <= usize::MAX
        &&& self.buff@ == Seq::<char>::empty()
    }

    /// A fresh scanner over `source`: cursor at the start, line counter 1.
    pub fn new(source: Vec<char>) -> (s: Scanner)
        requires
            source@.len() < usize::MAX,
        ensures
            s.wf(),
            s@ == (ScannerModel { src: source@, pos: 0, line: 1 }),
    {
        Scanner { chars: source, pos: 0, buff: Vec::new(), line: 1 }
    }

    /// A token carrying no literal payload, on the current line.
    fn empty_token(&self, kind: TokenType, lexeme: String) -> (r: Option<
        Result<Token, ScannerError>,
    >)
        ensures
            r == Some(
                Ok::<Token, ScannerError>(
                    Token { kind, lexeme, line: self.line, value: None },
                ),
            ),
    {
        Some(Ok(Token { kind, lexeme, line: self.line, value: None }))
    }

    /// A token on the current line.
    fn token(&self, kind: TokenType, lexeme: String) -> (r: Option<Result<Token, ScannerError>>)
        ensures
            r == Some(
                Ok::<Token, ScannerError>(
                    Token { kind, lexeme, line: self.line, value: None },
                ),
            ),
    {
        Some(Ok(Token { kind, lexeme, line: self.line, value: None }))
    }

    /// A fault on the current line with the given description.
    fn scan_err(&self, message: &str) -> (r: Option<Result<Token, ScannerError>>)
        ensures
            r matches Some(Err(e)) && e.line == self.line && e.desc@ == message@,
    {
        Some(Err(ScannerError { line: self.line, desc: message.to_owned() }))
    }

    /// Discard blanks, newlines (bumping the line counter) and line comments,
    /// stopping at the first character of the next item or at the end of the
    /// source.
    #[verifier::loop_isolation(false)]
    fn skip_discard(&mut self)
        requires
            old(self).wf(),
        ensures
            final(self).wf(),
            final(self)@.src == old(self)@.src,
            (final(self)@.pos, final(self)@.line) == skip_ws(
                old(self)@.src,
                old(self)@.pos,
                old(self)@.line,
            ),
    {
        let ghost src = self.chars@;
        let ghost target = skip_ws(src, self.pos as nat, self.line as nat);
        let mut in_comment: bool = false;
        loop
            invariant
                self.pos <= self.chars.len(),
                1 <= self.line,
                self.line + self.chars@.len() - self.pos as int <= usize::MAX,
                self.buff@ == Seq::<char>::empty(),
                self.chars@ == src,
                skip_ws_at(src, self.pos as nat, self.line as nat, in_comment) == target,
            decreases src.len() - self.pos,
        {
            if self.pos >= self.chars.len() {
                return ;
            }
            let c = self.chars[self.pos];
            if in_comment {
                if c == '\n' {
                    self.line = self.line + 1;
                    in_comment = false;
                }
                self.pos = self.pos + 1;
            } else if c == ' ' || c == '\t' || c == '\r' {
                self.pos = self.pos + 1;
            } else if c == '\n' {
                self.line = self.line + 1;
                self.pos = self.pos + 1;
            } else if c == '/' && self.pos + 1 < self.chars.len() && self.chars[self.pos + 1]
                == '/' {
                self.pos = self.pos + 2;
                in_comment = true;
            } else {
                return ;
            }
        }
    }

    /// Pull the next item: `Some(Ok(token))`, `Some(Err(fault))`, or `None`
    /// once the source is exhausted. Exactly the step the model
    /// [`next_spec`] describes: discarded characters are consumed, the
    /// cursor only moves forward, and after a fault the next pull resumes
    /// at the character following it.
    #[verifier::loop_isolation(false)]
    pub fn next(&mut self) -> (r: Option<Result<Token, ScannerError>>)
        requires
            old(self).wf(),
        ensures
            final(self).wf(),
            final(self)@.src == old(self)@.src,
            final(self)@.pos == next_spec(old(self)@.src, old(self)@.pos, old(self)@.line).pos,
            final(self)@.line == next_spec(old(self)@.src, old(self)@.pos, old(self)@.line).line,
            step_matches(r, next_spec(old(self)@.src, old(self)@.pos, old(self)@.line).item),
    {
        self.skip_discard();
        let ghost src = self.chars@;
        let ghost step = next_spec(old(self)@.src, old(self)@.pos, old(self)@.line);
        proof {
            assert(step == token_at(src, self.pos as nat, self.line as nat));
        }
        if self.pos >= self.chars.len() {
            return None;
        }
        let c = self.chars[self.pos];
        if c == '{' {
            self.pos = self.pos + 1;
            self.empty_token(TokenType::LeftBrace, char_lexeme(c))
        } else if c == '}' {
            self.pos = self.pos + 1;
            self.empty_token(TokenType::RightBrace, char_lexeme(c))
        } else if c == '(' {
            self.pos = self.pos + 1;
            self.empty_token(TokenType::LeftParen, char_lexeme(c))
        } else if c == ')' {
            self.pos = self.pos + 1;
            self.empty_token(TokenType::RightParen, char_lexeme(c))
        } else if c == '+' {
            self.pos = self.pos + 1;
            self.empty_token(TokenType::Plus, char_lexeme(c))
        } else if c == ',' {
            self.pos = self.pos + 1;
            self.empty_token(TokenType::Comma, char_lexeme(c))
        } else if c == '.' {
            self.pos = self.pos + 1;
            self.empty_token(TokenType::Dot, char_lexeme(c))
        } else if c == '-' {
            self.pos = self.pos + 1;
            self.empty_token(TokenType::Minus, char_lexeme(c))
        } else if c == ';' {
            self.pos = self.pos + 1;
            self.empty_token(TokenType::Semicolon, char_lexeme(c))
        } else if c == '*' {
            self.pos = self.pos + 1;
            self.empty_token(TokenType::Star, char_lexeme(c))
        } else if c == '=' {
            if self.pos + 1 < self.chars.len() && self.chars[self.pos + 1] == '=' {
                self.pos = self.pos + 2;
                self.empty_token(TokenType::EqualEqual, two_char_lexeme(c, '='))
            } else {
                self.pos = self.pos + 1;
                self.empty_token(TokenType::Equal, char_lexeme(c))
            }
        } else if c == '!' {
            if self.pos + 1 < self.chars.len() && self.chars[self.pos + 1] == '=' {
                self.pos = self.pos + 2;
                self.empty_token(TokenType::BangEqual, two_char_lexeme(c, '='))
            } else {
                self.pos = self.pos + 1;
                self.empty_token(TokenType::Bang, char_lexeme(c))
            }
        } else if c == '<' {
            if self.pos + 1 < self.chars.len() && self.chars[self.pos + 1] == '=' {
                self.pos = self.pos + 2;
                self.empty_token(TokenType::LessEqual, two_char_lexeme(c, '='))
            } else {
                self.pos = self.pos + 1;
                self.empty_token(TokenType::Less, char_lexeme(c))
            }
        } else if c == '>' {
            if self.pos + 1 < self.chars.len() && self.chars[self.pos + 1] == '=' {
                self.pos = self.pos + 2;
                self.empty_token(TokenType::GreaterEqual, two_char_lexeme(c, '='))
            } else {
                self.pos = self.pos + 1;
                self.empty_token(TokenType::Greater, char_lexeme(c))
            }
        } else if c == '/' {
            // A `//` comment was already discarded, so a `/` here is a token.
            self.pos = self.pos + 1;
            self.empty_token(TokenType::Slash, char_lexeme(c))
        } else if c == '"' {
            self.pos = self.pos + 1;
            let ghost start = self.pos as nat;
            loop
                invariant
                    start <= self.pos as nat <= src.len(),
                    self.chars@ == src,
                    self.line as nat == step.line,
                    1 <= self.line,
                    self.line + self.chars@.len() - self.pos as int + 1 <= usize::MAX,
                    self.buff@ == src.subrange(start as int, self.pos as int),
                    string_end(src, start) == string_end(src, self.pos as nat),
                decreases src.len() - self.pos,
            {
                if self.pos >= self.chars.len() {
                    self.buff.clear();
                    return self.scan_err("Unterminated string literal");
                }
                let ch = self.chars[self.pos];
                if ch == '"' {
                    let lexeme = string_of_range(&self.buff, 0, self.buff.len());
                    proof {
                        assert(self.buff@.subrange(0, self.buff@.len() as int) =~= self.buff@);
                    }
                    let r = self.token(TokenType::String, lexeme);
                    self.pos = self.pos + 1;
                    self.buff.clear();
                    return r;
                }
                self.buff.push(ch);
                self.pos = self.pos + 1;
                proof {
                    assert(src.subrange(start as int, self.pos as int - 1).push(
                        src[self.pos as int - 1],
                    ) =~= src.subrange(start as int, self.pos as int));
                }
            }
        } else if digit(c) {
            let nstart = self.pos;
            loop
                invariant
                    nstart <= self.pos as nat <= src.len(),
                    self.chars@ == src,
                    self.line as nat == step.line,
                    1 <= self.line,
                    self.line + self.chars@.len() - self.pos as int <= usize::MAX,
                    self.buff@ == Seq::<char>::empty(),
                    digit_end(src, nstart as nat)
                        == digit_end(src, self.pos as nat),
                decreases src.len() - self.pos,
            {
                if self.pos < self.chars.len() && digit(self.chars[self.pos]) {
                    self.pos = self.pos + 1;
                } else {
                    break ;
                }
            }
            if self.pos < self.chars.len() && self.chars[self.pos] == '.' && self.pos + 1
                < self.chars.len() && digit(self.chars[self.pos + 1]) {
                self.pos = self.pos + 1;
                let ghost fstart = self.pos as nat;
                loop
                    invariant
                        fstart <= self.pos as nat <= src.len(),
                        self.chars@ == src,
                        self.line as nat == step.line,
                        1 <= self.line,
                        self.line + self.chars@.len() - self.pos as int <= usize::MAX,
                        self.buff@ == Seq::<char>::empty(),
                        digit_end(src, fstart)
                            == digit_end(src, self.pos as nat),
                    decreases src.len() - self.pos,
                {
                    if self.pos < self.chars.len() && digit(self.chars[self.pos]) {
                        self.pos = self.pos + 1;
                    } else {
                        break ;
                    }
                }
            }
            let lexeme = string_of_range(&self.chars, nstart, self.pos);
            self.token(TokenType::Number, lexeme)
        } else if ident_start(c) {
            let istart = self.pos;
            loop
                invariant
                    istart <= self.pos as nat <= src.len(),
                    self.chars@ == src,
                    self.line as nat == step.line,
                    1 <= self.line,
                    self.line + self.chars@.len() - self.pos as int <= usize::MAX,
                    self.buff@ == Seq::<char>::empty(),
                    ident_end(src, istart as nat)
                        == ident_end(src, self.pos as nat),
                decreases src.len() - self.pos,
            {
                if self.pos < self.chars.len() && ident_char(self.chars[self.pos]) {
                    self.pos = self.pos + 1;
                } else {
                    break ;
                }
            }
            let lexeme = string_of_range(&self.chars, istart, self.pos);
            let kind = classify(&lexeme);
            self.token(kind, lexeme)
        } else {
            self.pos = self.pos + 1;
            self.scan_err("invalid character")
        }
    }
}

/// Whether a returned item sequence is, item for item, the one the model
/// calls for.
pub open spec fn items_match(rs: Seq<Result<Token, ScannerError>>, ms: Seq<ItemModel>) -> bool {
    rs.len() == ms.len() && (forall|i: int| 0 <= i < rs.len() ==> item_matches(rs[i], ms[i]))
}

/// Scan a whole source text to exhaustion: every token and every fault, in
/// order, as the model [`scan_model`] describes them.
#[verifier::loop_isolation(false)]
pub fn scan_tokens(source: Vec<char>) -> (items: Vec<Result<Token, ScannerError>>)
    requires
        source@.len() < usize::MAX,
    ensures
        items_match(items@, scan_model(source@, 0, 1)),
{
    let ghost src = source@;
    let mut scanner = Scanner::new(source);
    let mut items: Vec<Result<Token, ScannerError>> = Vec::new();
    let ghost mut done: Seq<ItemModel> = Seq::empty();
    proof {
        assert(Seq::<ItemModel>::empty() + scan_model(src, 0, 1) =~= scan_model(src, 0, 1));
    }
    loop
        invariant
            scanner.wf(),
            scanner@.src == src,
            items_match(items@, done),
            scan_model(src, 0, 1) == done + scan_model(src, scanner@.pos, scanner@.line),
        decreases src.len() - scanner@.pos,
    {
        let ghost pos = scanner@.pos;
        let ghost line = scanner@.line;
        let r = scanner.next();
        proof {
            lemma_next_spec_advances(src, pos, line);
        }
        match r {
            None => {
                proof {
                    assert(done + scan_model(src, pos, line) =~= done);
                }
                return items;
            },
            Some(item) => {
                proof {
                    let step = next_spec(src, pos, line);
                    let m = step.item.unwrap();
                    let rest = scan_model(src, step.pos, step.line);
                    assert(scan_model(src, pos, line) == seq![m] + rest);
                    assert(done + (seq![m] + rest) =~= done.push(m) + rest);
                    done = done.push(m);
                }
                items.push(item);
            },
        }
    }
}

} // verus!
