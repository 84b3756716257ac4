//! The mathematical model of the scanner: what one pull of the scanner
//! returns for a given source text, cursor position and line counter, and
//! what the whole scan of a source text yields.
//!
//! Positions are indices into the source as a sequence of characters; lines
//! are 1-based and grow by one for every newline consumed outside a string
//! literal.

use crate::token::TokenType;
use vstd::prelude::*;

verus! {

/// One item of the scan: a token, or a lexical fault.
pub enum ItemModel {
    Tok { kind: TokenType, lexeme: Seq<char>, line: nat },
    Fault { line: nat, desc: Seq<char> },
}

/// The outcome of one pull: the item produced (`None` when the stream is
/// exhausted), and the cursor position and line counter after the pull.
pub struct StepModel {
    pub item: Option<ItemModel>,
    pub pos: nat,
    pub line: nat,
}

/// Characters discarded between tokens without affecting the line counter.
pub open spec fn is_blank(c: char) -> bool {
    c == ' ' || c == '\t' || c == '\r'
}

/// Decimal digits.
pub open spec fn is_digit(c: char) -> bool {
    '0' as u32 <= c as u32 && c as u32 <= '9' as u32
}

/// Characters that may begin an identifier.
pub open spec fn is_ident_start(c: char) -> bool {
    ('a' as u32 <= c as u32 && c as u32 <= 'z' as u32) || ('A' as u32 <= c as u32 && c as u32
        <= 'Z' as u32) || c == '_'
}

/// Characters that may continue an identifier.
pub open spec fn is_ident_char(c: char) -> bool {
    is_ident_start(c) || is_digit(c)
}

/// The punctuation characters that form a token by themselves.
pub open spec fn single_kind(c: char) -> Option<TokenType> {
    if c == '{' {
        Some(TokenType::LeftBrace)
    } else if c == '}' {
        Some(TokenType::RightBrace)
    } else if c == '(' {
        Some(TokenType::LeftParen)
    } else if c == ')' {
        Some(TokenType::RightParen)
    } else if c == '+' {
        Some(TokenType::Plus)
    } else if c == ',' {
        Some(TokenType::Comma)
    } else if c == '.' {
        Some(TokenType::Dot)
    } else if c == '-' {
        Some(TokenType::Minus)
    } else if c == ';' {
        Some(TokenType::Semicolon)
    } else if c == '*' {
        Some(TokenType::Star)
    } else {
        None
    }
}

/// The kind emitted for a lookahead operator that is not followed by `=`.
pub open spec fn lone_kind(c: char) -> TokenType {
    if c == '=' {
        TokenType::Equal
    } else if c == '!' {
        TokenType::Bang
    } else if c == '<' {
        TokenType::Less
    } else {
        TokenType::Greater
    }
}

/// The kind emitted for a lookahead operator that is followed by `=`.
pub open spec fn paired_kind(c: char) -> TokenType {
    if c == '=' {
        TokenType::EqualEqual
    } else if c == '!' {
        TokenType::BangEqual
    } else if c == '<' {
        TokenType::LessEqual
    } else {
        TokenType::GreaterEqual
    }
}

/// Classification of a maximal identifier run: a run spelled exactly like a
/// reserved word is that keyword, anything else is an identifier.
pub open spec fn keyword_kind(s: Seq<char>) -> TokenType {
    if s == "and"@ {
        TokenType::And
    } else if s == "class"@ {
        TokenType::Class
    } else if s == "else"@ {
        TokenType::Else
    } else if s == "false"@ {
        TokenType::False
    } else if s == "fun"@ {
        TokenType::Fun
    } else if s == "for"@ {
        TokenType::For
    } else if s == "if"@ {
        TokenType::If
    } else if s == "nil"@ {
        TokenType::Nil
    } else if s == "or"@ {
        TokenType::Or
    } else if s == "print"@ {
        TokenType::Print
    } else if s == "return"@ {
        TokenType::Return
    } else if s == "super"@ {
        TokenType::Super
    } else if s == "this"@ {
        TokenType::This
    } else if s == "true"@ {
        TokenType::True
    } else if s == "var"@ {
        TokenType::Var
    } else if s == "while"@ {
        TokenType::While
    } else {
        TokenType::Identifier
    }
}

/// Where discarding stops: the position and line after skipping blanks,
/// newlines (each bumping the line counter) and line comments, starting at
/// `pos`. `in_comment` says whether `pos` is inside a line comment already.
pub open spec fn skip_ws_at(src: Seq<char>, pos: nat, line: nat, in_comment: bool) -> (nat, nat)
    decreases src.len() - pos,
{
    if pos >= src.len() {
        (pos, line)
    } else {
        let c = src[pos as int];
        if in_comment {
            if c == '\n' {
                skip_ws_at(src, (pos + 1) as nat, (line + 1) as nat, false)
            } else {
                skip_ws_at(src, (pos + 1) as nat, line, true)
            }
        } else if is_blank(c) {
            skip_ws_at(src, (pos + 1) as nat, line, false)
        } else if c == '\n' {
            skip_ws_at(src, (pos + 1) as nat, (line + 1) as nat, false)
        } else if c == '/' && pos + 1 < src.len() && src[pos as int + 1] == '/' {
            skip_ws_at(src, (pos + 2) as nat, line, true)
        } else {
            (pos, line)
        }
    }
}

/// Discarding from outside any comment: the position of the next token start
/// (or the end of input) and the line counter there.
pub open spec fn skip_ws(src: Seq<char>, pos: nat, line: nat) -> (nat, nat) {
    skip_ws_at(src, pos, line, false)
}

/// The index of the first `"` at or after `pos`, or the length of the source
/// if there is none.
pub open spec fn string_end(src: Seq<char>, pos: nat) -> nat
    decreases src.len() - pos,
{
    if pos >= src.len() {
        src.len()
    } else if src[pos as int] == '"' {
        pos
    } else {
        string_end(src, (pos + 1) as nat)
    }
}

/// The index just past the maximal digit run starting at `pos`.
pub open spec fn digit_end(src: Seq<char>, pos: nat) -> nat
    decreases src.len() - pos,
{
    if pos >= src.len() {
        src.len()
    } else if !is_digit(src[pos as int]) {
        pos
    } else {
        digit_end(src, (pos + 1) as nat)
    }
}

/// The index just past the maximal identifier-character run starting at `pos`.
pub open spec fn ident_end(src: Seq<char>, pos: nat) -> nat
    decreases src.len() - pos,
{
    if pos >= src.len() {
        src.len()
    } else if !is_ident_char(src[pos as int]) {
        pos
    } else {
        ident_end(src, (pos + 1) as nat)
    }
}

/// The index just past a number literal starting at `pos`: a maximal digit
/// run, then one `.` and a second maximal digit run only when at least one
/// digit follows the `.` (a trailing `.` is left for the next pull).
pub open spec fn number_end(src: Seq<char>, pos: nat) -> nat {
    let e = digit_end(src, pos);
    if e < src.len() && src[e as int] == '.' && e + 1 < src.len() && is_digit(
        src[e as int + 1],
    ) {
        digit_end(src, (e + 1) as nat)
    } else {
        e
    }
}

/// A step that produces a token.
pub open spec fn tok_step(kind: TokenType, lexeme: Seq<char>, pos: nat, line: nat) -> StepModel {
    StepModel { item: Some(ItemModel::Tok { kind, lexeme, line }), pos, line }
}

/// The item scanned at `pos` itself, with no discarding: what one pull
/// returns once `pos` points at the first character of the item. Comments
/// are already gone when this applies, so a `/` here is always a `Slash`.
pub open spec fn token_at(src: Seq<char>, pos: nat, line: nat) -> StepModel {
    if pos >= src.len() {
        StepModel { item: None, pos, line }
    } else {
        let c = src[pos as int];
        if single_kind(c) is Some {
            tok_step(single_kind(c).unwrap(), seq![c], (pos + 1) as nat, line)
        } else if c == '=' || c == '!' || c == '<' || c == '>' {
            if pos + 1 < src.len() && src[pos as int + 1] == '=' {
                tok_step(paired_kind(c), seq![c, '='], (pos + 2) as nat, line)
            } else {
                tok_step(lone_kind(c), seq![c], (pos + 1) as nat, line)
            }
        } else if c == '/' {
            tok_step(TokenType::Slash, seq![c], (pos + 1) as nat, line)
        } else if c == '"' {
            let close = string_end(src, (pos + 1) as nat);
            if close < src.len() {
                tok_step(
                    TokenType::String,
                    src.subrange(pos as int + 1, close as int),
                    (close + 1) as nat,
                    line,
                )
            } else {
                StepModel {
                    item: Some(ItemModel::Fault { line, desc: "Unterminated string literal"@ }),
                    pos: close,
                    line,
                }
            }
        } else if is_digit(c) {
            let end = number_end(src, pos);
            tok_step(TokenType::Number, src.subrange(pos as int, end as int), end, line)
        } else if is_ident_start(c) {
            let end = ident_end(src, pos);
            tok_step(
                keyword_kind(src.subrange(pos as int, end as int)),
                src.subrange(pos as int, end as int),
                end,
                line,
            )
        } else {
            StepModel {
                item: Some(ItemModel::Fault { line, desc: "invalid character"@ }),
                pos: (pos + 1) as nat,
                line,
            }
        }
    }
}

/// One pull of the scanner: discard blanks, newlines and comments, then scan
/// the item found there (or report exhaustion).
pub open spec fn next_spec(src: Seq<char>, pos: nat, line: nat) -> StepModel {
    let (p, l) = skip_ws(src, pos, line);
    token_at(src, p, l)
}

/// Bounds of the discard phase: it moves the cursor forward, never past the
/// end, and bumps the line counter by at most one per character consumed.
pub proof fn lemma_skip_ws_at_bounds(src: Seq<char>, pos: nat, line: nat, in_comment: bool)
    requires
        pos <= src.len(),
    ensures
        pos <= skip_ws_at(src, pos, line, in_comment).0 <= src.len(),
        line <= skip_ws_at(src, pos, line, in_comment).1,
        skip_ws_at(src, pos, line, in_comment).1 + src.len() - skip_ws_at(
            src,
            pos,
            line,
            in_comment,
        ).0 <= line + src.len() - pos,
    decreases src.len() - pos,
{
    if pos < src.len() {
        let c = src[pos as int];
        if in_comment {
            if c == '\n' {
                lemma_skip_ws_at_bounds(src, (pos + 1) as nat, (line + 1) as nat, false);
            } else {
                lemma_skip_ws_at_bounds(src, (pos + 1) as nat, line, true);
            }
        } else if is_blank(c) {
            lemma_skip_ws_at_bounds(src, (pos + 1) as nat, line, false);
        } else if c == '\n' {
            lemma_skip_ws_at_bounds(src, (pos + 1) as nat, (line + 1) as nat, false);
        } else if c == '/' && pos + 1 < src.len() && src[pos as int + 1] == '/' {
            lemma_skip_ws_at_bounds(src, (pos + 2) as nat, line, true);
        }
    }
}

/// Bounds of `string_end`: it lies between `pos` and the end of the source,
/// and points at a `"` unless the source ran out.
pub proof fn lemma_string_end(src: Seq<char>, pos: nat)
    requires
        pos <= src.len(),
    ensures
        pos <= string_end(src, pos) <= src.len(),
        string_end(src, pos) < src.len() ==> src[string_end(src, pos) as int] == '"',
        forall|i: int| pos <= i < string_end(src, pos) ==> src[i] != '"',
    decreases src.len() - pos,
{
    if pos < src.len() && src[pos as int] != '"' {
        lemma_string_end(src, (pos + 1) as nat);
    }
}

/// When no closing quote follows, `string_end` is the length of the source.
pub proof fn lemma_string_end_unterminated(src: Seq<char>, pos: nat)
    requires
        pos <= src.len(),
        forall|i: int| pos <= i < src.len() ==> src[i] != '"',
    ensures
        string_end(src, pos) == src.len(),
    decreases src.len() - pos,
{
    if pos < src.len() {
        lemma_string_end_unterminated(src, (pos + 1) as nat);
    }
}

/// Bounds of `digit_end`: it lies between `pos` and the end of the source,
/// everything before it is a digit, and it does not point at a digit.
pub proof fn lemma_digit_end(src: Seq<char>, pos: nat)
    requires
        pos <= src.len(),
    ensures
        pos <= digit_end(src, pos) <= src.len(),
        digit_end(src, pos) < src.len() ==> !is_digit(src[digit_end(src, pos) as int]),
        forall|i: int| pos <= i < digit_end(src, pos) ==> is_digit(src[i]),
    decreases src.len() - pos,
{
    if pos < src.len() && is_digit(src[pos as int]) {
        lemma_digit_end(src, (pos + 1) as nat);
    }
}

/// Bounds of `ident_end`, as for `digit_end`.
pub proof fn lemma_ident_end(src: Seq<char>, pos: nat)
    requires
        pos <= src.len(),
    ensures
        pos <= ident_end(src, pos) <= src.len(),
        ident_end(src, pos) < src.len() ==> !is_ident_char(src[ident_end(src, pos) as int]),
        forall|i: int| pos <= i < ident_end(src, pos) ==> is_ident_char(src[i]),
    decreases src.len() - pos,
{
    if pos < src.len() && is_ident_char(src[pos as int]) {
        lemma_ident_end(src, (pos + 1) as nat);
    }
}

/// One pull moves the cursor forward, strictly so whenever an item came out,
/// exactly to the end when none did, and never moves the line counter by more
/// than one per character consumed.
pub proof fn lemma_next_spec_advances(src: Seq<char>, pos: nat, line: nat)
    requires
        pos <= src.len(),
    ensures
        pos <= next_spec(src, pos, line).pos <= src.len(),
        next_spec(src, pos, line).item is Some ==> next_spec(src, pos, line).pos > pos,
        next_spec(src, pos, line).item is None ==> next_spec(src, pos, line).pos == src.len(),
        line <= next_spec(src, pos, line).line,
        next_spec(src, pos, line).line + src.len() - next_spec(src, pos, line).pos <= line
            + src.len() - pos,
{
    lemma_skip_ws_at_bounds(src, pos, line, false);
    let (p, _l) = skip_ws(src, pos, line);
    if p < src.len() {
        let c = src[p as int];
        if c == '"' {
            lemma_string_end(src, (p + 1) as nat);
        } else if is_digit(c) {
            lemma_digit_end(src, p);
            let e = digit_end(src, p);
            if e < src.len() && src[e as int] == '.' && e + 1 < src.len() && is_digit(
                src[e as int + 1],
            ) {
                lemma_digit_end(src, (e + 1) as nat);
            }
        } else if is_ident_start(c) {
            lemma_ident_end(src, p);
        }
    }
}

/// The items yielded by scanning `src` to exhaustion from the given cursor
/// position and line counter.
pub open spec fn scan_model(src: Seq<char>, pos: nat, line: nat) -> Seq<ItemModel>
    decreases src.len() - pos,
    when pos <= src.len()
    via scan_model_decreases
{
    let step = next_spec(src, pos, line);
    match step.item {
        None => Seq::empty(),
        Some(item) => seq![item] + scan_model(src, step.pos, step.line),
    }
}

#[via_fn]
proof fn scan_model_decreases(src: Seq<char>, pos: nat, line: nat) {
    lemma_next_spec_advances(src, pos, line);
}

/// The source text a token stands for: its lexeme, with the delimiting quotes
/// restored around a string literal (a string token's lexeme is the text
/// between the quotes).
pub open spec fn rendering(kind: TokenType, lexeme: Seq<char>) -> Seq<char> {
    if kind is String {
        seq!['"'] + lexeme + seq!['"']
    } else {
        lexeme
    }
}

/// The source text rebuilt from a scan: for each pull, the discarded gap
/// (blanks, newlines, comments) taken from the source, then the rendering of
/// the token the pull produced; a fault contributes the characters it
/// consumed. `lemma_reconstruction` in `laws` shows this rebuilds the source.
pub open spec fn reconstruction(src: Seq<char>, pos: nat, line: nat) -> Seq<char>
    decreases src.len() - pos,
    when pos <= src.len()
    via reconstruction_decreases
{
    let (p, l) = skip_ws(src, pos, line);
    let step = token_at(src, p, l);
    let gap = src.subrange(pos as int, p as int);
    match step.item {
        None => gap,
        Some(ItemModel::Tok { kind, lexeme, .. }) => gap + rendering(kind, lexeme)
            + reconstruction(src, step.pos, step.line),
        Some(ItemModel::Fault { .. }) => gap + src.subrange(p as int, step.pos as int)
            + reconstruction(src, step.pos, step.line),
    }
}

#[via_fn]
proof fn reconstruction_decreases(src: Seq<char>, pos: nat, line: nat) {
    lemma_next_spec_advances(src, pos, line);
}

} // verus!
