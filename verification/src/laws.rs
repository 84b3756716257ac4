//! Laws of the scanner, stated and proved over the model in
//! [`crate::scan_model`].

use crate::scan_model::digit_end;
use crate::scan_model::is_blank;
use crate::scan_model::is_digit;
use crate::scan_model::is_ident_start;
use crate::scan_model::lemma_digit_end;
use crate::scan_model::lemma_ident_end;
use crate::scan_model::lemma_next_spec_advances;
use crate::scan_model::lemma_skip_ws_at_bounds;
use crate::scan_model::lemma_string_end;
use crate::scan_model::lemma_string_end_unterminated;
use crate::scan_model::lone_kind;
use crate::scan_model::next_spec;
use crate::scan_model::paired_kind;
use crate::scan_model::reconstruction;
use crate::scan_model::rendering;
use crate::scan_model::scan_model;
use crate::scan_model::single_kind;
use crate::scan_model::skip_ws;
use crate::scan_model::string_end;
use crate::scan_model::token_at;
use crate::scan_model::ItemModel;
use vstd::prelude::*;

verus! {

/// Scanning is a pure function of the source text: two scans of equal
/// sources yield equal item sequences.
pub proof fn lemma_scan_deterministic(a: Seq<char>, b: Seq<char>)
    requires
        a == b,
    ensures
        scan_model(a, 0, 1) == scan_model(b, 0, 1),
{
}

/// A source consisting of one single-character punctuation mark scans to
/// exactly one token of the matching kind whose lexeme is that character.
pub proof fn lemma_single_punctuation(c: char)
    requires
        single_kind(c) is Some,
    ensures
        scan_model(seq![c], 0, 1) == seq![
            ItemModel::Tok { kind: single_kind(c).unwrap(), lexeme: seq![c], line: 1 },
        ],
{
    let src = seq![c];
    assert(skip_ws(src, 0, 1) == (0nat, 1nat));
    assert(next_spec(src, 0, 1) == token_at(src, 0, 1));
    assert(next_spec(src, 1, 1).item is None);
    assert(scan_model(src, 1, 1) == Seq::<ItemModel>::empty());
    assert(scan_model(src, 0, 1) =~= seq![
        ItemModel::Tok { kind: single_kind(c).unwrap(), lexeme: seq![c], line: 1 },
    ]);
}

/// A lookahead operator alone scans as its one-character kind with the
/// one-character lexeme; followed by `=` it scans as the two-character kind
/// with the two-character lexeme.
pub proof fn lemma_operator_pair(c: char)
    requires
        c == '=' || c == '!' || c == '<' || c == '>',
    ensures
        scan_model(seq![c], 0, 1) == seq![
            ItemModel::Tok { kind: lone_kind(c), lexeme: seq![c], line: 1 },
        ],
        scan_model(seq![c, '='], 0, 1) == seq![
            ItemModel::Tok { kind: paired_kind(c), lexeme: seq![c, '='], line: 1 },
        ],
{
    let lone = seq![c];
    assert(skip_ws(lone, 0, 1) == (0nat, 1nat));
    assert(next_spec(lone, 1, 1).item is None);
    assert(scan_model(lone, 1, 1) == Seq::<ItemModel>::empty());
    assert(scan_model(lone, 0, 1) =~= seq![
        ItemModel::Tok { kind: lone_kind(c), lexeme: seq![c], line: 1 },
    ]);
    let pair = seq![c, '='];
    assert(skip_ws(pair, 0, 1) == (0nat, 1nat));
    assert(next_spec(pair, 2, 1).item is None);
    assert(scan_model(pair, 2, 1) == Seq::<ItemModel>::empty());
    assert(scan_model(pair, 0, 1) =~= seq![
        ItemModel::Tok { kind: paired_kind(c), lexeme: seq![c, '='], line: 1 },
    ]);
}

/// A character that no scanning rule recognizes scans to exactly one fault
/// whose description is "invalid character"; no token is produced for it.
pub proof fn lemma_invalid_character(c: char)
    requires
        !is_blank(c),
        c != '\n',
        single_kind(c) is None,
        c != '=',
        c != '!',
        c != '<',
        c != '>',
        c != '/',
        c != '"',
        !is_digit(c),
        !is_ident_start(c),
    ensures
        scan_model(seq![c], 0, 1) == seq![
            ItemModel::Fault { line: 1, desc: "invalid character"@ },
        ],
{
    let src = seq![c];
    assert(skip_ws(src, 0, 1) == (0nat, 1nat));
    assert(next_spec(src, 1, 1).item is None);
    assert(scan_model(src, 1, 1) == Seq::<ItemModel>::empty());
    assert(scan_model(src, 0, 1) =~= seq![
        ItemModel::Fault { line: 1, desc: "invalid character"@ },
    ]);
}

/// A string literal that is never closed scans to exactly one fault,
/// "Unterminated string literal", and consumes the rest of the input: no
/// token is produced for it.
pub proof fn lemma_unterminated_string(src: Seq<char>)
    requires
        src.len() >= 1,
        src[0] == '"',
        forall|i: int| 1 <= i < src.len() ==> src[i] != '"',
    ensures
        scan_model(src, 0, 1) == seq![
            ItemModel::Fault { line: 1, desc: "Unterminated string literal"@ },
        ],
{
    assert(skip_ws(src, 0, 1) == (0nat, 1nat));
    lemma_string_end_unterminated(src, 1);
    let step = next_spec(src, 0, 1);
    assert(step.pos == src.len());
    assert(next_spec(src, src.len(), 1).item is None);
    assert(scan_model(src, src.len(), 1) == Seq::<ItemModel>::empty());
    assert(scan_model(src, 0, 1) =~= seq![
        ItemModel::Fault { line: 1, desc: "Unterminated string literal"@ },
    ]);
}

/// Each pull consumes exactly the discarded gap followed by the source text
/// of the item it yields; chaining the pulls, `reconstruction` rebuilds the
/// source from the scan's own output.
pub proof fn lemma_reconstruction(src: Seq<char>, pos: nat, line: nat)
    requires
        pos <= src.len(),
    ensures
        reconstruction(src, pos, line) == src.subrange(pos as int, src.len() as int),
    decreases src.len() - pos,
{
    lemma_skip_ws_at_bounds(src, pos, line, false);
    lemma_next_spec_advances(src, pos, line);
    let (p, l) = skip_ws(src, pos, line);
    let step = token_at(src, p, l);
    let gap = src.subrange(pos as int, p as int);
    if p >= src.len() {
        assert(gap =~= src.subrange(pos as int, src.len() as int));
    } else {
        let c = src[p as int];
        assert(step == next_spec(src, pos, line));
        assert(step.item is Some);
        lemma_reconstruction(src, step.pos, step.line);
        let middle = src.subrange(p as int, step.pos as int);
        if single_kind(c) is Some || c == '/' {
            assert(middle =~= seq![c]);
        } else if c == '=' || c == '!' || c == '<' || c == '>' {
            if p + 1 < src.len() && src[p as int + 1] == '=' {
                assert(middle =~= seq![c, '=']);
            } else {
                assert(middle =~= seq![c]);
            }
        } else if c == '"' {
            let close = string_end(src, (p + 1) as nat);
            lemma_string_end(src, (p + 1) as nat);
            if close < src.len() {
                assert(middle =~= seq!['"'] + src.subrange(p as int + 1, close as int)
                    + seq!['"']);
            }
        } else if is_digit(c) {
            lemma_digit_end(src, p);
            let e = digit_end(src, p);
            if e < src.len() && src[e as int] == '.' && e + 1 < src.len() && is_digit(
                src[e as int + 1],
            ) {
                lemma_digit_end(src, (e + 1) as nat);
            }
        } else if is_ident_start(c) {
            lemma_ident_end(src, p);
        }
        let tail = src.subrange(step.pos as int, src.len() as int);
        assert(gap + middle + tail =~= src.subrange(pos as int, src.len() as int)) by {
            assert(pos <= p <= step.pos <= src.len());
            assert((gap + middle).len() == step.pos - pos);
            assert(forall|i: int|
                0 <= i < step.pos - pos ==> (gap + middle)[i] == src[pos + i]);
            assert(forall|i: int|
                0 <= i < src.len() - pos ==> (gap + middle + tail)[i] == src[pos + i]);
        }
        match step.item {
            Some(ItemModel::Tok { kind, lexeme, .. }) => {
                assert(rendering(kind, lexeme) == middle);
            },
            Some(ItemModel::Fault { .. }) => {},
            None => {},
        }
    }
}

/// Round trip: the discarded whitespace and comments, interleaved in order
/// with the source text each scanned item stands for, concatenate back to
/// the whole source.
pub proof fn lemma_scan_round_trip(src: Seq<char>)
    ensures
        reconstruction(src, 0, 1) == src,
{
    lemma_reconstruction(src, 0, 1);
    assert(src.subrange(0, src.len() as int) =~= src);
}

} // verus!
