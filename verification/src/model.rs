//! The mathematical model of the scan: what the next item from any position
//! over any byte buffer is.
//!
//! The scanner's executable `next` is proved to return exactly what
//! [`scan_next`] says: first every run of whitespace, line breaks and line
//! comments is consumed ([`skip_trivia`]), then the single longest lexeme at
//! the cursor is classified ([`classify`]).

use vstd::prelude::*;
use crate::token::Token;
use crate::token::TokenType;
use crate::token::UnexpectedSymbolError;

verus! {

use vstd::utf8::valid_first_scalar;
use vstd::utf8::length_of_first_scalar;

/// A cursor into the buffer together with the line bookkeeping: the 0-based
/// number of the line the cursor sits on and the absolute offset of that
/// line's first byte.
pub ghost struct ScanPosition {
    pub cursor: int,
    pub line: int,
    pub line_start: int,
}

/// What one call for the next item produces: a lexeme of some category with
/// its extent, one unrecognized unit, or the permanent end of the stream.
pub ghost enum ScanItem {
    Lexeme { ty: TokenType, start: int, end: int },
    Invalid { at: int },
    End,
}

/// A position is well formed when the line start is at or before the cursor,
/// the cursor is inside the buffer, and the line number is bounded by the
/// cursor (each line break consumes at least one byte).
pub open spec fn wf_pos(s: Seq<u8>, p: ScanPosition) -> bool {
    &&& 0 <= p.line_start
    &&& p.line_start <= p.cursor
    &&& p.cursor <= s.len()
    &&& 0 <= p.line
    &&& p.line <= p.cursor
}

/// An ASCII decimal digit.
pub open spec fn is_digit(b: u8) -> bool {
    48 <= b && b <= 57
}

/// A byte that may open an identifier: an ASCII letter or an underscore.
pub open spec fn is_ident_start(b: u8) -> bool {
    (65 <= b && b <= 90) || (97 <= b && b <= 122) || b == 95
}

/// A byte that may continue an identifier.
pub open spec fn is_ident_continue(b: u8) -> bool {
    is_ident_start(b) || is_digit(b)
}

/// A carriage return or a line feed.
pub open spec fn is_line_break(b: u8) -> bool {
    b == 13 || b == 10
}

/// How many bytes the line break at `i` spans: a carriage return and a line
/// feed paired in either order count as one two-byte break, a lone one as a
/// one-byte break.
pub open spec fn line_break_len(s: Seq<u8>, i: int) -> int
    recommends
        0 <= i < s.len(),
        is_line_break(s[i]),
{
    if i + 1 < s.len() && is_line_break(s[i + 1]) && s[i + 1] != s[i] {
        2
    } else {
        1
    }
}

/// The first offset at or after `i` that ends a line comment: the next line
/// break, or the end of the buffer.
pub open spec fn comment_end(s: Seq<u8>, i: int) -> int
    decreases s.len() - i
        when 0 <= i <= s.len()
{
    if i < s.len() && !is_line_break(s[i]) {
        comment_end(s, i + 1)
    } else {
        i
    }
}

/// The first offset at or after `i` that does not hold a decimal digit.
pub open spec fn digits_end(s: Seq<u8>, i: int) -> int
    decreases s.len() - i
        when 0 <= i <= s.len()
{
    if i < s.len() && is_digit(s[i]) {
        digits_end(s, i + 1)
    } else {
        i
    }
}

/// The first offset at or after `i` that cannot continue an identifier.
pub open spec fn ident_end(s: Seq<u8>, i: int) -> int
    decreases s.len() - i
        when 0 <= i <= s.len()
{
    if i < s.len() && is_ident_continue(s[i]) {
        ident_end(s, i + 1)
    } else {
        i
    }
}

/// The first offset at or after `i` that ends a string body: a closing
/// quote, a line break, or the end of the buffer.
pub open spec fn string_body_end(s: Seq<u8>, i: int) -> int
    decreases s.len() - i
        when 0 <= i <= s.len()
{
    if i < s.len() && s[i] != 34 && !is_line_break(s[i]) {
        string_body_end(s, i + 1)
    } else {
        i
    }
}

/// Whether the byte at `i` opens a span that [`skip_trivia`] consumes: a
/// line break, whitespace, or a line comment.
pub open spec fn is_trivia_start(s: Seq<u8>, i: int) -> bool
    recommends
        0 <= i < s.len(),
{
    ||| is_line_break(s[i])
    ||| s[i] == 32
    ||| s[i] == 9
    ||| (s[i] == 47 && i + 1 < s.len() && s[i + 1] == 47)
}

/// The position after consuming every run of whitespace, line breaks and
/// line comments at the cursor. Consuming a line break increments the line
/// number and moves the line start to the byte right after the break.
pub open spec fn skip_trivia(s: Seq<u8>, p: ScanPosition) -> ScanPosition
    decreases s.len() - p.cursor
        when 0 <= p.cursor <= s.len()
        via skip_trivia_decreases
{
    let i = p.cursor;
    if i == s.len() {
        p
    } else if is_line_break(s[i]) {
        let n = i + line_break_len(s, i);
        skip_trivia(s, ScanPosition { cursor: n, line: p.line + 1, line_start: n })
    } else if s[i] == 32 || s[i] == 9 {
        skip_trivia(s, ScanPosition { cursor: i + 1, line: p.line, line_start: p.line_start })
    } else if s[i] == 47 && i + 1 < s.len() && s[i + 1] == 47 {
        skip_trivia(
            s,
            ScanPosition { cursor: comment_end(s, i + 2), line: p.line, line_start: p.line_start },
        )
    } else {
        p
    }
}

#[via_fn]
proof fn skip_trivia_decreases(s: Seq<u8>, p: ScanPosition) {
    let i = p.cursor;
    if 0 <= i < s.len() && !is_line_break(s[i]) && s[i] != 32 && s[i] != 9 && s[i] == 47
        && i + 1 < s.len() && s[i + 1] == 47 {
        lemma_comment_end_bounds(s, i + 2);
    }
}

/// A comment ends at or after where it starts, and inside the buffer.
pub proof fn lemma_comment_end_bounds(s: Seq<u8>, i: int)
    requires
        0 <= i <= s.len(),
    ensures
        i <= comment_end(s, i) <= s.len(),
    decreases s.len() - i,
{
    if i < s.len() && !is_line_break(s[i]) {
        lemma_comment_end_bounds(s, i + 1);
    }
}

/// A digit run ends at or after where it starts, and inside the buffer.
pub proof fn lemma_digits_end_bounds(s: Seq<u8>, i: int)
    requires
        0 <= i <= s.len(),
    ensures
        i <= digits_end(s, i) <= s.len(),
    decreases s.len() - i,
{
    if i < s.len() && is_digit(s[i]) {
        lemma_digits_end_bounds(s, i + 1);
    }
}

/// An identifier run ends at or after where it starts, and inside the
/// buffer.
pub proof fn lemma_ident_end_bounds(s: Seq<u8>, i: int)
    requires
        0 <= i <= s.len(),
    ensures
        i <= ident_end(s, i) <= s.len(),
    decreases s.len() - i,
{
    if i < s.len() && is_ident_continue(s[i]) {
        lemma_ident_end_bounds(s, i + 1);
    }
}

/// A string body ends at or after where it starts, and inside the buffer.
pub proof fn lemma_string_body_end_bounds(s: Seq<u8>, i: int)
    requires
        0 <= i <= s.len(),
    ensures
        i <= string_body_end(s, i) <= s.len(),
    decreases s.len() - i,
{
    if i < s.len() && s[i] != 34 && !is_line_break(s[i]) {
        lemma_string_body_end_bounds(s, i + 1);
    }
}

/// Skipping trivia preserves well-formedness, never moves backwards, and
/// stops either at the end of the buffer or at a byte that opens a lexeme.
pub proof fn lemma_skip_trivia_wf(s: Seq<u8>, p: ScanPosition)
    requires
        wf_pos(s, p),
    ensures
        wf_pos(s, skip_trivia(s, p)),
        p.cursor <= skip_trivia(s, p).cursor,
        p.line <= skip_trivia(s, p).line,
        skip_trivia(s, p).cursor == s.len() || !is_trivia_start(s, skip_trivia(s, p).cursor),
    decreases s.len() - p.cursor,
{
    let i = p.cursor;
    if i == s.len() {
    } else if is_line_break(s[i]) {
        let n = i + line_break_len(s, i);
        lemma_skip_trivia_wf(s, ScanPosition { cursor: n, line: p.line + 1, line_start: n });
    } else if s[i] == 32 || s[i] == 9 {
        lemma_skip_trivia_wf(
            s,
            ScanPosition { cursor: i + 1, line: p.line, line_start: p.line_start },
        );
    } else if s[i] == 47 && i + 1 < s.len() && s[i + 1] == 47 {
        lemma_comment_end_bounds(s, i + 2);
        lemma_skip_trivia_wf(
            s,
            ScanPosition { cursor: comment_end(s, i + 2), line: p.line, line_start: p.line_start },
        );
    }
}

/// The category of a complete identifier lexeme: the keyword token when the
/// lexeme is exactly one of the sixteen reserved words, an identifier token
/// otherwise. Matching is exact and case-sensitive.
pub open spec fn ident_token_type(lex: Seq<u8>) -> TokenType {
    if lex.len() == 2 {
        if lex[0] == 105 && lex[1] == 102 {
            TokenType::IF
        } else if lex[0] == 111 && lex[1] == 114 {
            TokenType::OR
        } else {
            TokenType::IDENTIFIER
        }
    } else if lex.len() == 3 {
        if lex[0] == 97 && lex[1] == 110 && lex[2] == 100 {
            TokenType::AND
        } else if lex[0] == 102 && lex[1] == 117 && lex[2] == 110 {
            TokenType::FUN
        } else if lex[0] == 102 && lex[1] == 111 && lex[2] == 114 {
            TokenType::FOR
        } else if lex[0] == 110 && lex[1] == 105 && lex[2] == 108 {
            TokenType::NIL
        } else if lex[0] == 118 && lex[1] == 97 && lex[2] == 114 {
            TokenType::VAR
        } else {
            TokenType::IDENTIFIER
        }
    } else if lex.len() == 4 {
        if lex[0] == 101 && lex[1] == 108 && lex[2] == 115 && lex[3] == 101 {
            TokenType::ELSE
        } else if lex[0] == 116 && lex[1] == 104 && lex[2] == 105 && lex[3] == 115 {
            TokenType::THIS
        } else if lex[0] == 116 && lex[1] == 114 && lex[2] == 117 && lex[3] == 101 {
            TokenType::TRUE
        } else {
            TokenType::IDENTIFIER
        }
    } else if lex.len() == 5 {
        if lex[0] == 99 && lex[1] == 108 && lex[2] == 97 && lex[3] == 115 && lex[4] == 115 {
            TokenType::CLASS
        } else if lex[0] == 102 && lex[1] == 97 && lex[2] == 108 && lex[3] == 115 && lex[4]
            == 101 {
            TokenType::FALSE
        } else if lex[0] == 112 && lex[1] == 114 && lex[2] == 105 && lex[3] == 110 && lex[4]
            == 116 {
            TokenType::PRINT
        } else if lex[0] == 115 && lex[1] == 117 && lex[2] == 112 && lex[3] == 101 && lex[4]
            == 114 {
            TokenType::SUPER
        } else if lex[0] == 119 && lex[1] == 104 && lex[2] == 105 && lex[3] == 108 && lex[4]
            == 101 {
            TokenType::WHILE
        } else {
            TokenType::IDENTIFIER
        }
    } else if lex.len() == 6 {
        if lex[0] == 114 && lex[1] == 101 && lex[2] == 116 && lex[3] == 117 && lex[4] == 114
            && lex[5] == 110 {
            TokenType::RETURN
        } else {
            TokenType::IDENTIFIER
        }
    } else {
        TokenType::IDENTIFIER
    }
}

/// How far the cursor advances past one unrecognized unit: the width of the
/// well-formed UTF-8 scalar at `i` when there is one, one raw byte otherwise.
pub open spec fn invalid_advance(s: Seq<u8>, i: int) -> int
    recommends
        0 <= i < s.len(),
{
    let rest = s.subrange(i, s.len() as int);
    if valid_first_scalar(rest) {
        length_of_first_scalar(rest)
    } else {
        1
    }
}

/// The single longest lexeme at offset `i`, classified, together with the
/// cursor offset right after it. `i` is expected to sit at the end of the
/// buffer or on a byte that no trivia rule consumes.
///
/// Precedence, longest match first: two-character operators over their
/// one-character prefixes; a digit run with an optional fraction over a bare
/// digit run (a trailing dot is never absorbed, a leading dot never starts a
/// number); a reserved word only as a complete identifier lexeme; a string
/// only up to its closing quote on the same line, the quote at `i` alone
/// becoming the unrecognized unit when no close follows; any other input
/// one unrecognized unit.
pub open spec fn classify(s: Seq<u8>, i: int) -> (ScanItem, int)
    recommends
        0 <= i <= s.len(),
{
    if i >= s.len() {
        (ScanItem::End, i)
    } else {
        let b = s[i];
        if is_digit(b) {
            let d = digits_end(s, i);
            let e = if d < s.len() && s[d] == 46 && d + 1 < s.len() && is_digit(s[d + 1]) {
                digits_end(s, d + 1)
            } else {
                d
            };
            (ScanItem::Lexeme { ty: TokenType::NUMBER, start: i, end: e }, e)
        } else if is_ident_start(b) {
            let e = ident_end(s, i);
            (ScanItem::Lexeme { ty: ident_token_type(s.subrange(i, e)), start: i, end: e }, e)
        } else if b == 34 {
            let e = string_body_end(s, i + 1);
            if e < s.len() && s[e] == 34 {
                (ScanItem::Lexeme { ty: TokenType::STRING, start: i + 1, end: e }, e + 1)
            } else {
                (ScanItem::Invalid { at: i }, i + 1)
            }
        } else if b == 33 {
            if i + 1 < s.len() && s[i + 1] == 61 {
                (ScanItem::Lexeme { ty: TokenType::BANG_EQUAL, start: i, end: i + 2 }, i + 2)
            } else {
                (ScanItem::Lexeme { ty: TokenType::BANG, start: i, end: i + 1 }, i + 1)
            }
        } else if b == 61 {
            if i + 1 < s.len() && s[i + 1] == 61 {
                (ScanItem::Lexeme { ty: TokenType::EQUAL_EQUAL, start: i, end: i + 2 }, i + 2)
            } else {
                (ScanItem::Lexeme { ty: TokenType::EQUAL, start: i, end: i + 1 }, i + 1)
            }
        } else if b == 62 {
            if i + 1 < s.len() && s[i + 1] == 61 {
                (ScanItem::Lexeme { ty: TokenType::GREATER_EQUAL, start: i, end: i + 2 }, i + 2)
            } else {
                (ScanItem::Lexeme { ty: TokenType::GREATER, start: i, end: i + 1 }, i + 1)
            }
        } else if b == 60 {
            if i + 1 < s.len() && s[i + 1] == 61 {
                (ScanItem::Lexeme { ty: TokenType::LESS_EQUAL, start: i, end: i + 2 }, i + 2)
            } else {
                (ScanItem::Lexeme { ty: TokenType::LESS, start: i, end: i + 1 }, i + 1)
            }
        } else if b == 40 {
            (ScanItem::Lexeme { ty: TokenType::LEFT_PAREN, start: i, end: i + 1 }, i + 1)
        } else if b == 41 {
            (ScanItem::Lexeme { ty: TokenType::RIGHT_PAREN, start: i, end: i + 1 }, i + 1)
        } else if b == 123 {
            (ScanItem::Lexeme { ty: TokenType::LEFT_BRACE, start: i, end: i + 1 }, i + 1)
        } else if b == 125 {
            (ScanItem::Lexeme { ty: TokenType::RIGHT_BRACE, start: i, end: i + 1 }, i + 1)
        } else if b == 44 {
            (ScanItem::Lexeme { ty: TokenType::COMMA, start: i, end: i + 1 }, i + 1)
        } else if b == 46 {
            (ScanItem::Lexeme { ty: TokenType::DOT, start: i, end: i + 1 }, i + 1)
        } else if b == 45 {
            (ScanItem::Lexeme { ty: TokenType::MINUS, start: i, end: i + 1 }, i + 1)
        } else if b == 43 {
            (ScanItem::Lexeme { ty: TokenType::PLUS, start: i, end: i + 1 }, i + 1)
        } else if b == 59 {
            (ScanItem::Lexeme { ty: TokenType::SEMICOLON, start: i, end: i + 1 }, i + 1)
        } else if b == 42 {
            (ScanItem::Lexeme { ty: TokenType::STAR, start: i, end: i + 1 }, i + 1)
        } else if b == 47 {
            (ScanItem::Lexeme { ty: TokenType::SLASH, start: i, end: i + 1 }, i + 1)
        } else {
            (ScanItem::Invalid { at: i }, i + invalid_advance(s, i))
        }
    }
}

/// What one call for the next item from position `p` produces, and the
/// position afterwards: trivia is consumed first, then the lexeme at the
/// cursor is classified. The line bookkeeping of the returned position is
/// the bookkeeping at the moment of emission.
pub open spec fn scan_next(s: Seq<u8>, p: ScanPosition) -> (ScanItem, ScanPosition) {
    let q = skip_trivia(s, p);
    let r = classify(s, q.cursor);
    (r.0, ScanPosition { cursor: r.1, line: q.line, line_start: q.line_start })
}

/// What a call for the next item must return and leave behind: from
/// position `p` over buffer `s`, the scanner must move to exactly the
/// position [`scan_next`] names, and the returned record must carry the
/// item's category, extent and line bookkeeping exactly as [`scan_next`]
/// names them, with the line-relative offsets derived from the line start.
pub open spec fn scan_result_matches(
    s: Seq<u8>,
    p: ScanPosition,
    post: ScanPosition,
    r: Option<Result<Token, UnexpectedSymbolError>>,
) -> bool {
    let step = scan_next(s, p);
    let q = step.1;
    &&& post == q
    &&& match step.0 {
        ScanItem::Lexeme { ty, start, end } => match r {
            Some(Ok(t)) => {
                &&& t.token_type == ty
                &&& t.line_number == q.line
                &&& t.line_start_index == q.line_start
                &&& t.start_index_within_input == start
                &&& t.end_index_within_input == end
                &&& t.start_index_within_line == start - q.line_start
                &&& t.end_index_within_line == end - q.line_start
            },
            _ => false,
        },
        ScanItem::Invalid { at } => match r {
            Some(Err(e)) => {
                &&& e.line_number == q.line
                &&& e.line_start_index_within_input == q.line_start
                &&& e.error_index_within_line == at - q.line_start
                &&& e.error_index_within_input == at
            },
            _ => false,
        },
        ScanItem::End => r is None,
    }
}

} // verus!
