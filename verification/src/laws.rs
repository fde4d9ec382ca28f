//! Laws of the scan that relate whole calls, proved over the model in
//! [`crate::model`]. The executable scanner returns exactly what the model
//! says, so each law carries over to it.

use vstd::prelude::*;
use crate::model::comment_end;
use crate::model::is_line_break;
use crate::model::lemma_comment_end_bounds;
use crate::model::lemma_skip_trivia_wf;
use crate::model::line_break_len;
use crate::model::scan_next;
use crate::model::skip_trivia;
use crate::model::wf_pos;
use crate::model::ScanItem;
use crate::model::ScanPosition;
use crate::token::TokenType;

verus! {

/// Whether everything from offset `i` to the end of the buffer is trivia:
/// whitespace, tabs, line breaks and line comments only.
pub open spec fn trivia_only_from(s: Seq<u8>, i: int) -> bool
    decreases s.len() - i
        when 0 <= i <= s.len()
        via trivia_only_from_decreases
{
    if i == s.len() {
        true
    } else if is_line_break(s[i]) {
        trivia_only_from(s, i + line_break_len(s, i))
    } else if s[i] == 32 || s[i] == 9 {
        trivia_only_from(s, i + 1)
    } else if s[i] == 47 && i + 1 < s.len() && s[i + 1] == 47 {
        trivia_only_from(s, comment_end(s, i + 2))
    } else {
        false
    }
}

#[via_fn]
proof fn trivia_only_from_decreases(s: Seq<u8>, i: int) {
    if 0 <= i < s.len() && !is_line_break(s[i]) && s[i] != 32 && s[i] != 9 && s[i] == 47 && i + 1
        < s.len() && s[i + 1] == 47 {
        lemma_comment_end_bounds(s, i + 2);
    }
}

/// How many line breaks stand between offset `i` and the first byte from
/// `i` on that no trivia rule consumes (or the end of the buffer), with a
/// carriage return and a line feed paired in either order counted once.
pub open spec fn line_breaks_skipped_from(s: Seq<u8>, i: int) -> int
    decreases s.len() - i
        when 0 <= i <= s.len()
        via line_breaks_skipped_from_decreases
{
    if i == s.len() {
        0
    } else if is_line_break(s[i]) {
        1 + line_breaks_skipped_from(s, i + line_break_len(s, i))
    } else if s[i] == 32 || s[i] == 9 {
        line_breaks_skipped_from(s, i + 1)
    } else if s[i] == 47 && i + 1 < s.len() && s[i + 1] == 47 {
        line_breaks_skipped_from(s, comment_end(s, i + 2))
    } else {
        0
    }
}

#[via_fn]
proof fn line_breaks_skipped_from_decreases(s: Seq<u8>, i: int) {
    if 0 <= i < s.len() && !is_line_break(s[i]) && s[i] != 32 && s[i] != 9 && s[i] == 47 && i + 1
        < s.len() && s[i + 1] == 47 {
        lemma_comment_end_bounds(s, i + 2);
    }
}

/// Law: input that holds nothing but whitespace, tabs, line breaks and line
/// comments from the cursor on yields neither a token nor an error — the
/// very next call ends the stream — while the line bookkeeping still counts
/// every line break consumed on the way to the end of the buffer.
pub proof fn lemma_trivia_only_scan(s: Seq<u8>, p: ScanPosition)
    requires
        wf_pos(s, p),
        trivia_only_from(s, p.cursor),
    ensures
        scan_next(s, p).0 == ScanItem::End,
        scan_next(s, p).1.cursor == s.len(),
        scan_next(s, p).1.line == p.line + line_breaks_skipped_from(s, p.cursor),
    decreases s.len() - p.cursor,
{
    let i = p.cursor;
    if i == s.len() {
    } else if is_line_break(s[i]) {
        let n = i + line_break_len(s, i);
        lemma_trivia_only_scan(s, ScanPosition { cursor: n, line: p.line + 1, line_start: n });
    } else if s[i] == 32 || s[i] == 9 {
        lemma_trivia_only_scan(
            s,
            ScanPosition { cursor: i + 1, line: p.line, line_start: p.line_start },
        );
    } else {
        lemma_comment_end_bounds(s, i + 2);
        lemma_trivia_only_scan(
            s,
            ScanPosition { cursor: comment_end(s, i + 2), line: p.line, line_start: p.line_start },
        );
    }
}

/// The two-character operator token opened by `b` when an equals sign
/// follows directly.
pub open spec fn two_char_operator_type(b: u8) -> TokenType
    recommends
        b == 33 || b == 61 || b == 62 || b == 60,
{
    if b == 33 {
        TokenType::BANG_EQUAL
    } else if b == 61 {
        TokenType::EQUAL_EQUAL
    } else if b == 62 {
        TokenType::GREATER_EQUAL
    } else {
        TokenType::LESS_EQUAL
    }
}

/// Law: maximal munch for the two-character operators. Wherever `!`, `=`,
/// `>` or `<` stands right after the consumed trivia with `=` directly
/// after it, the scan yields the one two-character token spanning both
/// bytes and the cursor moves past both — never the one-character token
/// with the `=` left behind.
pub proof fn lemma_maximal_munch_two_char(s: Seq<u8>, p: ScanPosition)
    requires
        wf_pos(s, p),
        ({
            let q = skip_trivia(s, p);
            &&& q.cursor + 1 < s.len()
            &&& (s[q.cursor] == 33 || s[q.cursor] == 61 || s[q.cursor] == 62 || s[q.cursor] == 60)
            &&& s[q.cursor + 1] == 61
        }),
    ensures
        ({
            let q = skip_trivia(s, p);
            &&& scan_next(s, p).0 == (ScanItem::Lexeme {
                ty: two_char_operator_type(s[q.cursor]),
                start: q.cursor,
                end: q.cursor + 2,
            })
            &&& scan_next(s, p).1.cursor == q.cursor + 2
        }),
{
    lemma_skip_trivia_wf(s, p);
}

/// Law: every emitted record sits inside its line and inside the buffer,
/// and the scan advances. From any well-formed position, the position after
/// the call is well formed again; a token's extent starts at or after the
/// line start named with it and ends at or before the new cursor; an
/// error's offset does too; and unless the stream has ended, the cursor
/// moves strictly forward — so a caller draining the stream terminates.
pub proof fn lemma_scan_next_in_bounds(s: Seq<u8>, p: ScanPosition)
    requires
        wf_pos(s, p),
    ensures
        wf_pos(s, scan_next(s, p).1),
        p.cursor <= scan_next(s, p).1.cursor,
        match scan_next(s, p).0 {
            ScanItem::Lexeme { start, end, .. } => {
                &&& scan_next(s, p).1.line_start <= start <= end <= scan_next(s, p).1.cursor
                &&& skip_trivia(s, p).cursor < scan_next(s, p).1.cursor
            },
            ScanItem::Invalid { at } => {
                &&& scan_next(s, p).1.line_start <= at < scan_next(s, p).1.cursor
                &&& skip_trivia(s, p).cursor < scan_next(s, p).1.cursor
            },
            ScanItem::End => scan_next(s, p).1.cursor == s.len(),
        },
{
    lemma_skip_trivia_wf(s, p);
    let q = skip_trivia(s, p);
    let i = q.cursor;
    if i < s.len() {
        if crate::model::is_digit(s[i]) {
            crate::model::lemma_digits_end_bounds(s, i + 1);
            let d = crate::model::digits_end(s, i);
            if d < s.len() && s[d] == 46 && d + 1 < s.len() && crate::model::is_digit(s[d + 1]) {
                crate::model::lemma_digits_end_bounds(s, d + 2);
            }
        } else if crate::model::is_ident_start(s[i]) {
            crate::model::lemma_ident_end_bounds(s, i + 1);
        } else if s[i] == 34 {
            crate::model::lemma_string_body_end_bounds(s, i + 1);
        }
    }
}

/// Law: scanning is deterministic. From equal positions over equal buffers
/// the next item and the next position are equal; since the scanner's `next`
/// returns exactly what [`scan_next`] says, two independent scans of one
/// immutable buffer produce identical token and error sequences.
pub proof fn lemma_scan_deterministic(
    s1: Seq<u8>,
    p1: ScanPosition,
    s2: Seq<u8>,
    p2: ScanPosition,
)
    requires
        s1 == s2,
        p1 == p2,
    ensures
        scan_next(s1, p1) == scan_next(s2, p2),
{
}

} // verus!
