//! The executable scanner, verified against the model in [`crate::model`].

use vstd::prelude::*;
use crate::model::comment_end;
use crate::model::digits_end;
use crate::model::ident_end;
use crate::model::ident_token_type;
use crate::model::invalid_advance;
use crate::model::is_trivia_start;
use crate::model::line_break_len;
use crate::model::scan_result_matches;
use crate::model::skip_trivia;
use crate::model::string_body_end;
use crate::model::wf_pos;
use crate::model::ScanPosition;
use crate::token::Token;
use crate::token::TokenType;
use crate::token::UnexpectedSymbolError;

verus! {

use vstd::string::StringSliceAdditionalSpecFns;
use vstd::utf8::valid_first_scalar;
use vstd::utf8::length_of_first_scalar;

/// A scanner bound to one immutable source buffer for its whole lifetime.
///
/// It advances strictly forward; once the cursor reaches the end of the
/// buffer the scan is over for good. A fresh scan needs a fresh scanner.
pub struct Scanner<'a> {
    s: &'a [u8],
    cursor: usize,
    current_line_number: usize,
    current_line_start_index: usize,
}

impl<'a> Scanner<'a> {
    /// The source bytes the scanner walks.
    pub closed spec fn src(self) -> Seq<u8> {
        self.s@
    }

    /// The cursor and line bookkeeping as a model position.
    pub closed spec fn pos(self) -> ScanPosition {
        ScanPosition {
            cursor: self.cursor as int,
            line: self.current_line_number as int,
            line_start: self.current_line_start_index as int,
        }
    }

    /// The scanner's invariant: its position is well formed in its buffer.
    pub open spec fn wf(self) -> bool {
        wf_pos(self.src(), self.pos())
    }

    /// Creates a scanner over `input`, positioned at offset 0 on line 0.
    pub fn new(input: &'a str) -> (scanner: Self)
        ensures
            scanner.src() == input.spec_bytes(),
            scanner.wf(),
            scanner.pos() == (ScanPosition { cursor: 0, line: 0, line_start: 0 }),
    {
        Scanner {
            s: input.as_bytes(),
            cursor: 0,
            current_line_number: 0,
            current_line_start_index: 0,
        }
    }

    /// Packages a classified lexeme with the position state at the moment
    /// of emission.
    fn create_token(
        &self,
        token_type: TokenType,
        beginning_of_token: usize,
        end_of_token: usize,
    ) -> (r: Option<Result<Token, UnexpectedSymbolError>>)
        requires
            self.current_line_start_index <= beginning_of_token,
            beginning_of_token <= end_of_token,
        ensures
            (match r {
                Some(Ok(t)) => {
                    &&& t.token_type == token_type
                    &&& t.line_number == self.current_line_number
                    &&& t.line_start_index == self.current_line_start_index
                    &&& t.start_index_within_input == beginning_of_token
                    &&& t.end_index_within_input == end_of_token
                    &&& t.start_index_within_line == beginning_of_token
                        - self.current_line_start_index
                    &&& t.end_index_within_line == end_of_token - self.current_line_start_index
                },
                _ => false,
            }),
    {
        Some(
            Ok(
                Token {
                    token_type,
                    line_number: self.current_line_number,
                    line_start_index: self.current_line_start_index,
                    start_index_within_input: beginning_of_token,
                    end_index_within_input: end_of_token,
                    start_index_within_line: beginning_of_token - self.current_line_start_index,
                    end_index_within_line: end_of_token - self.current_line_start_index,
                },
            ),
        )
    }

    /// Packages one unrecognized unit with the position state at the moment
    /// of emission.
    fn create_unexpected_symbol_error(&self, error_index_within_input: usize) -> (r: Option<
        Result<Token, UnexpectedSymbolError>,
    >)
        requires
            self.current_line_start_index <= error_index_within_input,
        ensures
            (match r {
                Some(Err(e)) => {
                    &&& e.line_number == self.current_line_number
                    &&& e.line_start_index_within_input == self.current_line_start_index
                    &&& e.error_index_within_line == error_index_within_input
                        - self.current_line_start_index
                    &&& e.error_index_within_input == error_index_within_input
                },
                _ => false,
            }),
    {
        Some(
            Err(
                UnexpectedSymbolError {
                    line_number: self.current_line_number,
                    line_start_index_within_input: self.current_line_start_index,
                    error_index_within_line: error_index_within_input
                        - self.current_line_start_index,
                    error_index_within_input,
                },
            ),
        )
    }

    /// Produces the next item of the scan: the next classified token, the
    /// next unrecognized unit, or `None` once the cursor has reached the end
    /// of the buffer. Exactly what comes back, and where the scanner stands
    /// afterwards, is what [`crate::model::scan_next`] says of the buffer and the old
    /// position.
    pub fn next(&mut self) -> (r: Option<Result<Token, UnexpectedSymbolError>>)
        requires
            old(self).wf(),
        ensures
            final(self).wf(),
            final(self).src() == old(self).src(),
            scan_result_matches(old(self).src(), old(self).pos(), final(self).pos(), r),
    {
        let ghost s0 = self.s@;
        let ghost p0 = self.pos();
        proof {
            crate::model::lemma_skip_trivia_wf(s0, p0);
        }
        // Consume every run of whitespace, line breaks and comments.
        loop
            invariant
                self.s@ == s0,
                self.wf(),
                skip_trivia(s0, self.pos()) == skip_trivia(s0, p0),
            ensures
                self.s@ == s0,
                self.wf(),
                self.pos() == skip_trivia(s0, p0),
                self.cursor == s0.len() || !is_trivia_start(s0, self.cursor as int),
            decreases s0.len() - self.cursor,
        {
            if self.cursor >= self.s.len() {
                break ;
            }
            let b = self.s[self.cursor];
            if b == 13 || b == 10 {
                // A line break: `\r\n` and `\n\r` pair into one break.
                let mut break_len: usize = 1;
                if self.cursor + 1 < self.s.len() {
                    let b2 = self.s[self.cursor + 1];
                    if (b2 == 13 || b2 == 10) && b2 != b {
                        break_len = 2;
                    }
                }
                proof {
                    assert(break_len == line_break_len(s0, self.cursor as int));
                }
                self.cursor = self.cursor + break_len;
                self.current_line_number = self.current_line_number + 1;
                self.current_line_start_index = self.cursor;
            } else if b == 32 || b == 9 {
                self.cursor = self.cursor + 1;
            } else if b == 47 && self.cursor + 1 < self.s.len() && self.s[self.cursor + 1] == 47 {
                // A line comment: everything up to the line terminator.
                let ghost before = self.pos();
                self.cursor = self.cursor + 2;
                let ghost comment_from = self.cursor as int;
                proof {
                    crate::model::lemma_comment_end_bounds(s0, comment_from);
                }
                loop
                    invariant
                        self.s@ == s0,
                        comment_from <= self.cursor as int <= s0.len(),
                        self.current_line_number == before.line,
                        self.current_line_start_index == before.line_start,
                        comment_end(s0, self.cursor as int) == comment_end(s0, comment_from),
                    ensures
                        self.s@ == s0,
                        self.current_line_number == before.line,
                        self.current_line_start_index == before.line_start,
                        self.cursor as int == comment_end(s0, comment_from),
                    decreases s0.len() - self.cursor,
                {
                    if self.cursor >= self.s.len() {
                        break ;
                    }
                    let c = self.s[self.cursor];
                    if c == 13 || c == 10 {
                        break ;
                    }
                    self.cursor = self.cursor + 1;
                }
                proof {
                    assert(skip_trivia(s0, before) == skip_trivia(s0, self.pos()));
                }
            } else {
                proof {
                    assert(skip_trivia(s0, self.pos()) == self.pos());
                }
                break ;
            }
        }
        let ghost q = skip_trivia(s0, p0);
        if self.cursor >= self.s.len() {
            return None;
        }
        let i = self.cursor;
        let b = self.s[i];
        if b >= 48 && b <= 57 {
            // A number: a digit run, with a fraction only when a digit
            // follows the dot.
            let mut j = i;
            j = self.digits_run_end(j);
            if j < self.s.len() && self.s[j] == 46 && j + 1 < self.s.len() && {
                let d = self.s[j + 1];
                d >= 48 && d <= 57
            } {
                j = self.digits_run_end(j + 1);
            }
            self.cursor = j;
            self.create_token(TokenType::NUMBER, i, j)
        } else if (b >= 65 && b <= 90) || (b >= 97 && b <= 122) || b == 95 {
            // An identifier or, when the complete lexeme is a reserved
            // word, its keyword.
            let mut j = i + 1;
            loop
                invariant
                    self.s@ == s0,
                    i < j <= s0.len(),
                    ident_end(s0, i as int) == ident_end(s0, j as int),
                ensures
                    i < j <= s0.len(),
                    j as int == ident_end(s0, i as int),
                decreases s0.len() - j,
            {
                if j >= self.s.len() {
                    break ;
                }
                let c = self.s[j];
                if !((c >= 65 && c <= 90) || (c >= 97 && c <= 122) || c == 95 || (c >= 48 && c
                    <= 57)) {
                    break ;
                }
                j = j + 1;
            }
            let ty = ident_token_type_at(self.s, i, j);
            self.cursor = j;
            self.create_token(ty, i, j)
        } else if b == 34 {
            // A string: its payload excludes the quotes. A quote with no
            // close before the line ends is one unrecognized unit.
            let mut j = i + 1;
            loop
                invariant
                    self.s@ == s0,
                    i < j <= s0.len(),
                    string_body_end(s0, i as int + 1) == string_body_end(s0, j as int),
                ensures
                    i < j <= s0.len(),
                    j as int == string_body_end(s0, i as int + 1),
                decreases s0.len() - j,
            {
                if j >= self.s.len() {
                    break ;
                }
                let c = self.s[j];
                if c == 34 || c == 13 || c == 10 {
                    break ;
                }
                j = j + 1;
            }
            if j < self.s.len() && self.s[j] == 34 {
                self.cursor = j + 1;
                self.create_token(TokenType::STRING, i + 1, j)
            } else {
                self.cursor = i + 1;
                self.create_unexpected_symbol_error(i)
            }
        } else if b == 33 {
            // `!` or `!=`
            if i + 1 < self.s.len() && self.s[i + 1] == 61 {
                self.cursor = i + 2;
                self.create_token(TokenType::BANG_EQUAL, i, i + 2)
            } else {
                self.cursor = i + 1;
                self.create_token(TokenType::BANG, i, i + 1)
            }
        } else if b == 61 {
            // `=` or `==`
            if i + 1 < self.s.len() && self.s[i + 1] == 61 {
                self.cursor = i + 2;
                self.create_token(TokenType::EQUAL_EQUAL, i, i + 2)
            } else {
                self.cursor = i + 1;
                self.create_token(TokenType::EQUAL, i, i + 1)
            }
        } else if b == 62 {
            // `>` or `>=`
            if i + 1 < self.s.len() && self.s[i + 1] == 61 {
                self.cursor = i + 2;
                self.create_token(TokenType::GREATER_EQUAL, i, i + 2)
            } else {
                self.cursor = i + 1;
                self.create_token(TokenType::GREATER, i, i + 1)
            }
        } else if b == 60 {
            // `<` or `<=`
            if i + 1 < self.s.len() && self.s[i + 1] == 61 {
                self.cursor = i + 2;
                self.create_token(TokenType::LESS_EQUAL, i, i + 2)
            } else {
                self.cursor = i + 1;
                self.create_token(TokenType::LESS, i, i + 1)
            }
        } else if b == 40 {
            self.cursor = i + 1;
            self.create_token(TokenType::LEFT_PAREN, i, i + 1)
        } else if b == 41 {
            self.cursor = i + 1;
            self.create_token(TokenType::RIGHT_PAREN, i, i + 1)
        } else if b == 123 {
            self.cursor = i + 1;
            self.create_token(TokenType::LEFT_BRACE, i, i + 1)
        } else if b == 125 {
            self.cursor = i + 1;
            self.create_token(TokenType::RIGHT_BRACE, i, i + 1)
        } else if b == 44 {
            self.cursor = i + 1;
            self.create_token(TokenType::COMMA, i, i + 1)
        } else if b == 46 {
            self.cursor = i + 1;
            self.create_token(TokenType::DOT, i, i + 1)
        } else if b == 45 {
            self.cursor = i + 1;
            self.create_token(TokenType::MINUS, i, i + 1)
        } else if b == 43 {
            self.cursor = i + 1;
            self.create_token(TokenType::PLUS, i, i + 1)
        } else if b == 59 {
            self.cursor = i + 1;
            self.create_token(TokenType::SEMICOLON, i, i + 1)
        } else if b == 42 {
            self.cursor = i + 1;
            self.create_token(TokenType::STAR, i, i + 1)
        } else if b == 47 {
            self.cursor = i + 1;
            self.create_token(TokenType::SLASH, i, i + 1)
        } else {
            // Anything else is one unrecognized unit: the well-formed
            // UTF-8 scalar at the cursor, or one raw byte when the bytes
            // there are not one.
            let n = unrecognized_unit_len(self.s, i);
            self.cursor = i + n;
            self.create_unexpected_symbol_error(i)
        }
    }

    /// Advances past the run of decimal digits starting at `from`.
    fn digits_run_end(&self, from: usize) -> (j: usize)
        requires
            from <= self.src().len(),
        ensures
            from <= j <= self.src().len(),
            j as int == digits_end(self.src(), from as int),
    {
        let mut j = from;
        loop
            invariant
                from <= j <= self.src().len(),
                digits_end(self.src(), from as int) == digits_end(self.src(), j as int),
            ensures
                from <= j <= self.src().len(),
                j as int == digits_end(self.src(), from as int),
            decreases self.src().len() - j,
        {
            if j >= self.s.len() {
                break ;
            }
            let c = self.s[j];
            if !(c >= 48 && c <= 57) {
                break ;
            }
            j = j + 1;
        }
        j
    }
}

/// The category of the complete identifier lexeme at `start..end`: one of
/// the sixteen keyword tokens exactly when the lexeme is that reserved
/// word, an identifier token otherwise.
fn ident_token_type_at(s: &[u8], start: usize, end: usize) -> (ty: TokenType)
    requires
        start <= end <= s@.len(),
    ensures
        ty == ident_token_type(s@.subrange(start as int, end as int)),
{
    let len = end - start;
    if len == 2 {
        if s[start] == 105 && s[start + 1] == 102 {
            // if
            TokenType::IF
        } else if s[start] == 111 && s[start + 1] == 114 {
            // or
            TokenType::OR
        } else {
            TokenType::IDENTIFIER
        }
    } else if len == 3 {
        if s[start] == 97 && s[start + 1] == 110 && s[start + 2] == 100 {
            // and
            TokenType::AND
        } else if s[start] == 102 && s[start + 1] == 117 && s[start + 2] == 110 {
            // fun
            TokenType::FUN
        } else if s[start] == 102 && s[start + 1] == 111 && s[start + 2] == 114 {
            // for
            TokenType::FOR
        } else if s[start] == 110 && s[start + 1] == 105 && s[start + 2] == 108 {
            // nil
            TokenType::NIL
        } else if s[start] == 118 && s[start + 1] == 97 && s[start + 2] == 114 {
            // var
            TokenType::VAR
        } else {
            TokenType::IDENTIFIER
        }
    } else if len == 4 {
        if s[start] == 101 && s[start + 1] == 108 && s[start + 2] == 115 && s[start + 3] == 101 {
            // else
            TokenType::ELSE
        } else if s[start] == 116 && s[start + 1] == 104 && s[start + 2] == 105 && s[start + 3]
            == 115 {
            // this
            TokenType::THIS
        } else if s[start] == 116 && s[start + 1] == 114 && s[start + 2] == 117 && s[start + 3]
            == 101 {
            // true
            TokenType::TRUE
        } else {
            TokenType::IDENTIFIER
        }
    } else if len == 5 {
        if s[start] == 99 && s[start + 1] == 108 && s[start + 2] == 97 && s[start + 3] == 115 && s[
            start + 4] == 115 {
            // class
            TokenType::CLASS
        } else if s[start] == 102 && s[start + 1] == 97 && s[start + 2] == 108 && s[start + 3]
            == 115 && s[start + 4] == 101 {
            // false
            TokenType::FALSE
        } else if s[start] == 112 && s[start + 1] == 114 && s[start + 2] == 105 && s[start + 3]
            == 110 && s[start + 4] == 116 {
            // print
            TokenType::PRINT
        } else if s[start] == 115 && s[start + 1] == 117 && s[start + 2] == 112 && s[start + 3]
            == 101 && s[start + 4] == 114 {
            // super
            TokenType::SUPER
        } else if s[start] == 119 && s[start + 1] == 104 && s[start + 2] == 105 && s[start + 3]
            == 108 && s[start + 4] == 101 {
            // while
            TokenType::WHILE
        } else {
            TokenType::IDENTIFIER
        }
    } else if len == 6 {
        if s[start] == 114 && s[start + 1] == 101 && s[start + 2] == 116 && s[start + 3] == 117
            && s[start + 4] == 114 && s[start + 5] == 110 {
            // return
            TokenType::RETURN
        } else {
            TokenType::IDENTIFIER
        }
    } else {
        TokenType::IDENTIFIER
    }
}

/// The width of the unrecognized unit at `i`: the byte count of the
/// well-formed UTF-8 scalar starting there when the bytes form one, one
/// raw byte otherwise.
fn unrecognized_unit_len(s: &[u8], i: usize) -> (n: usize)
    requires
        i < s@.len(),
    ensures
        n as int == invalid_advance(s@, i as int),
        1 <= n,
        i + n <= s@.len(),
{
    let ghost rest = s@.subrange(i as int, s@.len() as int);
    let len = s.len();
    let b = s[i];
    if b < 0x80 {
        proof {
            assert(rest[0] == b);
            assert(valid_first_scalar(rest));
        }
        1
    } else if b < 0xc2 {
        // A stray continuation byte, or a lead byte whose two-byte
        // encoding would be overlong.
        proof {
            if 0xc0 <= b && rest.len() >= 2 && 0x80 <= rest[1] <= 0xbf {
                let c1 = rest[1];
                assert((((b & 0x1f) as u32) << 6 | ((c1 & 0x3f) as u32)) < 0x80)
                    by (bit_vector)
                    requires
                        0xc0 <= b < 0xc2,
                        0x80 <= c1 <= 0xbf,
                ;
            }
            assert(!valid_first_scalar(rest));
        }
        1
    } else if b <= 0xdf {
        if i + 1 < len && s[i + 1] >= 0x80 && s[i + 1] <= 0xbf {
            let c1 = s[i + 1];
            proof {
                assert(rest[0] == b && rest[1] == c1);
                let cp = ((b & 0x1f) as u32) << 6 | ((c1 & 0x3f) as u32);
                assert(0x80 <= cp <= 0x7ff) by (bit_vector)
                    requires
                        0xc2 <= b <= 0xdf,
                        0x80 <= c1 <= 0xbf,
                        cp == ((b & 0x1f) as u32) << 6 | ((c1 & 0x3f) as u32),
                ;
                assert(valid_first_scalar(rest));
                assert(length_of_first_scalar(rest) == 2);
            }
            2
        } else {
            proof {
                assert(!valid_first_scalar(rest));
            }
            1
        }
    } else if b <= 0xef {
        if i + 1 < len && i + 2 < len {
            let c1 = s[i + 1];
            let c2 = s[i + 2];
            if c1 >= 0x80 && c1 <= 0xbf && c2 >= 0x80 && c2 <= 0xbf && (b != 0xe0 || c1 >= 0xa0)
                && (b != 0xed || c1 < 0xa0) {
                proof {
                    assert(rest[0] == b && rest[1] == c1 && rest[2] == c2);
                    let cp = ((b & 0x0f) as u32) << 12 | ((c1 & 0x3f) as u32) << 6 | ((c2
                        & 0x3f) as u32);
                    assert(0x800 <= cp && !(0xd800 <= cp <= 0xdfff)) by (bit_vector)
                        requires
                            0xe0 <= b <= 0xef,
                            0x80 <= c1 <= 0xbf,
                            0x80 <= c2 <= 0xbf,
                            b == 0xe0 ==> c1 >= 0xa0,
                            b == 0xed ==> c1 < 0xa0,
                            cp == ((b & 0x0f) as u32) << 12 | ((c1 & 0x3f) as u32) << 6 | ((c2
                                & 0x3f) as u32),
                    ;
                    assert(valid_first_scalar(rest));
                    assert(length_of_first_scalar(rest) == 3);
                }
                3
            } else {
                proof {
                    if 0x80 <= c1 <= 0xbf && 0x80 <= c2 <= 0xbf {
                        let cp = ((b & 0x0f) as u32) << 12 | ((c1 & 0x3f) as u32) << 6 | ((c2
                            & 0x3f) as u32);
                        assert((b == 0xe0 && c1 < 0xa0 ==> cp < 0x800) && (b == 0xed && c1 >= 0xa0
                            ==> 0xd800 <= cp <= 0xdfff)) by (bit_vector)
                            requires
                                0xe0 <= b <= 0xef,
                                0x80 <= c1 <= 0xbf,
                                0x80 <= c2 <= 0xbf,
                                cp == ((b & 0x0f) as u32) << 12 | ((c1 & 0x3f) as u32) << 6 | ((c2
                                    & 0x3f) as u32),
                        ;
                    }
                    assert(!valid_first_scalar(rest));
                }
                1
            }
        } else {
            proof {
                assert(!valid_first_scalar(rest));
            }
            1
        }
    } else if b <= 0xf4 {
        if i + 1 < len && i + 2 < len && i + 3 < len {
            let c1 = s[i + 1];
            let c2 = s[i + 2];
            let c3 = s[i + 3];
            if c1 >= 0x80 && c1 <= 0xbf && c2 >= 0x80 && c2 <= 0xbf && c3 >= 0x80 && c3 <= 0xbf
                && (b != 0xf0 || c1 >= 0x90) && (b != 0xf4 || c1 < 0x90) {
                proof {
                    assert(rest[0] == b && rest[1] == c1 && rest[2] == c2 && rest[3] == c3);
                    let cp = ((b & 0x07) as u32) << 18 | ((c1 & 0x3f) as u32) << 12 | ((c2
                        & 0x3f) as u32) << 6 | ((c3 & 0x3f) as u32);
                    assert(0x10000 <= cp <= 0x10ffff) by (bit_vector)
                        requires
                            0xf0 <= b <= 0xf4,
                            0x80 <= c1 <= 0xbf,
                            0x80 <= c2 <= 0xbf,
                            0x80 <= c3 <= 0xbf,
                            b == 0xf0 ==> c1 >= 0x90,
                            b == 0xf4 ==> c1 < 0x90,
                            cp == ((b & 0x07) as u32) << 18 | ((c1 & 0x3f) as u32) << 12 | ((c2
                                & 0x3f) as u32) << 6 | ((c3 & 0x3f) as u32),
                    ;
                    assert(valid_first_scalar(rest));
                    assert(length_of_first_scalar(rest) == 4);
                }
                4
            } else {
                proof {
                    if 0x80 <= c1 <= 0xbf && 0x80 <= c2 <= 0xbf && 0x80 <= c3 <= 0xbf {
                        let cp = ((b & 0x07) as u32) << 18 | ((c1 & 0x3f) as u32) << 12 | ((c2
                            & 0x3f) as u32) << 6 | ((c3 & 0x3f) as u32);
                        assert((b == 0xf0 && c1 < 0x90 ==> cp < 0x10000) && (b == 0xf4 && c1
                            >= 0x90 ==> cp > 0x10ffff)) by (bit_vector)
                            requires
                                0xf0 <= b <= 0xf4,
                                0x80 <= c1 <= 0xbf,
                                0x80 <= c2 <= 0xbf,
                                0x80 <= c3 <= 0xbf,
                                cp == ((b & 0x07) as u32) << 18 | ((c1 & 0x3f) as u32) << 12 | ((
                                c2 & 0x3f) as u32) << 6 | ((c3 & 0x3f) as u32),
                        ;
                    }
                    assert(!valid_first_scalar(rest));
                }
                1
            }
        } else {
            proof {
                assert(!valid_first_scalar(rest));
            }
            1
        }
    } else {
        // A lead byte whose encoding could only name a value past the
        // last scalar, or no lead byte at all.
        proof {
            if 0xf5 <= b <= 0xf7 && rest.len() >= 4 && 0x80 <= rest[1] <= 0xbf && 0x80 <= rest[2]
                <= 0xbf && 0x80 <= rest[3] <= 0xbf {
                let c1 = rest[1];
                let c2 = rest[2];
                let c3 = rest[3];
                let cp = ((b & 0x07) as u32) << 18 | ((c1 & 0x3f) as u32) << 12 | ((c2
                    & 0x3f) as u32) << 6 | ((c3 & 0x3f) as u32);
                assert(cp > 0x10ffff) by (bit_vector)
                    requires
                        0xf5 <= b <= 0xf7,
                        0x80 <= c1 <= 0xbf,
                        0x80 <= c2 <= 0xbf,
                        0x80 <= c3 <= 0xbf,
                        cp == ((b & 0x07) as u32) << 18 | ((c1 & 0x3f) as u32) << 12 | ((c2
                            & 0x3f) as u32) << 6 | ((c3 & 0x3f) as u32),
                ;
            }
            assert(!valid_first_scalar(rest));
        }
        1
    }
}

} // verus!
