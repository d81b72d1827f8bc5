use vstd::prelude::*;

use crate::lexer::chars::{is_alphanumeric, is_ascii_alpha, is_digit, is_hex_digit, is_letter, parse_digits};
use crate::lexer::rules::{
    adv, block_comment, char_at, in_radix_class, int_part, keyword, pick, lemma_line_col_bounds, lex, line_col, number_literal,
    position_at, run_chars_no_underscore, run_end, skip_blanks, string_body, suffixed_number, unescape, CharClass,
};
use crate::lexer::span::{Position, Span, SpannedToken};
use crate::lexer::token::{PrimitiveType, Token};
use crate::text::{chars_eq, chars_of, string_from_chars};

verus! {

/// Reads the tokens of a source text one after the other.
pub struct Lexer {
    input: Vec<char>,
    /// Index of the current char (`input.len()` once the input is used up).
    pos: usize,
    line: usize,
    col: usize,
}

impl Lexer {
    /// The chars of the source text.
    pub closed spec fn source(&self) -> Seq<char> {
        self.input@
    }

    /// The index where the next token is looked for.
    pub closed spec fn index(&self) -> int {
        self.pos as int
    }

    pub closed spec fn wf(&self) -> bool {
        &&& self.pos <= self.input.len() < usize::MAX
        &&& self.line as int == line_col(self.input@, self.pos as nat).0
        &&& self.col as int == line_col(self.input@, self.pos as nat).1
    }

    /// The index where the next token is looked for lies within the source.
    pub proof fn lemma_index_bounds(&self)
        requires
            self.wf(),
        ensures
            0 <= self.index() <= self.source().len(),
    {
    }

    pub fn new(input: &str) -> (res: Self)
        requires
            input@.len() < usize::MAX,
        ensures
            res.wf(),
            res.source() == input@,
            res.index() == 0,
    {
        let chars = chars_of(input);
        let col: usize = if chars.len() > 0 { 1 } else { 0 };
        Lexer { input: chars, pos: 0, line: 1, col }
    }

    fn current(&self) -> (c: char)
        requires
            self.wf(),
        ensures
            c == char_at(self.input@, self.pos as int),
    {
        if self.pos < self.input.len() {
            self.input[self.pos]
        } else {
            '\0'
        }
    }

    fn peek_char(&self) -> (c: char)
        requires
            self.wf(),
        ensures
            c == char_at(self.input@, self.pos + 1),
    {
        if self.pos + 1 < self.input.len() {
            self.input[self.pos + 1]
        } else {
            '\0'
        }
    }

    fn read_char(&mut self)
        requires
            old(self).wf(),
        ensures
            final(self).wf(),
            final(self).input@ == old(self).input@,
            final(self).pos == adv(old(self).input@, old(self).pos as int),
    {
        proof {
            lemma_line_col_bounds(self.input@, self.pos as nat);
        }
        if self.pos < self.input.len() {
            if self.input[self.pos] == '\n' {
                self.line = self.line + 1;
                self.col = 0;
            }
            self.pos = self.pos + 1;
            if self.pos < self.input.len() {
                self.col = self.col + 1;
            }
        }
    }

    fn current_pos(&self) -> (p: Position)
        requires
            self.wf(),
        ensures
            p == position_at(self.input@, self.pos as nat),
    {
        Position::new(self.line, self.col)
    }

    fn make_token(&mut self, token: Token, start: Position) -> (t: SpannedToken)
        requires
            old(self).wf(),
        ensures
            final(self).wf(),
            final(self).input@ == old(self).input@,
            final(self).pos == adv(old(self).input@, old(self).pos as int),
            t.token == token,
            t.span == (Span { start, end: position_at(old(self).input@, final(self).pos as nat) }),
    {
        self.read_char();
        SpannedToken { token, span: Span::new(start, self.current_pos()) }
    }

    fn skip_whitespaces(&mut self)
        requires
            old(self).wf(),
        ensures
            final(self).wf(),
            final(self).input@ == old(self).input@,
            final(self).pos == skip_blanks(old(self).input@, old(self).pos as int),
    {
        let ghost s = self.input@;
        let ghost p0 = self.pos as int;
        loop
            invariant
                self.wf(),
                self.input@ == s,
                skip_blanks(s, self.pos as int) == skip_blanks(s, p0),
            ensures
                self.wf(),
                self.input@ == s,
                self.pos == skip_blanks(s, p0),
            decreases s.len() - self.pos,
        {
            let c = self.current();
            if c == ' ' || c == '\t' {
                self.read_char();
            } else {
                break;
            }
        }
    }

    /// Whether `c` belongs to the char class `k`.
    fn in_class(k: CharClass, c: char) -> (r: bool)
        ensures
            r == k.contains(c),
    {
        match k {
            CharClass::LineBody => c != '\n' && c != '\r' && c != '\0',
            CharClass::LineBreak => c == '\n' || c == '\r',
            CharClass::Ident => is_letter(c) || is_digit(c),
            CharClass::Digit => is_digit(c),
            CharClass::Suffix => is_alphanumeric(c),
            CharClass::Radix(prefix) => {
                if prefix == 'b' {
                    c == '0' || c == '1' || c == '_'
                } else if prefix == 'o' {
                    ('0' <= c && c <= '7') || c == '_'
                } else {
                    is_hex_digit(c) || c == '_'
                }
            },
        }
    }

    /// Reads the run of chars of class `k` from the current one, and returns it.
    fn read_run(&mut self, k: CharClass) -> (run: Vec<char>)
        requires
            old(self).wf(),
        ensures
            final(self).wf(),
            final(self).input@ == old(self).input@,
            final(self).pos == run_end(old(self).input@, old(self).pos as int, k),
            run@ == old(self).input@.subrange(old(self).pos as int, final(self).pos as int),
    {
        let ghost s = self.input@;
        let ghost p0 = self.pos as int;
        let mut run: Vec<char> = Vec::new();
        while self.pos < self.input.len() && Self::in_class(k, self.input[self.pos])
            invariant
                self.wf(),
                self.input@ == s,
                0 <= p0 <= self.pos,
                run_end(s, self.pos as int, k) == run_end(s, p0, k),
                run@ == s.subrange(p0, self.pos as int),
            decreases s.len() - self.pos,
        {
            let ghost prev = run@;
            run.push(self.input[self.pos]);
            proof {
                assert(0 <= p0 <= self.pos < s.len());
                assert(prev == s.subrange(p0, self.pos as int));
                assert(s.subrange(p0, self.pos + 1) =~= prev.push(s[self.pos as int]));
            }
            self.read_char();
        }
        run
    }

    /// Reads the run of chars of class `k` from the current one, and returns
    /// it without its underscores.
    fn read_run_no_underscore(&mut self, k: CharClass) -> (run: Vec<char>)
        requires
            old(self).wf(),
        ensures
            final(self).wf(),
            final(self).input@ == old(self).input@,
            final(self).pos == run_end(old(self).input@, old(self).pos as int, k),
            run@ == run_chars_no_underscore(old(self).input@, old(self).pos as int, k),
    {
        let ghost s = self.input@;
        let ghost p0 = self.pos as int;
        let mut run: Vec<char> = Vec::new();
        while self.pos < self.input.len() && Self::in_class(k, self.input[self.pos])
            invariant
                self.wf(),
                self.input@ == s,
                run_end(s, self.pos as int, k) == run_end(s, p0, k),
                run@ + run_chars_no_underscore(s, self.pos as int, k) == run_chars_no_underscore(s, p0, k),
            decreases s.len() - self.pos,
        {
            let c = self.input[self.pos];
            if c != '_' {
                run.push(c);
            }
            proof {
                let rest = run_chars_no_underscore(s, self.pos + 1, k);
                if c != '_' {
                    assert(run@ + rest =~= run@.drop_last() + (seq![c] + rest));
                }
            }
            self.read_char();
        }
        proof {
            assert(run@ + seq![] =~= run@);
        }
        run
    }

    /// Skips the run of chars of class `k` from the current one.
    fn skip_run(&mut self, k: CharClass)
        requires
            old(self).wf(),
        ensures
            final(self).wf(),
            final(self).input@ == old(self).input@,
            final(self).pos == run_end(old(self).input@, old(self).pos as int, k),
    {
        let ghost s = self.input@;
        let ghost p0 = self.pos as int;
        while self.pos < self.input.len() && Self::in_class(k, self.input[self.pos])
            invariant
                self.wf(),
                self.input@ == s,
                run_end(s, self.pos as int, k) == run_end(s, p0, k),
            decreases s.len() - self.pos,
        {
            self.read_char();
        }
    }

    /// Reads a string literal body (the current char follows the opening quote)
    /// up to the closing quote or the end: whether it was closed, and its chars.
    fn read_string_body(&mut self) -> (res: (bool, Vec<char>))
        requires
            old(self).wf(),
        ensures
            final(self).wf(),
            final(self).input@ == old(self).input@,
            final(self).pos == string_body(old(self).input@, old(self).pos as int).2,
            res.0 == string_body(old(self).input@, old(self).pos as int).0,
            res.1@ == string_body(old(self).input@, old(self).pos as int).1,
    {
        let ghost s = self.input@;
        let ghost p0 = self.pos as int;
        let mut buf: Vec<char> = Vec::new();
        loop
            invariant
                self.wf(),
                self.input@ == s,
                s == old(self).input@,
                p0 == old(self).pos,
                string_body(s, self.pos as int).0 == string_body(s, p0).0,
                string_body(s, self.pos as int).2 == string_body(s, p0).2,
                buf@ + string_body(s, self.pos as int).1 == string_body(s, p0).1,
            decreases s.len() - self.pos,
        {
            let ghost i = self.pos as int;
            let c = self.current();
            if c == '"' || c == '\0' {
                proof {
                    assert(buf@ + seq![] =~= buf@);
                }
                return (c == '"', buf);
            }
            let ghost prev = buf@;
            if c == '\\' {
                self.read_char();
                let e = Self::unescape_char(self.current());
                buf.push(e);
            } else {
                buf.push(c);
            }
            self.read_char();
            proof {
                let r = string_body(s, self.pos as int);
                assert(buf@ + r.1 =~= prev + (seq![buf@.last()] + r.1));
            }
        }
    }

    fn unescape_char(c: char) -> (r: char)
        ensures
            r == unescape(c),
    {
        if c == 'n' {
            '\n'
        } else if c == 't' {
            '\t'
        } else if c == 'r' {
            '\r'
        } else if c == '0' {
            '\0'
        } else {
            c
        }
    }

    /// Skips the body of a block comment (the current char follows the opening
    /// `/*`): returns how many comments are left open when it stops.
    fn skip_block_comment(&mut self) -> (depth: usize)
        requires
            old(self).wf(),
        ensures
            final(self).wf(),
            final(self).input@ == old(self).input@,
            (depth as nat, final(self).pos as int) == block_comment(old(self).input@, old(self).pos as int, 1),
    {
        let ghost s = self.input@;
        let ghost p0 = self.pos as int;
        let mut depth: usize = 1;
        while depth > 0 && self.current() != '\0'
            invariant
                self.wf(),
                self.input@ == s,
                depth <= self.pos + 1,
                block_comment(s, self.pos as int, depth as nat) == block_comment(s, p0, 1),
            decreases s.len() - self.pos,
        {
            let c = self.current();
            let n = self.peek_char();
            if c == '/' && n == '*' {
                depth = depth + 1;
                self.read_char();
                self.read_char();
            } else if c == '*' && n == '/' {
                depth = depth - 1;
                self.read_char();
                self.read_char();
            } else {
                self.read_char();
            }
        }
        depth
    }

    /// The keyword token a word stands for, if any.
    fn keyword_of(w: &Vec<char>) -> (r: Option<Token>)
        ensures
            r == keyword(w@),
    {
        if chars_eq(w, &['v', 'a', 'r']) { Some(Token::Var) }
        else if chars_eq(w, &['l', 'e', 't']) { Some(Token::Let) }
        else if chars_eq(w, &['c', 'o', 'n', 's', 't']) { Some(Token::Const) }
        else if chars_eq(w, &['i', 'f']) { Some(Token::If) }
        else if chars_eq(w, &['e', 'l', 's', 'e']) { Some(Token::Else) }
        else if chars_eq(w, &['f', 'o', 'r']) { Some(Token::For) }
        else if chars_eq(w, &['i', 'n']) { Some(Token::In) }
        else if chars_eq(w, &['c', 'o', 'n', 't', 'i', 'n', 'u', 'e']) { Some(Token::Continue) }
        else if chars_eq(w, &['b', 'r', 'e', 'a', 'k']) { Some(Token::Break) }
        else if chars_eq(w, &['m', 'a', 't', 'c', 'h']) { Some(Token::Match) }
        else if chars_eq(w, &['f', 'u', 'n']) { Some(Token::Fun) }
        else if chars_eq(w, &['r', 'e', 't', 'u', 'r', 'n']) { Some(Token::Return) }
        else if chars_eq(w, &['b', 'l', 'o', 'o', 'm']) { Some(Token::Bloom) }
        else if chars_eq(w, &['s', 't', 'r', 'u', 'c', 't']) { Some(Token::Struct) }
        else if chars_eq(w, &['i', 'n', 't', 'e', 'r', 'f', 'a', 'c', 'e']) { Some(Token::Interface) }
        else if chars_eq(w, &['t', 'y', 'p', 'e']) { Some(Token::Type) }
        else if chars_eq(w, &['o', 'p', 'e', 'n']) { Some(Token::Open) }
        else if chars_eq(w, &['l', 'o', 'c', 'a', 'l']) { Some(Token::Local) }
        else if chars_eq(w, &['i', 'm', 'p', 'o', 'r', 't']) { Some(Token::Import) }
        else if chars_eq(w, &['p', 'a', 'c', 'k', 'a', 'g', 'e']) { Some(Token::Package) }
        else if chars_eq(w, &['i', 'n', 't']) { Some(Token::PrimitiveType(PrimitiveType::Int)) }
        else if chars_eq(w, &['i', 'n', 't', '8']) { Some(Token::PrimitiveType(PrimitiveType::Int8)) }
        else if chars_eq(w, &['i', 'n', 't', '1', '6']) { Some(Token::PrimitiveType(PrimitiveType::Int16)) }
        else if chars_eq(w, &['i', 'n', 't', '3', '2']) { Some(Token::PrimitiveType(PrimitiveType::Int32)) }
        else if chars_eq(w, &['i', 'n', 't', '6', '4']) { Some(Token::PrimitiveType(PrimitiveType::Int64)) }
        else if chars_eq(w, &['u', 'i', 'n', 't']) { Some(Token::PrimitiveType(PrimitiveType::Uint)) }
        else if chars_eq(w, &['u', 'i', 'n', 't', '8']) { Some(Token::PrimitiveType(PrimitiveType::Uint8)) }
        else if chars_eq(w, &['u', 'i', 'n', 't', '1', '6']) { Some(Token::PrimitiveType(PrimitiveType::Uint16)) }
        else if chars_eq(w, &['u', 'i', 'n', 't', '3', '2']) { Some(Token::PrimitiveType(PrimitiveType::Uint32)) }
        else if chars_eq(w, &['u', 'i', 'n', 't', '6', '4']) { Some(Token::PrimitiveType(PrimitiveType::Uint64)) }
        else if chars_eq(w, &['f', 'l', 'o', 'a', 't', '3', '2']) { Some(Token::PrimitiveType(PrimitiveType::Float32)) }
        else if chars_eq(w, &['f', 'l', 'o', 'a', 't', '6', '4']) { Some(Token::PrimitiveType(PrimitiveType::Float64)) }
        else if chars_eq(w, &['b', 'o', 'o', 'l']) { Some(Token::PrimitiveType(PrimitiveType::Bool)) }
        else if chars_eq(w, &['s', 't', 'r', 'i', 'n', 'g']) { Some(Token::PrimitiveType(PrimitiveType::String)) }
        else if chars_eq(w, &['t', 'r', 'u', 'e']) { Some(Token::Bool(true)) }
        else if chars_eq(w, &['f', 'a', 'l', 's', 'e']) { Some(Token::Bool(false)) }
        else { None }
    }

    /// Reads the integer part of a number literal: its digits without
    /// underscores. Stops before an underscore that starts a type suffix.
    fn read_int_part(&mut self) -> (digits: Vec<char>)
        requires
            old(self).wf(),
        ensures
            final(self).wf(),
            final(self).input@ == old(self).input@,
            (digits@, final(self).pos as int) == int_part(old(self).input@, old(self).pos as int),
    {
        let ghost s = self.input@;
        let ghost p0 = self.pos as int;
        let mut digits: Vec<char> = Vec::new();
        loop
            invariant
                self.wf(),
                self.input@ == s,
                s == old(self).input@,
                p0 == old(self).pos,
                int_part(s, self.pos as int).1 == int_part(s, p0).1,
                digits@ + int_part(s, self.pos as int).0 == int_part(s, p0).0,
            ensures
                self.wf(),
                self.input@ == s,
                int_part(s, self.pos as int).1 == int_part(s, p0).1,
                digits@ + int_part(s, self.pos as int).0 == int_part(s, p0).0,
                int_part(s, self.pos as int).0 =~= Seq::<char>::empty(),
                int_part(s, self.pos as int).1 == self.pos,
            decreases s.len() - self.pos,
        {
            let c = self.current();
            if !(self.pos < self.input.len() && (is_digit(c) || c == '_')) {
                assert(int_part(s, self.pos as int).0 =~= Seq::<char>::empty());
                assert(int_part(s, self.pos as int).1 == self.pos);
                break;
            }
            if c == '_' && is_ascii_alpha(self.peek_char()) {
                assert(int_part(s, self.pos as int).0 =~= Seq::<char>::empty());
                assert(int_part(s, self.pos as int).1 == self.pos);
                break;
            }
            let ghost prev = digits@;
            if c != '_' {
                digits.push(c);
            }
            self.read_char();
            proof {
                let r = int_part(s, self.pos as int);
                if c != '_' {
                    assert(digits@ + r.0 =~= prev + (seq![c] + r.0));
                }
            }
        }
        proof {
            assert(digits@ + seq![] =~= digits@);
            assert(digits@ =~= int_part(s, p0).0);
        }
        digits
    }

    /// The token of a number literal with a type suffix.
    fn suffixed_token(suffix: &Vec<char>, digits: &Vec<char>, has_dot: bool) -> (t: Token)
        requires
            !has_dot ==> forall|i: int| 0 <= i < digits@.len() ==> crate::lexer::chars::spec_is_digit(#[trigger] digits@[i]),
        ensures
            t@ == suffixed_number(suffix@, digits@, has_dot),
    {
        if has_dot {
            if chars_eq(suffix, &['f', '3', '2']) {
                return Token::Float32(string_from_chars(digits));
            } else if chars_eq(suffix, &['f', '6', '4']) {
                return Token::Float64(string_from_chars(digits));
            } else {
                return Token::Illegal;
            }
        }
        assert forall|i: int| 0 <= i < digits@.len() implies 0 <= #[trigger] crate::lexer::chars::digit_value(digits@[i]) < 10 by {
            assert(crate::lexer::chars::spec_is_digit(digits@[i]));
        }
        if chars_eq(suffix, &['i', '8']) {
            match parse_digits(digits, 10, 127) { Some(v) => Token::Int8(v as i8), None => Token::Illegal }
        } else if chars_eq(suffix, &['i', '1', '6']) {
            match parse_digits(digits, 10, 32767) { Some(v) => Token::Int16(v as i16), None => Token::Illegal }
        } else if chars_eq(suffix, &['i', '3', '2']) {
            match parse_digits(digits, 10, 2147483647) { Some(v) => Token::Int32(v as i32), None => Token::Illegal }
        } else if chars_eq(suffix, &['i', '6', '4']) {
            match parse_digits(digits, 10, 9223372036854775807) { Some(v) => Token::Int64(v as i64), None => Token::Illegal }
        } else if chars_eq(suffix, &['u', '8']) {
            match parse_digits(digits, 10, 255) { Some(v) => Token::Uint8(v as u8), None => Token::Illegal }
        } else if chars_eq(suffix, &['u', '1', '6']) {
            match parse_digits(digits, 10, 65535) { Some(v) => Token::Uint16(v as u16), None => Token::Illegal }
        } else if chars_eq(suffix, &['u', '3', '2']) {
            match parse_digits(digits, 10, 4294967295) { Some(v) => Token::Uint32(v as u32), None => Token::Illegal }
        } else if chars_eq(suffix, &['u', '6', '4']) {
            match parse_digits(digits, 10, 18446744073709551615) { Some(v) => Token::Uint64(v), None => Token::Illegal }
        } else {
            Token::Illegal
        }
    }

    /// Reads a number literal that starts with a decimal digit.
    fn read_number_literal(&mut self, start: Position) -> (t: SpannedToken)
        requires
            old(self).wf(),
            crate::lexer::chars::spec_is_digit(char_at(old(self).input@, old(self).pos as int)),
        ensures
            final(self).wf(),
            final(self).input@ == old(self).input@,
            t.token@ == number_literal(old(self).input@, old(self).pos as int).0,
            final(self).pos == number_literal(old(self).input@, old(self).pos as int).1,
            t.span == (Span { start, end: position_at(old(self).input@, final(self).pos as nat) }),
    {
        let ghost s = self.input@;
        let ghost q = self.pos as int;
        proof {
            crate::lexer::rules::lemma_int_part(s, q);
        }
        let mut digits = self.read_int_part();
        let ghost int_digits = digits@;
        let ghost i1 = self.pos as int;
        let has_dot = self.current() == '.' && is_digit(self.peek_char());
        if has_dot {
            digits.push('.');
            self.read_char();
            let ghost i1p = self.pos as int;
            let mut frac = self.read_run(CharClass::Digit);
            digits.append(&mut frac);
            proof {
                assert(i1p == i1 + 1);
            }
        }
        let ghost i2 = self.pos as int;
        proof {
            let lit_digits = if has_dot { int_digits + seq!['.'] + s.subrange(i1 + 1, i2) } else { int_digits };
            assert(digits@ =~= lit_digits);
            if has_dot {
                assert(i2 == run_end(s, i1 + 1, CharClass::Digit));
            } else {
                assert(i2 == i1);
            }
        }
        let token = if self.current() == '_' {
            self.read_char();
            let suffix = self.read_run(CharClass::Suffix);
            Self::suffixed_token(&suffix, &digits, has_dot)
        } else if has_dot {
            Token::Float64(string_from_chars(&digits))
        } else {
            assert forall|i: int| 0 <= i < digits@.len() implies 0 <= #[trigger] crate::lexer::chars::digit_value(digits@[i]) < 10 by {
                assert(crate::lexer::chars::spec_is_digit(digits@[i]));
            }
            match parse_digits(&digits, 10, isize::MAX as u64) {
                Some(v) => Token::Int(v as isize),
                None => Token::Illegal,
            }
        };
        SpannedToken { token, span: Span::new(start, self.current_pos()) }
    }

    /// An operator of one or two chars: `c2` after the current char gives
    /// `t2`, `c3` gives `t3`, anything else gives the one-char `t1`.
    fn operator(&mut self, start: Position, c2: char, t2: Token, c3: char, t3: Token, t1: Token) -> (t: SpannedToken)
        requires
            old(self).wf(),
            old(self).pos < old(self).input.len(),
            c2 != '\0',
            c3 != '\0',
            !t1.carries_text(),
            !t2.carries_text(),
            !t3.carries_text(),
        ensures
            final(self).wf(),
            final(self).input@ == old(self).input@,
            ({
                let l = pick(char_at(old(self).input@, old(self).pos + 1), c2, t2, c3, t3, t1, old(self).pos as int);
                &&& t.token@ == l.token
                &&& final(self).pos == l.end
                &&& t.span == (Span { start, end: position_at(old(self).input@, final(self).pos as nat) })
            }),
    {
        let n = self.peek_char();
        if n == c2 {
            self.read_char();
            self.make_token(t2, start)
        } else if n == c3 {
            self.read_char();
            self.make_token(t3, start)
        } else {
            self.make_token(t1, start)
        }
    }

    fn single_char(c: char) -> (r: bool)
        ensures
            r == crate::lexer::rules::is_single_char_token(c),
    {
        c == ';' || c == ':' || c == '{' || c == '}' || c == '(' || c == ')' || c == '[' || c == ']' || c == ','
            || c == '#' || c == '^'
    }

    fn operator_char(c: char) -> (r: bool)
        ensures
            r == crate::lexer::rules::is_operator_char(c),
    {
        c == '%' || c == '|' || c == '.' || c == '&' || c == '~' || c == '<' || c == '>' || c == '=' || c == '!'
            || c == '+' || c == '-' || c == '*'
    }

    fn single_char_token_of(c: char) -> (t: Token)
        requires
            crate::lexer::rules::is_single_char_token(c),
        ensures
            t == crate::lexer::rules::single_char_token(c),
    {
        if c == ';' { Token::Semicolon }
        else if c == ':' { Token::Colon }
        else if c == '{' { Token::LeftBrace }
        else if c == '}' { Token::RightBrace }
        else if c == '(' { Token::LeftParen }
        else if c == ')' { Token::RightParen }
        else if c == '[' { Token::LeftBracket }
        else if c == ']' { Token::RightBracket }
        else if c == ',' { Token::Comma }
        else if c == '#' { Token::BitOr }
        else { Token::BitXOR }
    }

    /// An operator whose first char is the current one.
    fn operator_token_here(&mut self, start: Position, c: char) -> (t: SpannedToken)
        requires
            old(self).wf(),
            c == char_at(old(self).input@, old(self).pos as int),
            crate::lexer::rules::is_operator_char(c),
        ensures
            final(self).wf(),
            final(self).input@ == old(self).input@,
            ({
                let l = crate::lexer::rules::operator_token(c, char_at(old(self).input@, old(self).pos + 1), old(self).pos as int);
                &&& t.token@ == l.token
                &&& final(self).pos == l.end
                &&& t.span == (Span { start, end: position_at(old(self).input@, final(self).pos as nat) })
            }),
    {
        if c == '%' { self.operator(start, '=', Token::ModAndAssign, '=', Token::ModAndAssign, Token::Modulus) }
        else if c == '|' { self.operator(start, '|', Token::LogicOr, '|', Token::LogicOr, Token::Pipe) }
        else if c == '.' { self.operator(start, '.', Token::DoubleDot, '.', Token::DoubleDot, Token::Dot) }
        else if c == '&' { self.operator(start, '&', Token::LogicAnd, '&', Token::LogicAnd, Token::BitAnd) }
        else if c == '~' { self.operator(start, '>', Token::Sprout, '>', Token::Sprout, Token::BitNot) }
        else if c == '<' { self.operator(start, '<', Token::LeftShift, '=', Token::LessOrEquals, Token::Less) }
        else if c == '>' { self.operator(start, '>', Token::RightShift, '=', Token::GreaterOrEquals, Token::Greater) }
        else if c == '=' { self.operator(start, '=', Token::Equals, '>', Token::FatArrow, Token::Assign) }
        else if c == '!' { self.operator(start, '=', Token::NotEquals, '=', Token::NotEquals, Token::LogicNot) }
        else if c == '+' { self.operator(start, '=', Token::AddAndAssign, '+', Token::Increment, Token::Add) }
        else if c == '-' { self.operator(start, '=', Token::SubAndAssign, '-', Token::Decrement, Token::Subtract) }
        else { self.operator(start, '=', Token::MulAndAssign, '*', Token::Power, Token::Multiply) }
    }

    /// A string literal whose opening quote is the current char.
    fn string_token_here(&mut self, start: Position) -> (t: SpannedToken)
        requires
            old(self).wf(),
            char_at(old(self).input@, old(self).pos as int) == '"',
        ensures
            final(self).wf(),
            final(self).input@ == old(self).input@,
            ({
                let l = crate::lexer::rules::string_token(old(self).input@, old(self).pos as int);
                &&& t.token@ == l.token
                &&& final(self).pos == l.end
                &&& t.span == (Span { start, end: position_at(old(self).input@, final(self).pos as nat) })
            }),
    {
        let ghost s = self.input@;
        let ghost q = self.pos as int;
        self.read_char();
        proof {
            crate::lexer::rules::lemma_string_body(s, q + 1);
        }
        let (closed, body) = self.read_string_body();
        if !closed {
            self.make_token(Token::Illegal, start)
        } else {
            self.make_token(Token::String(string_from_chars(&body)), start)
        }
    }

    /// An integer literal with a radix prefix at the current char.
    fn radix_token_here(&mut self, start: Position) -> (t: SpannedToken)
        requires
            old(self).wf(),
            char_at(old(self).input@, old(self).pos as int) == '0',
            ({
                let n = char_at(old(self).input@, old(self).pos + 1);
                n == 'b' || n == 'o' || n == 'x' || n == 'X'
            }),
        ensures
            final(self).wf(),
            final(self).input@ == old(self).input@,
            ({
                let l = crate::lexer::rules::radix_token(old(self).input@, old(self).pos as int);
                &&& t.token@ == l.token
                &&& final(self).pos == l.end
                &&& t.span == (Span { start, end: position_at(old(self).input@, final(self).pos as nat) })
            }),
    {
        let ghost s = self.input@;
        let ghost q = self.pos as int;
        let n = self.peek_char();
        self.read_char();
        self.read_char();
        proof {
            crate::lexer::rules::lemma_run_chars_in_class(s, q + 2, CharClass::Radix(n));
        }
        let digits = self.read_run_no_underscore(CharClass::Radix(n));
        if digits.len() == 0 {
            SpannedToken { token: Token::Illegal, span: Span::new(start, self.current_pos()) }
        } else {
            let radix: u32 = if n == 'b' { 2 } else if n == 'o' { 8 } else { 16 };
            assert forall|i: int| 0 <= i < digits@.len() implies 0 <= #[trigger] crate::lexer::chars::digit_value(digits@[i]) < radix by {
                assert(in_radix_class(n, digits@[i]));
            }
            let value = match parse_digits(&digits, radix, isize::MAX as u64) {
                Some(v) => v as isize,
                None => 0,
            };
            SpannedToken { token: Token::Int(value), span: Span::new(start, self.current_pos()) }
        }
    }

    /// A keyword or identifier whose first letter is the current char.
    fn word_token_here(&mut self, start: Position) -> (t: SpannedToken)
        requires
            old(self).wf(),
        ensures
            final(self).wf(),
            final(self).input@ == old(self).input@,
            ({
                let l = crate::lexer::rules::word_token(old(self).input@, old(self).pos as int);
                &&& t.token@ == l.token
                &&& final(self).pos == l.end
                &&& t.span == (Span { start, end: position_at(old(self).input@, final(self).pos as nat) })
            }),
    {
        let word = self.read_run(CharClass::Ident);
        let token = match Self::keyword_of(&word) {
            Some(t) => t,
            None => Token::Identifier(string_from_chars(&word)),
        };
        SpannedToken { token, span: Span::new(start, self.current_pos()) }
    }

    /// The token that starts at the current char, which starts no comment.
    fn token_here(&mut self, start: Position) -> (t: SpannedToken)
        requires
            old(self).wf(),
            start == position_at(old(self).input@, old(self).pos as nat),
            !(char_at(old(self).input@, old(self).pos as int) == '/' && (char_at(old(self).input@, old(self).pos + 1) == '/'
                || char_at(old(self).input@, old(self).pos + 1) == '*')),
        ensures
            final(self).wf(),
            final(self).input@ == old(self).input@,
            ({
                let l = crate::lexer::rules::token_at(old(self).input@, old(self).pos as int);
                &&& t.token@ == l.token
                &&& final(self).pos == l.end
                &&& l.start == old(self).pos
                &&& t.span == (Span { start, end: position_at(old(self).input@, final(self).pos as nat) })
            }),
    {
        let c = self.current();
        let n = self.peek_char();
        if Self::single_char(c) {
            let tok = Self::single_char_token_of(c);
            self.make_token(tok, start)
        } else if Self::operator_char(c) {
            self.operator_token_here(start, c)
        } else if c == '"' {
            self.string_token_here(start)
        } else if c == '/' {
            if n == '=' {
                self.read_char();
                self.make_token(Token::DivAndAssign, start)
            } else {
                self.make_token(Token::Divide, start)
            }
        } else if c == '\0' {
            SpannedToken { token: Token::Eof, span: Span::new(start, start) }
        } else if c == '\n' || c == '\r' {
            self.skip_run(CharClass::LineBreak);
            SpannedToken { token: Token::Newline, span: Span::new(start, self.current_pos()) }
        } else if c == '0' && (n == 'b' || n == 'o' || n == 'x' || n == 'X') {
            self.radix_token_here(start)
        } else if is_digit(c) {
            self.read_number_literal(start)
        } else if is_letter(c) {
            self.word_token_here(start)
        } else {
            self.make_token(Token::Illegal, start)
        }
    }

    /// Reads the next token, skipping blanks and comments before it.
    pub fn next_token(&mut self) -> (t: SpannedToken)
        requires
            old(self).wf(),
        ensures
            final(self).wf(),
            final(self).source() == old(self).source(),
            ({
                let l = lex(old(self).source(), old(self).index());
                &&& t.token@ == l.token
                &&& final(self).index() == l.end
                &&& t.span == (Span {
                    start: position_at(old(self).source(), l.start as nat),
                    end: position_at(old(self).source(), l.end as nat),
                })
            }),
    {
        let ghost s = self.input@;
        let ghost p0 = self.pos as int;
        loop
            invariant
                self.wf(),
                self.input@ == s,
                s == old(self).input@,
                p0 == old(self).pos,
                lex(s, self.pos as int) == lex(s, p0),
            decreases s.len() - self.pos,
        {
            let ghost p = self.pos as int;
            self.skip_whitespaces();
            let ghost q = self.pos as int;
            proof {
                crate::lexer::rules::lemma_skip_blanks_bounds(s, p);
            }
            let start = self.current_pos();
            let c = self.current();
            let n = self.peek_char();
            if c == '/' && n == '/' {
                proof {
                    crate::lexer::rules::lemma_run_end_bounds(s, q + 1, CharClass::LineBody);
                    assert(run_end(s, q, CharClass::LineBody) == run_end(s, q + 1, CharClass::LineBody));
                }
                self.skip_run(CharClass::LineBody);
                continue;
            }
            if c == '/' && n == '*' {
                self.read_char();
                self.read_char();
                proof {
                    crate::lexer::rules::lemma_block_comment(s, q + 2, 1);
                }
                let depth = self.skip_block_comment();
                if depth == 0 {
                    continue;
                }
                return SpannedToken { token: Token::Illegal, span: Span::new(start, self.current_pos()) };
            }
            return self.token_here(start);
        }
    }
}

} // verus!
