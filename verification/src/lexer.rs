//! The lexer: a single left-to-right scan of the source characters with one
//! character of lookahead.

use vstd::prelude::*;

use crate::token::{LexError, LexErrorKind, SpecToken, Token};

verus! {

/// ASCII whitespace.
pub open spec fn is_space(c: char) -> bool {
    c == ' ' || c == '\t' || c == '\n' || c == '\r'
}

/// An ASCII decimal digit.
pub open spec fn is_digit(c: char) -> bool {
    '0' <= c && c <= '9'
}

/// An ASCII letter.
pub open spec fn is_alpha(c: char) -> bool {
    ('a' <= c && c <= 'z') || ('A' <= c && c <= 'Z')
}

/// An ASCII letter or digit.
pub open spec fn is_alnum(c: char) -> bool {
    is_alpha(c) || is_digit(c)
}

/// A character that may continue an identifier.
pub open spec fn is_ident_char(c: char) -> bool {
    is_alnum(c) || c == '_'
}

/// An ASCII character.
pub open spec fn is_ascii_char(c: char) -> bool {
    (c as u32) < 128
}

/// The first position at or after `k` that cannot continue an identifier.
pub open spec fn ident_end(s: Seq<char>, k: int) -> int
    decreases s.len() - k,
{
    if k < s.len() && is_ident_char(s[k]) {
        ident_end(s, k + 1)
    } else {
        k
    }
}

/// The first position at or after `k` that cannot continue a numeric
/// literal (neither a digit nor a decimal point).
pub open spec fn num_end(s: Seq<char>, k: int) -> int
    decreases s.len() - k,
{
    if k < s.len() && (is_digit(s[k]) || s[k] == '.') {
        num_end(s, k + 1)
    } else {
        k
    }
}

/// The first position at or after `k` that ends a character literal's body:
/// the closing quote, a non-ASCII character, or the end of the input.
pub open spec fn char_end(s: Seq<char>, k: int) -> int
    decreases s.len() - k,
{
    if k < s.len() && is_ascii_char(s[k]) && s[k] != '\'' {
        char_end(s, k + 1)
    } else {
        k
    }
}

/// The first position at or after `k` holding a newline, or the end of the
/// input: where a line comment's body ends.
pub open spec fn line_end(s: Seq<char>, k: int) -> int
    decreases s.len() - k,
{
    if k < s.len() && s[k] != '\n' {
        line_end(s, k + 1)
    } else {
        k
    }
}

/// The decimal value of a sequence of digit characters.
pub open spec fn dec_val(digits: Seq<char>) -> int
    decreases digits.len(),
{
    if digits.len() == 0 {
        0
    } else {
        dec_val(digits.drop_last()) * 10 + (digits.last() as u32 - '0' as u32)
    }
}

/// How many times `c` occurs in `s`.
pub open spec fn count_char(s: Seq<char>, c: char) -> int
    decreases s.len(),
{
    if s.len() == 0 {
        0
    } else {
        count_char(s.drop_last(), c) + if s.last() == c {
            1int
        } else {
            0int
        }
    }
}

/// The token for an identifier-shaped lexeme: one of the eleven keywords on
/// an exact match, an identifier token carrying the lexeme otherwise.
pub open spec fn keyword_or_id(lexeme: Seq<char>) -> SpecToken {
    if lexeme == seq!['i', 'n', 't'] {
        SpecToken::IntT
    } else if lexeme == seq!['f', 'l', 'o', 'a', 't'] {
        SpecToken::FloatT
    } else if lexeme == seq!['c', 'h', 'a', 'r'] {
        SpecToken::CharT
    } else if lexeme == seq!['b', 'o', 'o', 'l'] {
        SpecToken::BoolT
    } else if lexeme == seq!['v', 'o', 'i', 'd'] {
        SpecToken::VoidT
    } else if lexeme == seq!['t', 'r', 'u', 'e'] {
        SpecToken::BoolTrue
    } else if lexeme == seq!['f', 'a', 'l', 's', 'e'] {
        SpecToken::BoolFalse
    } else if lexeme == seq!['i', 'f'] {
        SpecToken::If
    } else if lexeme == seq!['e', 'l', 's', 'e'] {
        SpecToken::Else
    } else if lexeme == seq!['w', 'h', 'i', 'l', 'e'] {
        SpecToken::While
    } else if lexeme == seq!['r', 'e', 't', 'u', 'r', 'n'] {
        SpecToken::Return
    } else {
        SpecToken::Id { lexeme }
    }
}

/// The largest value an integer literal may decode to.
pub open spec fn int_literal_max() -> int {
    0x7fff_ffff
}

/// One step of the scan, at position `i` (which must hold a non-whitespace
/// character): either a token (or no token, for a line comment) together
/// with the position right after it, or the first lexical error.
pub open spec fn scan_token(s: Seq<char>, i: int) -> Result<(Option<SpecToken>, int), LexError> {
    let c = s[i];
    if c == '(' {
        Ok((Some(SpecToken::LP), i + 1))
    } else if c == ')' {
        Ok((Some(SpecToken::RP), i + 1))
    } else if c == '{' {
        Ok((Some(SpecToken::LC), i + 1))
    } else if c == '}' {
        Ok((Some(SpecToken::RC), i + 1))
    } else if c == '[' {
        Ok((Some(SpecToken::LB), i + 1))
    } else if c == ']' {
        Ok((Some(SpecToken::RB), i + 1))
    } else if c == ';' {
        Ok((Some(SpecToken::Semicolon), i + 1))
    } else if c == ',' {
        Ok((Some(SpecToken::Comma), i + 1))
    } else if c == '=' {
        if i + 1 < s.len() && s[i + 1] == '=' {
            Ok((Some(SpecToken::Equal), i + 2))
        } else {
            Ok((Some(SpecToken::Assignment), i + 1))
        }
    } else if c == '>' {
        if i + 1 < s.len() && s[i + 1] == '=' {
            Ok((Some(SpecToken::BiggerEqual), i + 2))
        } else {
            Ok((Some(SpecToken::Bigger), i + 1))
        }
    } else if c == '<' {
        if i + 1 < s.len() && s[i + 1] == '=' {
            Ok((Some(SpecToken::LesserEqual), i + 2))
        } else {
            Ok((Some(SpecToken::Lesser), i + 1))
        }
    } else if c == '!' {
        if i + 1 < s.len() && s[i + 1] == '=' {
            Ok((Some(SpecToken::NotEqual), i + 2))
        } else {
            Ok((Some(SpecToken::Negation), i + 1))
        }
    } else if c == '+' {
        if i + 1 < s.len() && s[i + 1] == '+' {
            Ok((Some(SpecToken::Inc), i + 2))
        } else if i + 1 < s.len() && s[i + 1] == '=' {
            Ok((Some(SpecToken::UnAdd), i + 2))
        } else if i + 1 < s.len() && !is_space(s[i + 1]) && !is_alnum(s[i + 1]) {
            Err(LexError { kind: LexErrorKind::InvalidCompound, pos: i as usize })
        } else {
            Ok((Some(SpecToken::Plus), i + 1))
        }
    } else if c == '-' {
        if i + 1 < s.len() && s[i + 1] == '-' {
            Ok((Some(SpecToken::Dec), i + 2))
        } else if i + 1 < s.len() && s[i + 1] == '=' {
            Ok((Some(SpecToken::UnSub), i + 2))
        } else if i + 1 < s.len() && !is_space(s[i + 1]) && !is_alnum(s[i + 1]) {
            Err(LexError { kind: LexErrorKind::InvalidCompound, pos: i as usize })
        } else {
            Ok((Some(SpecToken::Minus), i + 1))
        }
    } else if c == '*' {
        if i + 1 < s.len() && s[i + 1] == '=' {
            Ok((Some(SpecToken::UnMul), i + 2))
        } else if i + 1 < s.len() && !is_space(s[i + 1]) && !is_alnum(s[i + 1]) {
            Err(LexError { kind: LexErrorKind::InvalidCompound, pos: i as usize })
        } else {
            Ok((Some(SpecToken::Star), i + 1))
        }
    } else if c == '/' {
        if i + 1 < s.len() && s[i + 1] == '/' {
            Ok((None, line_end(s, i + 2)))
        } else if i + 1 < s.len() && s[i + 1] == '=' {
            Ok((Some(SpecToken::UnDiv), i + 2))
        } else if i + 1 < s.len() && !is_space(s[i + 1]) && !is_alnum(s[i + 1]) {
            Err(LexError { kind: LexErrorKind::InvalidCompound, pos: i as usize })
        } else {
            Ok((Some(SpecToken::Slash), i + 1))
        }
    } else if is_alpha(c) {
        let j = ident_end(s, i + 1);
        Ok((Some(keyword_or_id(s.subrange(i, j))), j))
    } else if is_digit(c) {
        let j = num_end(s, i + 1);
        let lexeme = s.subrange(i, j);
        let dots = count_char(lexeme, '.');
        if dots > 1 {
            Err(LexError { kind: LexErrorKind::MultipleDecimalPoints, pos: i as usize })
        } else if dots == 1 {
            Ok((Some(SpecToken::FloatN { lexeme }), j))
        } else if dec_val(lexeme) > int_literal_max() {
            Err(LexError { kind: LexErrorKind::IntLiteralOverflow, pos: i as usize })
        } else {
            Ok((Some(SpecToken::IntN { num: dec_val(lexeme) as i32 }), j))
        }
    } else if c == '\'' {
        let j = char_end(s, i + 1);
        let after = if j < s.len() {
            j + 1
        } else {
            j
        };
        if j - (i + 1) != 1 {
            Err(LexError { kind: LexErrorKind::CharLiteralLength, pos: i as usize })
        } else {
            Ok((Some(SpecToken::CharN { num: s[i + 1] as u8 }), after))
        }
    } else {
        Err(LexError { kind: LexErrorKind::UnrecognizedSymbol, pos: i as usize })
    }
}

/// Each scan end helper stays within `[k, s.len()]`.
pub proof fn lemma_scan_ends(s: Seq<char>, k: int)
    requires
        0 <= k <= s.len(),
    ensures
        k <= ident_end(s, k) <= s.len(),
        k <= num_end(s, k) <= s.len(),
        k <= char_end(s, k) <= s.len(),
        k <= line_end(s, k) <= s.len(),
    decreases s.len() - k,
{
    if k < s.len() {
        lemma_scan_ends(s, k + 1);
    }
}

/// A successful scan step lands strictly beyond `i` and within the input.
pub proof fn lemma_scan_token_advances(s: Seq<char>, i: int)
    requires
        0 <= i < s.len(),
    ensures
        scan_token(s, i) matches Ok(r) ==> i < r.1 <= s.len(),
{
    lemma_scan_ends(s, i + 1);
}

/// The token sequence that the scan yields from position `i` on, or the
/// first lexical error.
pub open spec fn lex_spec_from(s: Seq<char>, i: int) -> Result<Seq<SpecToken>, LexError>
    decreases s.len() - i,
    via lex_spec_from_decreases
{
    if i < 0 || i >= s.len() {
        Ok(Seq::empty())
    } else if is_space(s[i]) {
        lex_spec_from(s, i + 1)
    } else {
        match scan_token(s, i) {
            Err(e) => Err(e),
            Ok((ot, j)) => match lex_spec_from(s, j) {
                Err(e) => Err(e),
                Ok(rest) => Ok(
                    match ot {
                        Some(t) => seq![t] + rest,
                        None => rest,
                    },
                ),
            },
        }
    }
}

#[via_fn]
proof fn lex_spec_from_decreases(s: Seq<char>, i: int) {
    if 0 <= i && i < s.len() && !is_space(s[i]) {
        lemma_scan_token_advances(s, i);
    }
}

/// The token sequence for the whole input, or the first lexical error: the
/// specification the lexer is proved against.
pub open spec fn lex_spec(s: Seq<char>) -> Result<Seq<SpecToken>, LexError> {
    lex_spec_from(s, 0)
}

/// Relies on String::push: appends the one character to the end of the string.
pub assume_specification[ String::push ](s: &mut String, ch: char)
    ensures
        final(s)@ == old(s)@.push(ch),
;

/// The ghost mirror of an optional token.
pub open spec fn opt_token_view(ot: Option<Token>) -> Option<SpecToken> {
    match ot {
        Some(t) => Some(t@),
        None => None,
    }
}

/// The characters of `code`, in order, as a vector.
fn chars_of(code: &str) -> (v: Vec<char>)
    ensures
        v@ == code@,
{
    let n = code.unicode_len();
    let mut v: Vec<char> = Vec::new();
    let mut i: usize = 0;
    while i < n
        invariant
            i <= n,
            n == code@.len(),
            v@ == code@.subrange(0, i as int),
        decreases n - i,
    {
        v.push(code.get_char(i));
        i = i + 1;
        proof {
            assert(v@ =~= code@.subrange(0, i as int));
        }
    }
    proof {
        assert(v@ =~= code@);
    }
    v
}

/// A count of occurrences is never negative.
proof fn lemma_count_char_nonneg(s: Seq<char>, c: char)
    ensures
        count_char(s, c) >= 0,
    decreases s.len(),
{
    if s.len() > 0 {
        lemma_count_char_nonneg(s.drop_last(), c);
    }
}

/// If the count of `c` in `s` is zero, `c` occurs nowhere in `s`.
proof fn lemma_count_char_zero(s: Seq<char>, c: char)
    requires
        count_char(s, c) == 0,
    ensures
        forall|m: int| 0 <= m < s.len() ==> s[m] != c,
    decreases s.len(),
{
    if s.len() > 0 {
        lemma_count_char_nonneg(s.drop_last(), c);
        lemma_count_char_zero(s.drop_last(), c);
        assert(forall|m: int| 0 <= m < s.len() - 1 ==> s[m] == s.drop_last()[m]);
    }
}

/// One step of the scan, at a position holding a non-whitespace character:
/// the executable mirror of `scan_token`.
fn scan_token_exec(v: &Vec<char>, i: usize) -> (r: Result<(Option<Token>, usize), LexError>)
    requires
        i < v@.len(),
    ensures
        match r {
            Ok(p) => {
                &&& i < p.1 <= v@.len()
                &&& scan_token(v@, i as int) == Ok::<_, LexError>((opt_token_view(p.0), p.1 as int))
            },
            Err(e) => scan_token(v@, i as int) == Err::<(Option<SpecToken>, int), LexError>(e),
        },
{
    let ghost s = v@;
    let n = v.len();
    let c = v[i];
    if c == '(' {
        Ok((Some(Token::LP), i + 1))
    } else if c == ')' {
        Ok((Some(Token::RP), i + 1))
    } else if c == '{' {
        Ok((Some(Token::LC), i + 1))
    } else if c == '}' {
        Ok((Some(Token::RC), i + 1))
    } else if c == '[' {
        Ok((Some(Token::LB), i + 1))
    } else if c == ']' {
        Ok((Some(Token::RB), i + 1))
    } else if c == ';' {
        Ok((Some(Token::Semicolon), i + 1))
    } else if c == ',' {
        Ok((Some(Token::Comma), i + 1))
    } else if c == '=' {
        if i + 1 < n && v[i + 1] == '=' {
            Ok((Some(Token::Equal), i + 2))
        } else {
            Ok((Some(Token::Assignment), i + 1))
        }
    } else if c == '>' {
        if i + 1 < n && v[i + 1] == '=' {
            Ok((Some(Token::BiggerEqual), i + 2))
        } else {
            Ok((Some(Token::Bigger), i + 1))
        }
    } else if c == '<' {
        if i + 1 < n && v[i + 1] == '=' {
            Ok((Some(Token::LesserEqual), i + 2))
        } else {
            Ok((Some(Token::Lesser), i + 1))
        }
    } else if c == '!' {
        if i + 1 < n && v[i + 1] == '=' {
            Ok((Some(Token::NotEqual), i + 2))
        } else {
            Ok((Some(Token::Negation), i + 1))
        }
    } else if c == '+' || c == '-' || c == '*' || c == '/' {
        if c == '+' && i + 1 < n && v[i + 1] == '+' {
            Ok((Some(Token::Inc), i + 2))
        } else if c == '-' && i + 1 < n && v[i + 1] == '-' {
            Ok((Some(Token::Dec), i + 2))
        } else if c == '/' && i + 1 < n && v[i + 1] == '/' {
            // A line comment: no token, consumed through the end of the line.
            let mut j = i + 2;
            while j < n && v[j] != '\n'
                invariant
                    i + 2 <= j <= n,
                    n == s.len(),
                    s == v@,
                    line_end(s, i + 2) == line_end(s, j as int),
                decreases n - j,
            {
                j = j + 1;
            }
            Ok((None, j))
        } else if i + 1 < n && v[i + 1] == '=' {
            let t = if c == '+' {
                Token::UnAdd
            } else if c == '-' {
                Token::UnSub
            } else if c == '*' {
                Token::UnMul
            } else {
                Token::UnDiv
            };
            Ok((Some(t), i + 2))
        } else if i + 1 < n && !(v[i + 1] == ' ' || v[i + 1] == '\t' || v[i + 1] == '\n' || v[i + 1]
            == '\r') && !(('a' <= v[i + 1] && v[i + 1] <= 'z') || ('A' <= v[i + 1] && v[i + 1]
            <= 'Z') || ('0' <= v[i + 1] && v[i + 1] <= '9')) {
            Err(LexError { kind: LexErrorKind::InvalidCompound, pos: i })
        } else {
            let t = if c == '+' {
                Token::Plus
            } else if c == '-' {
                Token::Minus
            } else if c == '*' {
                Token::Star
            } else {
                Token::Slash
            };
            Ok((Some(t), i + 1))
        }
    } else if ('a' <= c && c <= 'z') || ('A' <= c && c <= 'Z') {
        // An identifier or keyword: maximal munch of letters, digits and '_'.
        let mut j = i + 1;
        let mut lexeme = String::new();
        lexeme.push(c);
        proof {
            assert(lexeme@ =~= s.subrange(i as int, j as int));
        }
        while j < n && (('a' <= v[j] && v[j] <= 'z') || ('A' <= v[j] && v[j] <= 'Z') || ('0' <= v[j]
            && v[j] <= '9') || v[j] == '_')
            invariant
                i + 1 <= j <= n,
                i < n,
                n == s.len(),
                s == v@,
                ident_end(s, i + 1) == ident_end(s, j as int),
                lexeme@ == s.subrange(i as int, j as int),
            decreases n - j,
        {
            lexeme.push(v[j]);
            j = j + 1;
            proof {
                assert(lexeme@ =~= s.subrange(i as int, j as int));
            }
        }
        proof {
            assert(ident_end(s, j as int) == j);
        }
        let len = j - i;
        let t = if len == 3 && v[i] == 'i' && v[i + 1] == 'n' && v[i + 2] == 't' {
            proof {
                assert(lexeme@ =~= seq!['i', 'n', 't']);
            }
            Token::IntT
        } else if len == 5 && v[i] == 'f' && v[i + 1] == 'l' && v[i + 2] == 'o' && v[i + 3] == 'a'
            && v[i + 4] == 't' {
            proof {
                assert(lexeme@ =~= seq!['f', 'l', 'o', 'a', 't']);
            }
            Token::FloatT
        } else if len == 4 && v[i] == 'c' && v[i + 1] == 'h' && v[i + 2] == 'a' && v[i + 3] == 'r' {
            proof {
                assert(lexeme@ =~= seq!['c', 'h', 'a', 'r']);
            }
            Token::CharT
        } else if len == 4 && v[i] == 'b' && v[i + 1] == 'o' && v[i + 2] == 'o' && v[i + 3] == 'l' {
            proof {
                assert(lexeme@ =~= seq!['b', 'o', 'o', 'l']);
            }
            Token::BoolT
        } else if len == 4 && v[i] == 'v' && v[i + 1] == 'o' && v[i + 2] == 'i' && v[i + 3] == 'd' {
            proof {
                assert(lexeme@ =~= seq!['v', 'o', 'i', 'd']);
            }
            Token::VoidT
        } else if len == 4 && v[i] == 't' && v[i + 1] == 'r' && v[i + 2] == 'u' && v[i + 3] == 'e' {
            proof {
                assert(lexeme@ =~= seq!['t', 'r', 'u', 'e']);
            }
            Token::BoolTrue
        } else if len == 5 && v[i] == 'f' && v[i + 1] == 'a' && v[i + 2] == 'l' && v[i + 3] == 's'
            && v[i + 4] == 'e' {
            proof {
                assert(lexeme@ =~= seq!['f', 'a', 'l', 's', 'e']);
            }
            Token::BoolFalse
        } else if len == 2 && v[i] == 'i' && v[i + 1] == 'f' {
            proof {
                assert(lexeme@ =~= seq!['i', 'f']);
            }
            Token::If
        } else if len == 4 && v[i] == 'e' && v[i + 1] == 'l' && v[i + 2] == 's' && v[i + 3] == 'e' {
            proof {
                assert(lexeme@ =~= seq!['e', 'l', 's', 'e']);
            }
            Token::Else
        } else if len == 5 && v[i] == 'w' && v[i + 1] == 'h' && v[i + 2] == 'i' && v[i + 3] == 'l'
            && v[i + 4] == 'e' {
            proof {
                assert(lexeme@ =~= seq!['w', 'h', 'i', 'l', 'e']);
            }
            Token::While
        } else if len == 6 && v[i] == 'r' && v[i + 1] == 'e' && v[i + 2] == 't' && v[i + 3] == 'u'
            && v[i + 4] == 'r' && v[i + 5] == 'n' {
            proof {
                assert(lexeme@ =~= seq!['r', 'e', 't', 'u', 'r', 'n']);
            }
            Token::Return
        } else {
            Token::Id { tok_lexeme: lexeme }
        };
        Ok((Some(t), j))
    } else if '0' <= c && c <= '9' {
        // A numeric literal: maximal munch of digits and decimal points.
        let mut j = i + 1;
        let mut dots: usize = 0;
        let mut lexeme = String::new();
        lexeme.push(c);
        proof {
            assert(lexeme@ =~= s.subrange(i as int, j as int));
            assert(s.subrange(i as int, j as int).drop_last() =~= Seq::<char>::empty());
            assert(count_char(Seq::<char>::empty(), '.') == 0);
            assert(count_char(s.subrange(i as int, j as int), '.') == 0);
        }
        while j < n && (('0' <= v[j] && v[j] <= '9') || v[j] == '.')
            invariant
                i + 1 <= j <= n,
                i < n,
                is_digit(s[i as int]),
                dots <= j - i,
                n == s.len(),
                s == v@,
                num_end(s, i + 1) == num_end(s, j as int),
                lexeme@ == s.subrange(i as int, j as int),
                dots as int == count_char(s.subrange(i as int, j as int), '.'),
                forall|m: int| i < m < j ==> is_digit(s[m]) || s[m] == '.',
            decreases n - j,
        {
            if v[j] == '.' {
                dots = dots + 1;
            }
            lexeme.push(v[j]);
            j = j + 1;
            proof {
                assert(lexeme@ =~= s.subrange(i as int, j as int));
                assert(s.subrange(i as int, j as int).drop_last() =~= s.subrange(
                    i as int,
                    j - 1 as int,
                ));
            }
        }
        proof {
            assert(num_end(s, j as int) == j);
        }
        if dots > 1 {
            Err(LexError { kind: LexErrorKind::MultipleDecimalPoints, pos: i })
        } else if dots == 1 {
            Ok((Some(Token::FloatN { lexeme }), j))
        } else {
            // All characters of the lexeme are digits; decode, watching for
            // values beyond the 32-bit signed range.
            proof {
                lemma_count_char_zero(s.subrange(i as int, j as int), '.');
                assert forall|m: int| i <= m < j implies is_digit(s[m]) by {
                    assert(s.subrange(i as int, j as int)[m - i] != '.');
                }
            }
            let mut val: u64 = 0;
            let mut over = false;
            let mut k = i;
            while k < j
                invariant
                    i <= k <= j <= n,
                    n == s.len(),
                    s == v@,
                    forall|m: int| i <= m < j ==> is_digit(s[m]),
                    !over ==> val as int == dec_val(s.subrange(i as int, k as int)) && val
                        <= 0x7fff_ffff,
                    over ==> dec_val(s.subrange(i as int, k as int)) > 0x7fff_ffff,
                decreases j - k,
            {
                let d = (v[k] as u32) - 48;
                proof {
                    assert(s.subrange(i as int, k + 1 as int).drop_last() =~= s.subrange(
                        i as int,
                        k as int,
                    ));
                }
                if over {
                    proof {
                        let prev = dec_val(s.subrange(i as int, k as int));
                        assert(prev * 10 + (d as int) > 0x7fff_ffff) by (nonlinear_arith)
                            requires
                                prev > 0x7fff_ffff,
                                d >= 0,
                        ;
                    }
                } else {
                    let next = val * 10 + (d as u64);
                    if next > 0x7fff_ffff {
                        over = true;
                    } else {
                        val = next;
                    }
                }
                k = k + 1;
            }
            if over {
                Err(LexError { kind: LexErrorKind::IntLiteralOverflow, pos: i })
            } else {
                Ok((Some(Token::IntN { num: val as i32 }), j))
            }
        }
    } else if c == '\'' {
        // A character literal: exactly one ASCII byte before the closing quote.
        let mut j = i + 1;
        while j < n && (v[j] as u32) < 128 && v[j] != '\''
            invariant
                i + 1 <= j <= n,
                n == s.len(),
                s == v@,
                char_end(s, i + 1) == char_end(s, j as int),
            decreases n - j,
        {
            j = j + 1;
        }
        proof {
            assert(char_end(s, j as int) == j);
        }
        let after = if j < n {
            j + 1
        } else {
            j
        };
        if j - (i + 1) != 1 {
            Err(LexError { kind: LexErrorKind::CharLiteralLength, pos: i })
        } else {
            Ok((Some(Token::CharN { num: v[i + 1] as u8 }), after))
        }
    } else {
        Err(LexError { kind: LexErrorKind::UnrecognizedSymbol, pos: i })
    }
}

/// Scan the whole source text, appending the token sequence that `lex_spec`
/// assigns to it, or return its first lexical error and append nothing.
pub fn lex(code: &String, tokens: &mut Vec<Token>) -> (r: Result<(), LexError>)
    ensures
        match r {
            Ok(_) => {
                &&& lex_spec(code@) is Ok
                &&& final(tokens).deep_view() == old(tokens).deep_view() + lex_spec(code@)->Ok_0
            },
            Err(e) => {
                &&& lex_spec(code@) == Err::<Seq<SpecToken>, LexError>(e)
                &&& final(tokens).deep_view() == old(tokens).deep_view()
            },
        },
{
    let ghost s = code@;
    let v = chars_of(code.as_str());
    let n = v.len();
    let mut out: Vec<Token> = Vec::new();
    let mut i: usize = 0;
    while i < n
        invariant
            i <= n,
            n == s.len(),
            s == v@,
            s == code@,
            (lex_spec_from(s, i as int) matches Ok(rest) ==> lex_spec_from(s, 0) == Ok::<
                _,
                LexError,
            >(out.deep_view() + rest)),
            (lex_spec_from(s, i as int) matches Err(e) ==> lex_spec_from(s, 0) == Err::<
                Seq<SpecToken>,
                LexError,
            >(e)),
        decreases n - i,
    {
        let c = v[i];
        if c == ' ' || c == '\t' || c == '\n' || c == '\r' {
            i = i + 1;
        } else {
            match scan_token_exec(&v, i) {
                Err(e) => {
                    return Err(e);
                },
                Ok((ot, j)) => {
                    let ghost before = out.deep_view();
                    match ot {
                        Some(t) => {
                            out.push(t);
                            proof {
                                assert(out.deep_view() =~= before.push(t@));
                            }
                        },
                        None => {},
                    }
                    proof {
                        match lex_spec_from(s, j as int) {
                            Ok(rest) => {
                                assert(out.deep_view() + rest =~= before + (match opt_token_view(
                                    ot,
                                ) {
                                    Some(t) => seq![t] + rest,
                                    None => rest,
                                }));
                            },
                            Err(_) => {},
                        }
                    }
                    i = j;
                },
            }
        }
    }
    proof {
        assert(lex_spec_from(s, i as int) == Ok::<Seq<SpecToken>, LexError>(Seq::empty()));
        assert(out.deep_view() + Seq::<SpecToken>::empty() =~= out.deep_view());
    }
    let mut moved = out;
    tokens.append(&mut moved);
    proof {
        assert(tokens.deep_view() =~= old(tokens).deep_view() + lex_spec(code@)->Ok_0);
    }
    Ok(())
}


/// Every valid two-character operator sequence scans to exactly one
/// compound token spanning both characters, never to two single-character
/// tokens: the step consumes both characters at once.
pub proof fn lemma_compound_operators(s: Seq<char>, i: int)
    requires
        0 <= i,
        i + 1 < s.len(),
    ensures
        s[i] == '=' && s[i + 1] == '=' ==> scan_token(s, i) == Ok::<_, LexError>(
            (Some(SpecToken::Equal), i + 2),
        ),
        s[i] == '!' && s[i + 1] == '=' ==> scan_token(s, i) == Ok::<_, LexError>(
            (Some(SpecToken::NotEqual), i + 2),
        ),
        s[i] == '<' && s[i + 1] == '=' ==> scan_token(s, i) == Ok::<_, LexError>(
            (Some(SpecToken::LesserEqual), i + 2),
        ),
        s[i] == '>' && s[i + 1] == '=' ==> scan_token(s, i) == Ok::<_, LexError>(
            (Some(SpecToken::BiggerEqual), i + 2),
        ),
        s[i] == '+' && s[i + 1] == '+' ==> scan_token(s, i) == Ok::<_, LexError>(
            (Some(SpecToken::Inc), i + 2),
        ),
        s[i] == '-' && s[i + 1] == '-' ==> scan_token(s, i) == Ok::<_, LexError>(
            (Some(SpecToken::Dec), i + 2),
        ),
        s[i] == '+' && s[i + 1] == '=' ==> scan_token(s, i) == Ok::<_, LexError>(
            (Some(SpecToken::UnAdd), i + 2),
        ),
        s[i] == '-' && s[i + 1] == '=' ==> scan_token(s, i) == Ok::<_, LexError>(
            (Some(SpecToken::UnSub), i + 2),
        ),
        s[i] == '*' && s[i + 1] == '=' ==> scan_token(s, i) == Ok::<_, LexError>(
            (Some(SpecToken::UnMul), i + 2),
        ),
        s[i] == '/' && s[i + 1] == '=' ==> scan_token(s, i) == Ok::<_, LexError>(
            (Some(SpecToken::UnDiv), i + 2),
        ),
{
}

/// A numeric literal is scanned by maximal munch of digits and decimal
/// points: with no point it is an integer token holding the exact decimal
/// value (or an overflow error past the 32-bit signed range); with one
/// point it is a float token holding the exact lexeme; with two or more
/// points it is a lexical error.
pub proof fn lemma_number_literal(s: Seq<char>, i: int)
    requires
        0 <= i < s.len(),
        is_digit(s[i]),
    ensures
        ({
            let j = num_end(s, i + 1);
            let lexeme = s.subrange(i, j);
            let dots = count_char(lexeme, '.');
            &&& dots == 0 && dec_val(lexeme) <= int_literal_max() ==> scan_token(s, i) == Ok::<
                _,
                LexError,
            >((Some(SpecToken::IntN { num: dec_val(lexeme) as i32 }), j))
            &&& dots == 0 && dec_val(lexeme) > int_literal_max() ==> scan_token(s, i) == Err::<
                (Option<SpecToken>, int),
                _,
            >(LexError { kind: LexErrorKind::IntLiteralOverflow, pos: i as usize })
            &&& dots == 1 ==> scan_token(s, i) == Ok::<_, LexError>(
                (Some(SpecToken::FloatN { lexeme }), j),
            )
            &&& dots >= 2 ==> scan_token(s, i) == Err::<(Option<SpecToken>, int), _>(
                LexError { kind: LexErrorKind::MultipleDecimalPoints, pos: i as usize },
            )
        }),
{
}

/// A character literal holding exactly one ASCII byte scans to a char
/// token with that byte's value; an empty literal and one holding two
/// bytes are both lexical errors.
pub proof fn lemma_char_literal(s: Seq<char>, i: int)
    requires
        0 <= i < s.len(),
        s[i] == '\'',
    ensures
        i + 2 < s.len() && is_ascii_char(s[i + 1]) && s[i + 1] != '\'' && s[i + 2] == '\''
            ==> scan_token(s, i) == Ok::<_, LexError>(
            (Some(SpecToken::CharN { num: s[i + 1] as u8 }), i + 3),
        ),
        i + 1 < s.len() && s[i + 1] == '\'' ==> scan_token(s, i) == Err::<
            (Option<SpecToken>, int),
            _,
        >(LexError { kind: LexErrorKind::CharLiteralLength, pos: i as usize }),
        i + 3 < s.len() && is_ascii_char(s[i + 1]) && s[i + 1] != '\'' && is_ascii_char(s[i + 2])
            && s[i + 2] != '\'' && s[i + 3] == '\'' ==> scan_token(s, i) == Err::<
            (Option<SpecToken>, int),
            _,
        >(LexError { kind: LexErrorKind::CharLiteralLength, pos: i as usize }),
{
    if i + 2 < s.len() && is_ascii_char(s[i + 1]) && s[i + 1] != '\'' && s[i + 2] == '\'' {
        assert(char_end(s, i + 2) == i + 2);
        assert(char_end(s, i + 1) == i + 2);
    }
    if i + 1 < s.len() && s[i + 1] == '\'' {
        assert(char_end(s, i + 1) == i + 1);
    }
    if i + 3 < s.len() && is_ascii_char(s[i + 1]) && s[i + 1] != '\'' && is_ascii_char(s[i + 2])
        && s[i + 2] != '\'' && s[i + 3] == '\'' {
        assert(char_end(s, i + 3) == i + 3);
        assert(char_end(s, i + 2) == i + 3);
        assert(char_end(s, i + 1) == i + 3);
    }
}

/// Scanning is a pure function of the input: any two successful runs over
/// the same character sequence yield identical token sequences.
pub proof fn lemma_lex_deterministic(s: Seq<char>, ts1: Seq<SpecToken>, ts2: Seq<SpecToken>)
    requires
        lex_spec(s) == Ok::<Seq<SpecToken>, LexError>(ts1),
        lex_spec(s) == Ok::<Seq<SpecToken>, LexError>(ts2),
    ensures
        ts1 == ts2,
{
}

} // verus!
