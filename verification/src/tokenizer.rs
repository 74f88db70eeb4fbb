//! The tokenizer of the rule-definition language.
//!
//! [`lex`] splits an input into tokens by longest match, trying the token
//! rules in a fixed order: identifiers, dice expressions, numbers, quoted
//! strings, punctuation, the section divider, operators, whitespace; a
//! character no rule accepts becomes an `Unknown` token of one character.
//! The spec functions of this module define each rule character by
//! character; the lexer returns exactly the token sequence they denote.
//!
//! The rules keep every token well defined: a number token is a plain
//! digit run whose value fits an `i32` (a larger run becomes an `Unknown`
//! token), whitespace is the ASCII whitespace characters, and a backslash
//! followed by a quote stays inside a string token.

use vstd::prelude::*;
use vstd::string::StrSliceExecFns;
use vstd::string::StringExecFns;

use crate::text::{digits_val, is_ascii_digit, spec_i32_string};

verus! {

/// Mathematical view of a [`TokenType`].
#[verifier::ext_equal]
pub enum TokenTypeView {
    Identifier(Seq<char>),
    Dice(Seq<char>),
    Number(i32),
    String(Seq<char>),
    OpeningBracket,
    ClosingBracket,
    Colon,
    Semicolon,
    Section,
    Operator(Seq<char>),
    Whitespace(Seq<char>),
    EndOfInput,
    Unknown(Seq<char>),
}

/// Mathematical view of a [`Token`].
#[verifier::ext_equal]
pub struct TokenView {
    pub token_type: TokenTypeView,
    pub offset: int,
}

/// One token of the rule-definition language.
#[derive(Debug, PartialEq, Eq)]
pub enum TokenType {
    Identifier(String),
    Dice(String),
    Number(i32),
    String(String),
    OpeningBracket,
    ClosingBracket,
    Colon,
    Semicolon,
    /// The section divider `---`.
    Section,
    Operator(String),
    Whitespace(String),
    EndOfInput,
    Unknown(String),
}

impl DeepView for TokenType {
    type V = TokenTypeView;

    open spec fn deep_view(&self) -> TokenTypeView {
        match self {
            TokenType::Identifier(t) => TokenTypeView::Identifier(t@),
            TokenType::Dice(t) => TokenTypeView::Dice(t@),
            TokenType::Number(n) => TokenTypeView::Number(*n),
            TokenType::String(t) => TokenTypeView::String(t@),
            TokenType::OpeningBracket => TokenTypeView::OpeningBracket,
            TokenType::ClosingBracket => TokenTypeView::ClosingBracket,
            TokenType::Colon => TokenTypeView::Colon,
            TokenType::Semicolon => TokenTypeView::Semicolon,
            TokenType::Section => TokenTypeView::Section,
            TokenType::Operator(t) => TokenTypeView::Operator(t@),
            TokenType::Whitespace(t) => TokenTypeView::Whitespace(t@),
            TokenType::EndOfInput => TokenTypeView::EndOfInput,
            TokenType::Unknown(t) => TokenTypeView::Unknown(t@),
        }
    }
}

impl Clone for TokenType {
    fn clone(&self) -> (res: Self)
        ensures
            res.deep_view() == self.deep_view(),
    {
        match self {
            TokenType::Identifier(t) => TokenType::Identifier(t.clone()),
            TokenType::Dice(t) => TokenType::Dice(t.clone()),
            TokenType::Number(n) => TokenType::Number(*n),
            TokenType::String(t) => TokenType::String(t.clone()),
            TokenType::OpeningBracket => TokenType::OpeningBracket,
            TokenType::ClosingBracket => TokenType::ClosingBracket,
            TokenType::Colon => TokenType::Colon,
            TokenType::Semicolon => TokenType::Semicolon,
            TokenType::Section => TokenType::Section,
            TokenType::Operator(t) => TokenType::Operator(t.clone()),
            TokenType::Whitespace(t) => TokenType::Whitespace(t.clone()),
            TokenType::EndOfInput => TokenType::EndOfInput,
            TokenType::Unknown(t) => TokenType::Unknown(t.clone()),
        }
    }
}

/// One token together with its character offset in the input.
#[derive(Debug, PartialEq, Eq)]
pub struct Token {
    pub token_type: TokenType,
    pub offset: i32,
}

impl DeepView for Token {
    type V = TokenView;

    open spec fn deep_view(&self) -> TokenView {
        TokenView { token_type: self.token_type.deep_view(), offset: self.offset as int }
    }
}

impl Clone for Token {
    fn clone(&self) -> (res: Self)
        ensures
            res.deep_view() == self.deep_view(),
    {
        Token { token_type: self.token_type.clone(), offset: self.offset }
    }
}

impl Token {
    /// Creates a token at the given offset.
    pub fn new(token_type: TokenType, offset: i32) -> (res: Self)
        ensures
            res.token_type == token_type,
            res.offset == offset,
    {
        Token { token_type, offset }
    }
}

/// Whether `c` may start an identifier.
pub open spec fn is_ident_start(c: char) -> bool {
    (('a' as u32) <= (c as u32) && (c as u32) <= ('z' as u32)) || (('A' as u32) <= (c as u32) && (
    c as u32) <= ('Z' as u32)) || c == '_'
}

/// Whether `c` may continue an identifier.
pub open spec fn is_ident_cont(c: char) -> bool {
    is_ident_start(c) || c == '-'
}

/// Whether `c` is an operator.
pub open spec fn is_operator_char(c: char) -> bool {
    c == '+' || c == '-' || c == '*' || c == '/'
}

/// Whether `c` is whitespace.
pub open spec fn is_space_char(c: char) -> bool {
    c == ' ' || c == '\t' || c == '\n' || c == '\r' || c == '\u{b}' || c == '\u{c}'
}

/// The length of the run of identifier characters starting at `j`.
pub open spec fn ident_run(s: Seq<char>, j: int) -> int
    decreases s.len() - j,
{
    if 0 <= j < s.len() && is_ident_cont(s[j]) {
        1 + ident_run(s, j + 1)
    } else {
        0
    }
}

/// The length of the run of digits starting at `j`.
pub open spec fn digit_run(s: Seq<char>, j: int) -> int
    decreases s.len() - j,
{
    if 0 <= j < s.len() && is_ascii_digit(s[j]) {
        1 + digit_run(s, j + 1)
    } else {
        0
    }
}

/// The length of the run of whitespace starting at `j`.
pub open spec fn space_run(s: Seq<char>, j: int) -> int
    decreases s.len() - j,
{
    if 0 <= j < s.len() && is_space_char(s[j]) {
        1 + space_run(s, j + 1)
    } else {
        0
    }
}

/// Runs are non-negative and stay inside the input.
pub proof fn lemma_digit_run_bounds(s: Seq<char>, j: int)
    ensures
        0 <= digit_run(s, j),
        0 <= j <= s.len() ==> j + digit_run(s, j) <= s.len(),
        forall|t: int| j <= t < j + digit_run(s, j) ==> is_ascii_digit(#[trigger] s[t]),
    decreases s.len() - j,
{
    if 0 <= j < s.len() && is_ascii_digit(s[j]) {
        lemma_digit_run_bounds(s, j + 1);
    }
}

/// As [`lemma_digit_run_bounds`], for identifier runs.
pub proof fn lemma_ident_run_bounds(s: Seq<char>, j: int)
    ensures
        0 <= ident_run(s, j),
        0 <= j <= s.len() ==> j + ident_run(s, j) <= s.len(),
    decreases s.len() - j,
{
    if 0 <= j < s.len() && is_ident_cont(s[j]) {
        lemma_ident_run_bounds(s, j + 1);
    }
}

/// As [`lemma_digit_run_bounds`], for whitespace runs.
pub proof fn lemma_space_run_bounds(s: Seq<char>, j: int)
    ensures
        0 <= space_run(s, j),
        0 <= j <= s.len() ==> j + space_run(s, j) <= s.len(),
    decreases s.len() - j,
{
    if 0 <= j < s.len() && is_space_char(s[j]) {
        lemma_space_run_bounds(s, j + 1);
    }
}

/// The additional length that sign-joined dice terms and a final bonus
/// contribute to a dice expression starting at `j`.
pub open spec fn dice_ext(s: Seq<char>, j: int) -> int
    decreases s.len() - j,
        when true
        via dice_ext_decreases
{
    if 0 <= j && j < s.len() && (s[j] == '+' || s[j] == '-') {
        let d = digit_run(s, j + 1);
        if d == 0 {
            0
        } else {
            let k = j + 1 + d;
            if k < s.len() && s[k] == 'd' && digit_run(s, k + 1) > 0 {
                let d2 = digit_run(s, k + 1);
                1 + d + 1 + d2 + dice_ext(s, k + 1 + d2)
            } else {
                1 + d
            }
        }
    } else {
        0
    }
}

#[via_fn]
proof fn dice_ext_decreases(s: Seq<char>, j: int) {
    lemma_digit_run_bounds(s, j + 1);
    if 0 <= j && j < s.len() && (s[j] == '+' || s[j] == '-') {
        let d = digit_run(s, j + 1);
        if d > 0 {
            lemma_digit_run_bounds(s, j + 1 + d + 1);
        }
    }
}

/// The extension is non-negative and stays inside the input.
pub proof fn lemma_dice_ext_bounds(s: Seq<char>, j: int)
    ensures
        0 <= dice_ext(s, j),
        0 <= j <= s.len() ==> j + dice_ext(s, j) <= s.len(),
    decreases s.len() - j,
{
    lemma_digit_run_bounds(s, j + 1);
    if 0 <= j && j < s.len() && (s[j] == '+' || s[j] == '-') {
        let d = digit_run(s, j + 1);
        if d > 0 {
            let k = j + 1 + d;
            lemma_digit_run_bounds(s, k + 1);
            if k < s.len() && s[k] == 'd' && digit_run(s, k + 1) > 0 {
                let d2 = digit_run(s, k + 1);
                lemma_dice_ext_bounds(s, k + 1 + d2);
            }
        }
    }
}

/// The length of the dice expression starting at `i`, or zero if none
/// starts there: digits, `d`, digits, then sign-joined further dice terms
/// and at most one final signed bonus.
pub open spec fn dice_len(s: Seq<char>, i: int) -> int {
    let d1 = digit_run(s, i);
    if d1 > 0 && i + d1 < s.len() && s[i + d1] == 'd' {
        let d2 = digit_run(s, i + d1 + 1);
        if d2 > 0 {
            d1 + 1 + d2 + dice_ext(s, i + d1 + 1 + d2)
        } else {
            0
        }
    } else {
        0
    }
}

/// The length of the string content starting right after an opening
/// quote, or a negative number if no closing quote follows.  A backslash
/// followed by a quote stays inside the content.
pub open spec fn string_content_len(s: Seq<char>, j: int) -> int
    decreases s.len() - j,
{
    if j < 0 || j >= s.len() {
        -1
    } else if s[j] == '"' {
        0
    } else if s[j] == '\\' && j + 1 < s.len() && s[j + 1] == '"' {
        let r = string_content_len(s, j + 2);
        if r < 0 {
            -1
        } else {
            2 + r
        }
    } else {
        let r = string_content_len(s, j + 1);
        if r < 0 {
            -1
        } else {
            1 + r
        }
    }
}

/// The content stays inside the input, with the closing quote after it.
pub proof fn lemma_string_content_bounds(s: Seq<char>, j: int)
    requires
        string_content_len(s, j) >= 0,
    ensures
        0 <= j <= s.len(),
        j + string_content_len(s, j) < s.len(),
        s[j + string_content_len(s, j)] == '"',
    decreases s.len() - j,
{
    if s[j] == '"' {
    } else if s[j] == '\\' && j + 1 < s.len() && s[j + 1] == '"' {
        lemma_string_content_bounds(s, j + 2);
    } else {
        lemma_string_content_bounds(s, j + 1);
    }
}

/// The token starting at position `i` and its length: the first rule of
/// the fixed order that accepts a non-empty prefix, or an `Unknown` token
/// of one character.
pub open spec fn token_at(s: Seq<char>, i: int) -> (TokenTypeView, int)
    recommends
        0 <= i < s.len(),
{
    let id_len = if is_ident_start(s[i]) {
        1 + ident_run(s, i + 1)
    } else {
        0
    };
    if id_len > 0 {
        (TokenTypeView::Identifier(s.subrange(i, i + id_len)), id_len)
    } else {
        let dl = dice_len(s, i);
        if dl > 0 {
            (TokenTypeView::Dice(s.subrange(i, i + dl)), dl)
        } else {
            let nl = digit_run(s, i);
            if nl > 0 {
                let v = digits_val(s.subrange(i, i + nl));
                if v <= i32::MAX {
                    (TokenTypeView::Number(v as i32), nl)
                } else {
                    (TokenTypeView::Unknown(s.subrange(i, i + nl)), nl)
                }
            } else if s[i] == '"' && string_content_len(s, i + 1) >= 0 {
                let cl = string_content_len(s, i + 1);
                (TokenTypeView::String(s.subrange(i + 1, i + 1 + cl)), cl + 2)
            } else if s[i] == '{' {
                (TokenTypeView::OpeningBracket, 1)
            } else if s[i] == '}' {
                (TokenTypeView::ClosingBracket, 1)
            } else if s[i] == ':' {
                (TokenTypeView::Colon, 1)
            } else if s[i] == ';' {
                (TokenTypeView::Semicolon, 1)
            } else if i + 3 <= s.len() && s[i] == '-' && s[i + 1] == '-' && s[i + 2] == '-' {
                (TokenTypeView::Section, 3)
            } else if is_operator_char(s[i]) {
                (TokenTypeView::Operator(seq![s[i]]), 1)
            } else {
                let wl = space_run(s, i);
                if wl > 0 {
                    (TokenTypeView::Whitespace(s.subrange(i, i + wl)), wl)
                } else {
                    (TokenTypeView::Unknown(seq![s[i]]), 1)
                }
            }
        }
    }
}

/// Every token is at least one character long and stays inside the input.
pub proof fn lemma_token_at_bounds(s: Seq<char>, i: int)
    requires
        0 <= i < s.len(),
    ensures
        1 <= token_at(s, i).1,
        i + token_at(s, i).1 <= s.len(),
{
    lemma_ident_run_bounds(s, i + 1);
    lemma_digit_run_bounds(s, i);
    lemma_space_run_bounds(s, i);
    let d1 = digit_run(s, i);
    if d1 > 0 && i + d1 < s.len() && s[i + d1] == 'd' {
        lemma_digit_run_bounds(s, i + d1 + 1);
        let d2 = digit_run(s, i + d1 + 1);
        if d2 > 0 {
            lemma_dice_ext_bounds(s, i + d1 + 1 + d2);
        }
    }
    if s[i] == '"' && string_content_len(s, i + 1) >= 0 {
        lemma_string_content_bounds(s, i + 1);
    }
}

/// The token sequence of the input from position `i` on, ending with an
/// `EndOfInput` token at the input's end.
pub open spec fn lex_spec(s: Seq<char>, i: int) -> Seq<TokenView>
    decreases s.len() - i,
        when 0 <= i
        via lex_spec_decreases
{
    if i >= s.len() {
        seq![TokenView { token_type: TokenTypeView::EndOfInput, offset: i }]
    } else {
        let t = token_at(s, i);
        seq![TokenView { token_type: t.0, offset: i }] + lex_spec(s, i + t.1)
    }
}

#[via_fn]
proof fn lex_spec_decreases(s: Seq<char>, i: int) {
    if 0 <= i < s.len() {
        lemma_token_at_bounds(s, i);
    }
}

/// The length of the identifier-character run at `j`.
fn ident_run_exec(s: &str, j: usize) -> (r: usize)
    requires
        j <= s@.len(),
    ensures
        r as int == ident_run(s@, j as int),
        j + r <= s@.len(),
    decreases s@.len() - j,
{
    proof {
        lemma_ident_run_bounds(s@, j as int);
    }
    if j < s.unicode_len() {
        let cu = s.get_char(j) as u32;
        if (cu >= 'a' as u32 && cu <= 'z' as u32) || (cu >= 'A' as u32 && cu <= 'Z' as u32) || cu
            == '_' as u32 || cu == '-' as u32 {
            proof {
                assert(is_ident_cont(s@[j as int]));
            }
            1 + ident_run_exec(s, j + 1)
        } else {
            proof {
                assert(!is_ident_cont(s@[j as int]));
            }
            0
        }
    } else {
        0
    }
}

/// The length of the digit run at `j`.
fn digit_run_exec(s: &str, j: usize) -> (r: usize)
    requires
        j <= s@.len(),
    ensures
        r as int == digit_run(s@, j as int),
        j + r <= s@.len(),
    decreases s@.len() - j,
{
    proof {
        lemma_digit_run_bounds(s@, j as int);
    }
    if j < s.unicode_len() {
        let cu = s.get_char(j) as u32;
        if cu >= '0' as u32 && cu <= '9' as u32 {
            1 + digit_run_exec(s, j + 1)
        } else {
            0
        }
    } else {
        0
    }
}

/// The length of the whitespace run at `j`.
fn space_run_exec(s: &str, j: usize) -> (r: usize)
    requires
        j <= s@.len(),
    ensures
        r as int == space_run(s@, j as int),
        j + r <= s@.len(),
    decreases s@.len() - j,
{
    proof {
        lemma_space_run_bounds(s@, j as int);
    }
    if j < s.unicode_len() {
        let c = s.get_char(j);
        if c == ' ' || c == '\t' || c == '\n' || c == '\r' || c == '\u{b}' || c == '\u{c}' {
            1 + space_run_exec(s, j + 1)
        } else {
            0
        }
    } else {
        0
    }
}

/// The extension length of a dice expression at `j`.
fn dice_ext_exec(s: &str, j: usize) -> (r: usize)
    requires
        j <= s@.len(),
    ensures
        r as int == dice_ext(s@, j as int),
        j + r <= s@.len(),
    decreases s@.len() - j,
{
    proof {
        lemma_dice_ext_bounds(s@, j as int);
    }
    if j < s.unicode_len() {
        let c = s.get_char(j);
        if c == '+' || c == '-' {
            let d = digit_run_exec(s, j + 1);
            if d == 0 {
                0
            } else {
                let k = j + 1 + d;
                if k < s.unicode_len() && s.get_char(k) == 'd' {
                    let d2 = digit_run_exec(s, k + 1);
                    if d2 > 0 {
                        1 + d + 1 + d2 + dice_ext_exec(s, k + 1 + d2)
                    } else {
                        1 + d
                    }
                } else {
                    1 + d
                }
            }
        } else {
            0
        }
    } else {
        0
    }
}

/// The content length of a quoted string opened right before `j`, if the
/// string is terminated.
fn string_content_exec(s: &str, j: usize) -> (r: Option<usize>)
    requires
        j <= s@.len(),
    ensures
        match r {
            Some(c) => string_content_len(s@, j as int) == c as int && j + c < s@.len(),
            None => string_content_len(s@, j as int) < 0,
        },
    decreases s@.len() - j,
{
    proof {
        if string_content_len(s@, j as int) >= 0 {
            lemma_string_content_bounds(s@, j as int);
        }
    }
    if j >= s.unicode_len() {
        None
    } else {
        let c = s.get_char(j);
        if c == '"' {
            Some(0)
        } else if c == '\\' && j + 1 < s.unicode_len() && s.get_char(j + 1) == '"' {
            match string_content_exec(s, j + 2) {
                Some(rest) => Some(2 + rest),
                None => None,
            }
        } else {
            match string_content_exec(s, j + 1) {
                Some(rest) => Some(1 + rest),
                None => None,
            }
        }
    }
}

/// Reads the value of the digit run `s[i..i+n]`, unless it exceeds `i32`.
fn digits_to_i32(s: &str, i: usize, n: usize) -> (r: Option<i32>)
    requires
        i + n <= s@.len(),
        s@.len() <= usize::MAX,
        n as int == digit_run(s@, i as int),
        n > 0,
    ensures
        match r {
            Some(v) => digits_val(s@.subrange(i as int, i + n as int)) <= i32::MAX && v as int
                == digits_val(s@.subrange(i as int, i + n as int)),
            None => digits_val(s@.subrange(i as int, i + n as int)) > i32::MAX,
        },
{
    let ghost body = s@.subrange(i as int, i + n as int);
    proof {
        lemma_digit_run_bounds(s@, i as int);
        assert(crate::text::all_digits(body)) by {
            assert(forall|t: int| 0 <= t < body.len() ==> body[t] == s@[i + t]);
        }
    }
    let mut acc: u64 = 0;
    let mut j: usize = 0;
    while j < n
        invariant
            j <= n,
            i + n <= s@.len(),
            s@.len() <= usize::MAX,
            body == s@.subrange(i as int, i + n as int),
            crate::text::all_digits(body),
            digits_val(body.subrange(0, j as int)) <= 0x8000_0000 ==> acc == digits_val(
                body.subrange(0, j as int),
            ),
            digits_val(body.subrange(0, j as int)) > 0x8000_0000 ==> acc > 0x8000_0000,
            acc < 0x10_0000_0000,
        decreases n - j,
    {
        let ghost prefix = body.subrange(0, j as int);
        let ghost prefix2 = body.subrange(0, j + 1 as int);
        proof {
            assert(prefix2.drop_last() =~= prefix);
            assert(body[j as int] == s@[i + j]);
            assert(prefix2.last() == s@[i + j]);
            assert(is_ascii_digit(s@[i + j]));
            crate::text::lemma_digits_val_nonneg(prefix);
        }
        let cu = s.get_char(i + j) as u32;
        let d: u64 = (cu - '0' as u32) as u64;
        if acc <= 0x8000_0000 {
            acc = acc * 10 + d;
        }
        proof {
            if digits_val(prefix) > 0x8000_0000 {
                assert(digits_val(prefix2) > 0x8000_0000);
            }
        }
        j = j + 1;
    }
    proof {
        assert(body.subrange(0, n as int) =~= body);
        crate::text::lemma_digits_val_nonneg(body);
    }
    if acc <= 2_147_483_647 {
        Some(acc as i32)
    } else {
        None
    }
}

/// The owned text of the characters `s[from..to]`.
fn text_of(s: &str, from: usize, to: usize) -> (r: String)
    requires
        from <= to <= s@.len(),
    ensures
        r@ == s@.subrange(from as int, to as int),
{
    s.substring_char(from, to).to_owned()
}

/// Scans the token starting at `i`.
fn scan_token(s: &str, i: usize) -> (r: (TokenType, usize))
    requires
        i < s@.len(),
        s@.len() <= usize::MAX,
    ensures
        r.0.deep_view() == token_at(s@, i as int).0,
        r.1 as int == token_at(s@, i as int).1,
        1 <= r.1,
        i + r.1 <= s@.len(),
{
    proof {
        lemma_token_at_bounds(s@, i as int);
    }
    let c = s.get_char(i);
    let cu = c as u32;
    if (cu >= 'a' as u32 && cu <= 'z' as u32) || (cu >= 'A' as u32 && cu <= 'Z' as u32) || cu
        == '_' as u32 {
        proof {
            assert(is_ident_start(s@[i as int]));
        }
        let run = ident_run_exec(s, i + 1);
        let len = 1 + run;
        return (TokenType::Identifier(text_of(s, i, i + len)), len);
    }
    proof {
        assert(!is_ident_start(s@[i as int]));
    }
    let d1 = digit_run_exec(s, i);
    if d1 > 0 {
        if i + d1 < s.unicode_len() && s.get_char(i + d1) == 'd' {
            let d2 = digit_run_exec(s, i + d1 + 1);
            if d2 > 0 {
                let ext = dice_ext_exec(s, i + d1 + 1 + d2);
                let len = d1 + 1 + d2 + ext;
                return (TokenType::Dice(text_of(s, i, i + len)), len);
            }
        }
        // a plain number: the digit run, if its value fits
        match digits_to_i32(s, i, d1) {
            Some(v) => {
                return (TokenType::Number(v), d1);
            },
            None => {
                return (TokenType::Unknown(text_of(s, i, i + d1)), d1);
            },
        }
    }
    if c == '"' {
        match string_content_exec(s, i + 1) {
            Some(cl) => {
                return (TokenType::String(text_of(s, i + 1, i + 1 + cl)), cl + 2);
            },
            None => {
                return (TokenType::Unknown(text_of(s, i, i + 1)), 1);
            },
        }
    }
    if c == '{' {
        return (TokenType::OpeningBracket, 1);
    }
    if c == '}' {
        return (TokenType::ClosingBracket, 1);
    }
    if c == ':' {
        return (TokenType::Colon, 1);
    }
    if c == ';' {
        return (TokenType::Semicolon, 1);
    }
    if c == '-' && s.unicode_len() - i >= 3 && s.get_char(i + 1) == '-' && s.get_char(i + 2)
        == '-' {
        return (TokenType::Section, 3);
    }
    if c == '+' || c == '-' || c == '*' || c == '/' {
        proof {
            assert(seq![s@[i as int]] =~= s@.subrange(i as int, i + 1 as int));
        }
        return (TokenType::Operator(text_of(s, i, i + 1)), 1);
    }
    let wl = space_run_exec(s, i);
    if wl > 0 {
        return (TokenType::Whitespace(text_of(s, i, i + wl)), wl);
    }
    proof {
        assert(seq![s@[i as int]] =~= s@.subrange(i as int, i + 1 as int));
    }
    (TokenType::Unknown(text_of(s, i, i + 1)), 1)
}

/// Splits the input into tokens, ending with an `EndOfInput` token at the
/// input's end.  The result is exactly the token sequence that
/// [`lex_spec`] denotes.
pub fn lex(input: &str) -> (tokens: Vec<Token>)
    requires
        input@.len() <= i32::MAX as int,
    ensures
        tokens.deep_view() == lex_spec(input@, 0),
{
    let n = input.unicode_len();
    let mut tokens: Vec<Token> = Vec::new();
    let mut pos: usize = 0;
    proof {
        assert(tokens.deep_view() =~= Seq::<TokenView>::empty());
    }
    while pos < n
        invariant
            pos <= n,
            n == input@.len(),
            n <= i32::MAX,
            tokens.deep_view() + lex_spec(input@, pos as int) == lex_spec(input@, 0),
        decreases n - pos,
    {
        let (tt, len) = scan_token(input, pos);
        let ghost before = tokens.deep_view();
        let token = Token { token_type: tt, offset: pos as i32 };
        proof {
            assert(token.deep_view() == TokenView {
                token_type: token_at(input@, pos as int).0,
                offset: pos as int,
            });
        }
        tokens.push(token);
        proof {
            assert(tokens.deep_view() =~= before.push(TokenView {
                token_type: token_at(input@, pos as int).0,
                offset: pos as int,
            }));
            assert(lex_spec(input@, pos as int) == seq![TokenView {
                token_type: token_at(input@, pos as int).0,
                offset: pos as int,
            }] + lex_spec(input@, pos + len as int));
            assert(tokens.deep_view() + lex_spec(input@, pos + len as int) =~= before + lex_spec(
                input@,
                pos as int,
            ));
        }
        pos = pos + len;
    }
    let ghost before_end = tokens.deep_view();
    tokens.push(Token { token_type: TokenType::EndOfInput, offset: pos as i32 });
    proof {
        assert(lex_spec(input@, pos as int) == seq![TokenView {
            token_type: TokenTypeView::EndOfInput,
            offset: pos as int,
        }]);
        assert(tokens.deep_view() =~= before_end + lex_spec(input@, pos as int));
    }
    tokens
}

/// The text a token renders back to.
pub open spec fn spec_token_string(t: TokenTypeView) -> Seq<char> {
    match t {
        TokenTypeView::Identifier(x) => x,
        TokenTypeView::Dice(x) => x,
        TokenTypeView::Number(n) => spec_i32_string(n as int),
        TokenTypeView::String(x) => x,
        TokenTypeView::OpeningBracket => "{"@,
        TokenTypeView::ClosingBracket => "}"@,
        TokenTypeView::Colon => ":"@,
        TokenTypeView::Semicolon => ";"@,
        TokenTypeView::Section => "---"@,
        TokenTypeView::Operator(x) => x,
        TokenTypeView::Whitespace(x) => x,
        TokenTypeView::EndOfInput => "End of Input"@,
        TokenTypeView::Unknown(x) => x,
    }
}

/// Whether two token types are of the same kind, regardless of their
/// text or value.
pub open spec fn spec_eq_type(a: TokenTypeView, b: TokenTypeView) -> bool {
    match (a, b) {
        (TokenTypeView::Identifier(_), TokenTypeView::Identifier(_)) => true,
        (TokenTypeView::Dice(_), TokenTypeView::Dice(_)) => true,
        (TokenTypeView::Number(_), TokenTypeView::Number(_)) => true,
        (TokenTypeView::String(_), TokenTypeView::String(_)) => true,
        (TokenTypeView::Operator(_), TokenTypeView::Operator(_)) => true,
        (TokenTypeView::Whitespace(_), TokenTypeView::Whitespace(_)) => true,
        (TokenTypeView::Unknown(_), TokenTypeView::Unknown(_)) => true,
        (TokenTypeView::OpeningBracket, TokenTypeView::OpeningBracket) => true,
        (TokenTypeView::ClosingBracket, TokenTypeView::ClosingBracket) => true,
        (TokenTypeView::Colon, TokenTypeView::Colon) => true,
        (TokenTypeView::Semicolon, TokenTypeView::Semicolon) => true,
        (TokenTypeView::Section, TokenTypeView::Section) => true,
        (TokenTypeView::EndOfInput, TokenTypeView::EndOfInput) => true,
        _ => false,
    }
}

impl TokenType {
    /// The text this token renders back to; number tokens render in
    /// decimal.
    pub fn get_string(&self) -> (r: String)
        ensures
            r@ == spec_token_string(self.deep_view()),
    {
        match self {
            TokenType::Identifier(text) => text.clone(),
            TokenType::Dice(text) => text.clone(),
            TokenType::Number(number) => crate::text::i32_to_string(*number),
            TokenType::String(text) => text.clone(),
            TokenType::OpeningBracket => String::from_str("{"),
            TokenType::ClosingBracket => String::from_str("}"),
            TokenType::Colon => String::from_str(":"),
            TokenType::Semicolon => String::from_str(";"),
            TokenType::Section => String::from_str("---"),
            TokenType::Operator(text) => text.clone(),
            TokenType::Whitespace(text) => text.clone(),
            TokenType::EndOfInput => String::from_str("End of Input"),
            TokenType::Unknown(text) => text.clone(),
        }
    }

    /// Whether this token is of the same kind as `other`, regardless of
    /// text or value.
    pub fn eq_type(&self, other: &TokenType) -> (r: bool)
        ensures
            r == spec_eq_type(self.deep_view(), other.deep_view()),
    {
        match (self, other) {
            (TokenType::Identifier(_), TokenType::Identifier(_)) => true,
            (TokenType::Dice(_), TokenType::Dice(_)) => true,
            (TokenType::Number(_), TokenType::Number(_)) => true,
            (TokenType::String(_), TokenType::String(_)) => true,
            (TokenType::Operator(_), TokenType::Operator(_)) => true,
            (TokenType::Whitespace(_), TokenType::Whitespace(_)) => true,
            (TokenType::Unknown(_), TokenType::Unknown(_)) => true,
            (TokenType::OpeningBracket, TokenType::OpeningBracket) => true,
            (TokenType::ClosingBracket, TokenType::ClosingBracket) => true,
            (TokenType::Colon, TokenType::Colon) => true,
            (TokenType::Semicolon, TokenType::Semicolon) => true,
            (TokenType::Section, TokenType::Section) => true,
            (TokenType::EndOfInput, TokenType::EndOfInput) => true,
            _ => false,
        }
    }
}

/// A fault found while tokenizing.
#[derive(Debug, PartialEq, Eq)]
pub enum TokenizationIssue {
    /// A token no rule accepts, with its offset and text.
    UnknownToken(i32, String),
}

impl DeepView for TokenizationIssue {
    type V = (int, Seq<char>);

    open spec fn deep_view(&self) -> (int, Seq<char>) {
        match self {
            TokenizationIssue::UnknownToken(offset, text) => (*offset as int, text@),
        }
    }
}

impl TokenizationIssue {
    /// A human-readable description of the issue.
    pub fn message(&self) -> (r: String)
        ensures
            r@ == "Unknown token found: '"@ + self.deep_view().1 + "'"@,
    {
        match self {
            TokenizationIssue::UnknownToken(_, text) => {
                let mut msg = String::from_str("Unknown token found: '");
                msg.append(text.as_str());
                msg.append("'");
                msg
            },
        }
    }
}

/// The issues of a token sequence: one per `Unknown` token, in order.
pub open spec fn spec_issues(ts: Seq<TokenView>) -> Seq<(int, Seq<char>)>
    decreases ts.len(),
{
    if ts.len() == 0 {
        Seq::empty()
    } else {
        let rest = spec_issues(ts.drop_last());
        match ts.last().token_type {
            TokenTypeView::Unknown(text) => rest.push((ts.last().offset, text)),
            _ => rest,
        }
    }
}

/// Collects the tokens no rule accepted, or nothing when the input
/// tokenized cleanly.
pub fn validate(tokens: &[Token]) -> (r: Option<Vec<TokenizationIssue>>)
    ensures
        match r {
            Some(issues) => issues.deep_view() == spec_issues(tokens.deep_view())
                && issues.deep_view().len() > 0,
            None => spec_issues(tokens.deep_view()).len() == 0,
        },
{
    let ghost tv = tokens.deep_view();
    let mut unknown_tokens: Vec<TokenizationIssue> = Vec::new();
    proof {
        assert(unknown_tokens.deep_view() =~= spec_issues(tv.subrange(0, 0)));
    }
    let mut i: usize = 0;
    while i < tokens.len()
        invariant
            i <= tokens@.len(),
            tv == tokens.deep_view(),
            tv.len() == tokens@.len(),
            unknown_tokens.deep_view() == spec_issues(tv.subrange(0, i as int)),
        decreases tokens@.len() - i,
    {
        let ghost prefix2 = tv.subrange(0, i + 1 as int);
        proof {
            assert(prefix2.drop_last() =~= tv.subrange(0, i as int));
            assert(prefix2.last() == tv[i as int]);
            assert(tokens@[i as int].deep_view() == tv[i as int]);
        }
        let token = &tokens[i];
        match &token.token_type {
            TokenType::Unknown(text) => {
                let ghost before = unknown_tokens.deep_view();
                let issue = TokenizationIssue::UnknownToken(token.offset, text.clone());
                unknown_tokens.push(issue);
                proof {
                    assert(unknown_tokens.deep_view() =~= before.push(
                        (token.offset as int, text@),
                    ));
                    assert(unknown_tokens.deep_view() =~= spec_issues(prefix2));
                }
            },
            _ => {
                proof {
                    assert(unknown_tokens.deep_view() =~= spec_issues(prefix2));
                }
            },
        }
        i = i + 1;
    }
    proof {
        assert(tv.subrange(0, tv.len() as int) =~= tv);
    }
    if unknown_tokens.len() == 0 {
        proof {
            assert(unknown_tokens.deep_view().len() == 0);
        }
        None
    } else {
        Some(unknown_tokens)
    }
}

} // verus!
