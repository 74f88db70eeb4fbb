//! The recursive-descent parser of the rule-definition language.
//!
//! A model is one or more features separated by `---` section dividers.  A
//! feature is `Name: "...";`, an optional `Description: "...";`, and an
//! optional `Modifiers:` block whose entries are written `+2 name;`,
//! `bonus to name of 2;` or `set name to 2;`.
//!
//! [`parse`] first validates the token stream: inputs with unknown tokens
//! are rejected with one error per unknown token, exactly as the
//! validation reports them.  A parsed input yields a [`CAST`] whose node
//! list mirrors the token stream token by token, and whose model only
//! holds well-formed node references.

use vstd::prelude::*;
use vstd::string::StrSliceExecFns;
use vstd::string::StringExecFns;

use crate::cast::{
    CAST, CASTModel, CASTModifier, CASTModifierValue, CASTNode, CASTNodeFmtType, CASTNodeView,
    CASTFeature, CASTReference, NodeReferenceI32, NodeReferenceString, WhitespaceOptions,
    wf_cast_model,
};
use crate::string_map::str_eq;
use crate::text::lemma_i32_string_parse;
use crate::tokenizer::{
    spec_issues, spec_token_string, Token, TokenType, TokenView, TokenizationIssue, validate,
};

verus! {

/// Mathematical view of a [`ParseError`].
#[verifier::ext_equal]
pub enum ParseErrorView {
    UnexpectedToken { token: TokenView, expected: Seq<char> },
    UnexpectedText(int, Seq<char>),
    UnknownError(int),
}

/// An error the parser reports.
#[derive(Debug, PartialEq, Eq)]
pub enum ParseError {
    /// A token that does not fit the grammar, with what was expected.
    UnexpectedToken { token: Token, expected: String },
    /// Text the tokenizer could not read.
    UnexpectedText(i32, String),
    /// A failure with no further detail.
    UnknownError(i32),
}

impl DeepView for ParseError {
    type V = ParseErrorView;

    open spec fn deep_view(&self) -> ParseErrorView {
        match self {
            ParseError::UnexpectedToken { token, expected } => ParseErrorView::UnexpectedToken {
                token: token.deep_view(),
                expected: expected@,
            },
            ParseError::UnexpectedText(offset, text) => ParseErrorView::UnexpectedText(
                *offset as int,
                text@,
            ),
            ParseError::UnknownError(offset) => ParseErrorView::UnknownError(*offset as int),
        }
    }
}

impl ParseError {
    /// A human-readable description of the error.
    pub fn message(&self) -> String {
        match self {
            ParseError::UnexpectedToken { token, expected } => {
                let mut msg = String::from_str("Unexpected token at offset ");
                let offset_text = crate::text::i32_to_string(token.offset);
                msg.append(offset_text.as_str());
                msg.append(": ");
                let token_text = token.token_type.get_string();
                msg.append(token_text.as_str());
                msg.append(" (expected: ");
                msg.append(expected.as_str());
                msg.append(")");
                msg
            },
            ParseError::UnexpectedText(offset, text) => {
                let mut msg = String::from_str("Unexpected text at offset ");
                let offset_text = crate::text::i32_to_string(*offset);
                msg.append(offset_text.as_str());
                msg.append(": ");
                msg.append(text.as_str());
                msg
            },
            ParseError::UnknownError(offset) => {
                let mut msg = String::from_str("Unknown error at offset ");
                let offset_text = crate::text::i32_to_string(*offset);
                msg.append(offset_text.as_str());
                msg
            },
        }
    }
}

/// A successfully parsed input.
#[derive(Debug, PartialEq, Eq)]
pub struct ParseSuccess {
    pub cast: CAST,
    pub warnings: Vec<String>,
    pub infos: Vec<String>,
}

/// A rejected input, with every error found.
#[derive(Debug, PartialEq, Eq)]
pub struct ParseFailure {
    pub errors: Vec<ParseError>,
}

/// The parse errors that a list of tokenization issues maps to.
pub open spec fn errors_of_issues(issues: Seq<(int, Seq<char>)>) -> Seq<ParseErrorView> {
    issues.map_values(|iss: (int, Seq<char>)| ParseErrorView::UnexpectedText(iss.0, iss.1))
}

/// Translates a tokenization issue into a parse error.
fn from_tokenization_issue(ti: &TokenizationIssue) -> (r: ParseError)
    ensures
        r.deep_view() == ParseErrorView::UnexpectedText(ti.deep_view().0, ti.deep_view().1),
{
    match ti {
        TokenizationIssue::UnknownToken(offset, text) => {
            ParseError::UnexpectedText(*offset, text.clone())
        },
    }
}

/// The number of occurrences of `c` in `s`.
pub open spec fn count_char(s: Seq<char>, c: char) -> int
    decreases s.len(),
{
    if s.len() == 0 {
        0
    } else {
        count_char(s.drop_last(), c) + if s.last() == c {
            1int
        } else {
            0int
        }
    }
}

proof fn lemma_count_char_bounds(s: Seq<char>, c: char)
    ensures
        0 <= count_char(s, c) <= s.len(),
    decreases s.len(),
{
    if s.len() > 0 {
        lemma_count_char_bounds(s.drop_last(), c);
    }
}

/// Counts the occurrences of `c` in `s`, stopping at 127 so that the
/// count fits the formatting fields.
fn count_char_capped(s: &str, c: char) -> (r: i8)
    ensures
        r as int == if count_char(s@, c) > 127 {
            127int
        } else {
            count_char(s@, c)
        },
{
    proof {
        lemma_count_char_bounds(s@, c);
    }
    let n = s.unicode_len();
    let mut cnt: usize = 0;
    let mut i: usize = 0;
    while i < n
        invariant
            i <= n,
            n == s@.len(),
            cnt as int == count_char(s@.subrange(0, i as int), c),
            cnt <= i,
        decreases n - i,
    {
        let ghost prefix2 = s@.subrange(0, i + 1 as int);
        proof {
            assert(prefix2.drop_last() =~= s@.subrange(0, i as int));
            assert(prefix2.last() == s@[i as int]);
        }
        if s.get_char(i) == c {
            cnt = cnt + 1;
        }
        i = i + 1;
    }
    proof {
        assert(s@.subrange(0, n as int) =~= s@);
    }
    if cnt > 127 {
        127
    } else {
        cnt as i8
    }
}

/// The node a token turns into: its text and its covered offsets;
/// whitespace keeps its measured spaces and newlines as formatting.
pub open spec fn cast_node_of(t: TokenView) -> CASTNodeView {
    CASTNodeView {
        start_offset: t.offset,
        end_offset: t.offset + spec_token_string(t.token_type).len(),
        fmt_type: match t.token_type {
            crate::tokenizer::TokenTypeView::Whitespace(s) => crate::cast::CASTNodeFmtTypeView::Whitespace(
                WhitespaceOptions {
                    spaces: (if count_char(s, ' ') > 127 {
                        127int
                    } else {
                        count_char(s, ' ')
                    }) as i8,
                    newlines: (if count_char(s, '\n') > 127 {
                        127int
                    } else {
                        count_char(s, '\n')
                    }) as i8,
                    max_newlines: (if count_char(s, '\n') > 127 {
                        127int
                    } else {
                        count_char(s, '\n')
                    }) as i8,
                    min_newlines: (if count_char(s, '\n') > 127 {
                        127int
                    } else {
                        count_char(s, '\n')
                    }) as i8,
                    indent_incr: 0,
                    indent_decr: 0,
                },
            ),
            _ => crate::cast::CASTNodeFmtTypeView::Text(spec_token_string(t.token_type)),
        },
    }
}

/// Well-formed token input for the parser: non-empty, terminated by an
/// end-of-input token, with offsets that keep every node inside the
/// `i32` range.
pub open spec fn wf_tokens(ts: Seq<TokenView>) -> bool {
    ts.len() > 0 && (ts.last().token_type matches crate::tokenizer::TokenTypeView::EndOfInput) && (
    forall|i: int|
        0 <= i < ts.len() ==> 0 <= (#[trigger] ts[i]).offset && ts[i].offset + spec_token_string(
            ts[i].token_type,
        ).len() <= i32::MAX)
}

/// Turns every token into its formatting node.
fn to_cast_tokens(tokens: &[Token]) -> (r: Vec<CASTNode>)
    requires
        wf_tokens(tokens.deep_view()),
    ensures
        r.deep_view() == tokens.deep_view().map_values(|t: TokenView| cast_node_of(t)),
{
    let ghost tv = tokens.deep_view();
    let ghost target = tv.map_values(|t: TokenView| cast_node_of(t));
    let mut cast_tokens: Vec<CASTNode> = Vec::new();
    proof {
        assert(cast_tokens.deep_view() =~= target.subrange(0, 0));
    }
    let mut i: usize = 0;
    while i < tokens.len()
        invariant
            i <= tokens@.len(),
            tv == tokens.deep_view(),
            tv.len() == tokens@.len(),
            wf_tokens(tv),
            target == tv.map_values(|t: TokenView| cast_node_of(t)),
            cast_tokens.deep_view() == target.subrange(0, i as int),
        decreases tokens@.len() - i,
    {
        let token = &tokens[i];
        proof {
            assert(token.deep_view() == tv[i as int]);
            assert(target[i as int] == cast_node_of(tv[i as int]));
        }
        let text = token.token_type.get_string();
        let text_len = text.as_str().unicode_len();
        let fmt_type = match &token.token_type {
            TokenType::Whitespace(s) => {
                let newlines = count_char_capped(s.as_str(), '\n');
                let spaces = count_char_capped(s.as_str(), ' ');
                CASTNodeFmtType::Whitespace(
                    WhitespaceOptions {
                        spaces,
                        newlines,
                        min_newlines: newlines,
                        max_newlines: newlines,
                        indent_incr: 0,
                        indent_decr: 0,
                    },
                )
            },
            _ => CASTNodeFmtType::Text(text),
        };
        let node = CASTNode {
            start_offset: token.offset,
            end_offset: token.offset + (text_len as i32),
            fmt_type,
        };
        let ghost before = cast_tokens.deep_view();
        proof {
            assert(node.deep_view() =~= cast_node_of(tv[i as int]));
        }
        cast_tokens.push(node);
        proof {
            assert(cast_tokens.deep_view() =~= before.push(cast_node_of(tv[i as int])));
            assert(cast_tokens.deep_view() =~= target.subrange(0, i + 1 as int));
        }
        i = i + 1;
    }
    proof {
        assert(target.subrange(0, target.len() as int) =~= target);
    }
    cast_tokens
}

/// Whether a token is whitespace.
fn is_ws_token(t: &TokenType) -> (r: bool)
    ensures
        r == (t matches TokenType::Whitespace(_)),
{
    match t {
        TokenType::Whitespace(_) => true,
        _ => false,
    }
}

/// Whether two token types are equal, text and values included.
fn token_type_eq(a: &TokenType, b: &TokenType) -> (r: bool)
    ensures
        r == (a.deep_view() == b.deep_view()),
{
    match (a, b) {
        (TokenType::Identifier(x), TokenType::Identifier(y)) => str_eq(x.as_str(), y.as_str()),
        (TokenType::Dice(x), TokenType::Dice(y)) => str_eq(x.as_str(), y.as_str()),
        (TokenType::Number(x), TokenType::Number(y)) => x == y,
        (TokenType::String(x), TokenType::String(y)) => str_eq(x.as_str(), y.as_str()),
        (TokenType::Operator(x), TokenType::Operator(y)) => str_eq(x.as_str(), y.as_str()),
        (TokenType::Whitespace(x), TokenType::Whitespace(y)) => str_eq(x.as_str(), y.as_str()),
        (TokenType::Unknown(x), TokenType::Unknown(y)) => str_eq(x.as_str(), y.as_str()),
        (TokenType::OpeningBracket, TokenType::OpeningBracket) => true,
        (TokenType::ClosingBracket, TokenType::ClosingBracket) => true,
        (TokenType::Colon, TokenType::Colon) => true,
        (TokenType::Semicolon, TokenType::Semicolon) => true,
        (TokenType::Section, TokenType::Section) => true,
        (TokenType::EndOfInput, TokenType::EndOfInput) => true,
        _ => {
            proof {
                assert(a.deep_view() != b.deep_view());
            }
            false
        },
    }
}

/// The recursive-descent state: the tokens, the position of the token
/// last taken, and the references collected so far.
struct Parser {
    tokens: Vec<Token>,
    position: usize,
    started: bool,
    references: Vec<CASTReference>,
}

impl Parser {
    /// Well-formedness: tokens end with an end-of-input token, the
    /// position is inside them, and every offset stays in range.
    spec fn wf(&self) -> bool {
        self.tokens@.len() > 0 && self.position < self.tokens@.len() && (!self.started
            ==> self.position == 0) && wf_tokens(self.tokens.deep_view())
    }

    /// The termination measure of the descent: tokens left to take.
    spec fn measure(&self) -> int {
        self.tokens@.len() - self.position + if self.started {
            0int
        } else {
            1int
        }
    }

    /// The token at the current position.
    spec fn curr_token(&self) -> Token {
        self.tokens@[self.position as int]
    }

    /// A copy of the current token.
    fn curr(&self) -> (t: Token)
        requires
            self.wf(),
        ensures
            t.deep_view() == self.curr_token().deep_view(),
    {
        self.tokens[self.position].clone()
    }

    /// A copy of the current token's type.
    fn curr_t(&self) -> (t: TokenType)
        requires
            self.wf(),
        ensures
            t.deep_view() == self.curr_token().token_type.deep_view(),
    {
        self.tokens[self.position].token_type.clone()
    }

    /// Steps to the next non-whitespace token and returns it.  The very
    /// first call returns the first token as it is; at the end of input
    /// the parser stays put.
    fn next_non_ws(&mut self) -> (t: Token)
        requires
            old(self).wf(),
        ensures
            final(self).wf(),
            final(self).started,
            final(self).tokens@ == old(self).tokens@,
            final(self).references@ == old(self).references@,
            final(self).measure() <= old(self).measure(),
            final(self).measure() == old(self).measure() ==> (t.token_type matches
                TokenType::EndOfInput),
            old(self).started && !(old(self).curr_token().token_type matches
                TokenType::EndOfInput) ==> final(self).measure() < old(self).measure(),
            !old(self).started ==> final(self).measure() < old(self).measure(),
            t.deep_view() == final(self).curr_token().deep_view(),
    {
        if !self.started {
            self.started = true;
            return self.curr();
        }
        let at_end = match &self.tokens[self.position].token_type {
            TokenType::EndOfInput => true,
            _ => false,
        };
        if at_end {
            return self.curr();
        }
        let total = self.tokens.len();
        let mut pos = self.position + 1;
        proof {
            assert(self.tokens@.last().token_type matches TokenType::EndOfInput) by {
                assert(self.tokens.deep_view().last()
                    == self.tokens@.last().deep_view());
            }
        }
        while is_ws_token(&self.tokens[pos].token_type)
            invariant
                self.position < pos <= self.tokens@.len() - 1,
                self.tokens@.len() > 0,
                total == self.tokens@.len(),
                self.tokens@.last().token_type matches TokenType::EndOfInput,
                pos < self.tokens@.len(),
            decreases self.tokens@.len() - pos,
        {
            proof {
                assert(pos != self.tokens@.len() - 1);
            }
            pos = pos + 1;
        }
        self.position = pos;
        self.curr()
    }

    /// The next non-whitespace token, without stepping to it.
    fn peek_non_ws(&mut self) -> (t: Token)
        requires
            old(self).wf(),
        ensures
            *final(self) == *old(self),
            (old(self).started && old(self).curr_token().token_type matches
                TokenType::EndOfInput) ==> (t.token_type matches TokenType::EndOfInput),
    {
        if !self.started {
            return self.tokens[0].clone();
        }
        let at_end = match &self.tokens[self.position].token_type {
            TokenType::EndOfInput => true,
            _ => false,
        };
        if at_end {
            return self.curr();
        }
        let total = self.tokens.len();
        let mut pos = self.position + 1;
        proof {
            assert(self.tokens@.last().token_type matches TokenType::EndOfInput) by {
                assert(self.tokens.deep_view().last()
                    == self.tokens@.last().deep_view());
            }
        }
        while is_ws_token(&self.tokens[pos].token_type)
            invariant
                self.position < pos <= self.tokens@.len() - 1,
                self.tokens@.len() > 0,
                total == self.tokens@.len(),
                self.tokens@.last().token_type matches TokenType::EndOfInput,
                pos < self.tokens@.len(),
            decreases self.tokens@.len() - pos,
        {
            proof {
                assert(pos != self.tokens@.len() - 1);
            }
            pos = pos + 1;
        }
        self.tokens[pos].clone()
    }

    /// Takes the next non-whitespace token and demands that it equals
    /// `token_type`, text included.
    fn expect(&mut self, token_type: &TokenType) -> (r: Result<(), ParseFailure>)
        requires
            old(self).wf(),
            !(token_type matches TokenType::EndOfInput),
        ensures
            final(self).wf(),
            final(self).started,
            final(self).tokens@ == old(self).tokens@,
            final(self).references@ == old(self).references@,
            final(self).measure() <= old(self).measure(),
            r is Ok ==> final(self).measure() < old(self).measure(),
            r matches Err(f) ==> f.errors@.len() > 0,
    {
        let expected = token_type.get_string();
        self.expect_explicit(token_type, expected)
    }

    /// As [`Parser::expect`], with an explicit description of what was
    /// expected.
    fn expect_explicit(&mut self, token_type: &TokenType, expected: String) -> (r: Result<
        (),
        ParseFailure,
    >)
        requires
            old(self).wf(),
            !(token_type matches TokenType::EndOfInput),
        ensures
            final(self).wf(),
            final(self).started,
            final(self).tokens@ == old(self).tokens@,
            final(self).references@ == old(self).references@,
            final(self).measure() <= old(self).measure(),
            r is Ok ==> final(self).measure() < old(self).measure(),
            r matches Err(f) ==> f.errors@.len() > 0,
    {
        let next = self.next_non_ws();
        if !token_type_eq(&next.token_type, token_type) {
            Err(self.fail(expected))
        } else {
            Ok(())
        }
    }

    /// Whether the next non-whitespace token equals `token`, without
    /// taking it.
    fn peek_expect(&mut self, token: &TokenType) -> (r: Option<()>)
        requires
            old(self).wf(),
        ensures
            *final(self) == *old(self),
    {
        let peeked = self.peek_non_ws();
        if !token_type_eq(&peeked.token_type, token) {
            None
        } else {
            Some(())
        }
    }

    /// Takes the next non-whitespace token and demands that it is of the
    /// same kind as `token`; returns the taken token's text.
    fn accept(&mut self, token: &TokenType, expected: String) -> (r: Result<String, ParseFailure>)
        requires
            old(self).wf(),
            !(token matches TokenType::EndOfInput),
        ensures
            final(self).wf(),
            final(self).started,
            final(self).tokens@ == old(self).tokens@,
            final(self).references@ == old(self).references@,
            final(self).measure() <= old(self).measure(),
            r is Ok ==> final(self).measure() < old(self).measure(),
            r matches Err(f) ==> f.errors@.len() > 0,
            r matches Ok(text) ==> crate::tokenizer::spec_eq_type(
                final(self).curr_token().token_type.deep_view(),
                token.deep_view(),
            ) && text@ == spec_token_string(final(self).curr_token().token_type.deep_view()),
    {
        let next = self.next_non_ws();
        if !next.token_type.eq_type(token) {
            Err(self.fail(expected))
        } else {
            proof {
                assert(!(next.token_type.deep_view() matches
                    crate::tokenizer::TokenTypeView::EndOfInput));
            }
            Ok(next.token_type.get_string())
        }
    }

    /// The failure naming the current token and what was expected.
    fn fail(&self, expected: String) -> (r: ParseFailure)
        requires
            self.wf(),
        ensures
            r.errors@.len() == 1,
    {
        let mut errors: Vec<ParseError> = Vec::new();
        errors.push(ParseError::UnexpectedToken { token: self.curr(), expected });
        ParseFailure { errors }
    }

    /// A node carrying the current token's text and offsets.
    fn text_node(&self) -> (r: CASTNode)
        requires
            self.wf(),
        ensures
            r.fmt_type matches CASTNodeFmtType::Text(t) && t@ == spec_token_string(
                self.curr_token().token_type.deep_view(),
            ),
    {
        let token = self.curr();
        let text = token.token_type.get_string();
        let text_len = text.as_str().unicode_len();
        proof {
            assert(self.curr_token().deep_view()
                == self.tokens.deep_view()[self.position as int]);
        }
        CASTNode {
            start_offset: token.offset,
            end_offset: token.offset + (text_len as i32),
            fmt_type: CASTNodeFmtType::Text(text),
        }
    }

    /// A node carrying the signed value of a just-taken number token.
    fn number_node(&self, bonus: i32) -> (r: CASTNode)
        requires
            self.wf(),
        ensures
            r.fmt_type matches CASTNodeFmtType::Text(t) && crate::text::spec_parse_i32(t@)
                == Some(bonus),
    {
        let token = self.curr();
        let text = crate::text::i32_to_string(bonus);
        proof {
            lemma_i32_string_parse(bonus as int);
        }
        // a synthesized node: it carries the signed value in place of the
        // number token's own text
        CASTNode {
            start_offset: token.offset,
            end_offset: token.offset,
            fmt_type: CASTNodeFmtType::Text(text),
        }
    }

    // recursive descent

    /// Parses a whole model: features separated by section dividers.
    fn model(&mut self) -> (r: Result<CASTModel, ParseFailure>)
        requires
            old(self).wf(),
        ensures
            final(self).wf(),
            final(self).tokens@ == old(self).tokens@,
            r matches Ok(m) ==> wf_cast_model(m),
            r matches Err(f) ==> f.errors@.len() > 0,
    {
        let mut features: Vec<CASTFeature> = Vec::new();
        let first = self.feature();
        match first {
            Ok(f) => {
                features.push(f);
            },
            Err(e) => {
                return Err(e);
            },
        }
        loop
            invariant
                self.wf(),
                self.started,
                self.tokens@ == old(self).tokens@,
                forall|i: int|
                    0 <= i < features@.len() ==> {
                        let f = #[trigger] features@[i];
                        f.name.wf() && f.description.wf() && (forall|j: int|
                            0 <= j < f.modifiers@.len() ==> (
                            #[trigger] f.modifiers@[j]).value.wf())
                    },
            decreases self.measure(),
        {
            let peeked = self.peek_non_ws();
            let is_section = match &peeked.token_type {
                TokenType::Section => true,
                _ => false,
            };
            if !is_section {
                break;
            }
            let ghost measure_before = self.measure();
            let _ = self.next_non_ws();
            proof {
                assert(self.measure() < measure_before);
            }
            match self.feature() {
                Ok(f) => {
                    features.push(f);
                },
                Err(e) => {
                    return Err(e);
                },
            }
        }
        let model = CASTModel { features };
        proof {
            assert(wf_cast_model(model));
        }
        Ok(model)
    }

    /// Parses one feature: its name, an optional description and an
    /// optional modifier block.
    fn feature(&mut self) -> (r: Result<CASTFeature, ParseFailure>)
        requires
            old(self).wf(),
        ensures
            final(self).wf(),
            final(self).started,
            final(self).tokens@ == old(self).tokens@,
            final(self).measure() <= old(self).measure(),
            r matches Ok(f) ==> f.name.wf() && f.description.wf() && (forall|j: int|
                0 <= j < f.modifiers@.len() ==> (#[trigger] f.modifiers@[j]).value.wf()),
            r matches Err(f) ==> f.errors@.len() > 0,
    {
        match self.expect(&TokenType::Identifier(String::from_str("Name"))) {
            Ok(_) => {},
            Err(e) => {
                return Err(e);
            },
        }
        match self.expect(&TokenType::Colon) {
            Ok(_) => {},
            Err(e) => {
                return Err(e);
            },
        }
        match self.accept(&TokenType::String(String::new()), String::from_str("name")) {
            Ok(_) => {},
            Err(e) => {
                return Err(e);
            },
        }
        let name = NodeReferenceString::new(self.text_node());
        match self.expect(&TokenType::Semicolon) {
            Ok(_) => {},
            Err(e) => {
                return Err(e);
            },
        }
        // the description is optional; a missing one reads as empty
        let mut description = NodeReferenceString::new(
            CASTNode {
                start_offset: 0,
                end_offset: 0,
                fmt_type: CASTNodeFmtType::Text(String::new()),
            },
        );
        if self.peek_expect(&TokenType::Identifier(String::from_str("Description"))).is_some() {
            let _ = self.next_non_ws();  // skip "Description"
            match self.expect(&TokenType::Colon) {
                Ok(_) => {},
                Err(e) => {
                    return Err(e);
                },
            }
            match self.accept(&TokenType::String(String::new()), String::from_str("string")) {
                Ok(_) => {},
                Err(e) => {
                    return Err(e);
                },
            }
            description = NodeReferenceString::new(self.text_node());
            match self.expect(&TokenType::Semicolon) {
                Ok(_) => {},
                Err(e) => {
                    return Err(e);
                },
            }
        }
        let mut modifiers: Vec<CASTModifier> = Vec::new();
        if self.peek_expect(&TokenType::Identifier(String::from_str("Modifiers"))).is_some() {
            let _ = self.next_non_ws();  // skip "Modifiers"
            match self.expect(&TokenType::Colon) {
                Ok(_) => {},
                Err(e) => {
                    return Err(e);
                },
            }
            loop
                invariant
                    self.wf(),
                    self.started,
                    self.tokens@ == old(self).tokens@,
                    self.measure() <= old(self).measure(),
                    forall|j: int|
                        0 <= j < modifiers@.len() ==> (#[trigger] modifiers@[j]).value.wf(),
                decreases self.measure(),
            {
                let peeked = self.peek_non_ws();
                let step = match &peeked.token_type {
                    TokenType::Operator(o) => {
                        if str_eq(o.as_str(), "+") || str_eq(o.as_str(), "-") {
                            1
                        } else {
                            0
                        }
                    },
                    TokenType::Identifier(b) => {
                        if str_eq(b.as_str(), "bonus") {
                            2
                        } else if str_eq(b.as_str(), "set") {
                            3
                        } else {
                            0
                        }
                    },
                    _ => 0,
                };
                if step == 1 {
                    match self.modifier_short() {
                        Ok(m) => {
                            modifiers.push(m);
                        },
                        Err(e) => {
                            return Err(e);
                        },
                    }
                } else if step == 2 {
                    match self.modifier_long() {
                        Ok(m) => {
                            modifiers.push(m);
                        },
                        Err(e) => {
                            return Err(e);
                        },
                    }
                } else if step == 3 {
                    match self.modifier_set() {
                        Ok(m) => {
                            modifiers.push(m);
                        },
                        Err(e) => {
                            return Err(e);
                        },
                    }
                } else {
                    break;
                }
            }
        }
        Ok(CASTFeature { name, description, modifiers })
    }

    /// Reads the value of the number token just taken.
    fn taken_number(&self) -> (r: i32)
        requires
            self.wf(),
    {
        match &self.tokens[self.position].token_type {
            TokenType::Number(n) => *n,
            _ => 0,
        }
    }

    /// Parses a short modifier: `+2 name;` or `-2 name;`.
    fn modifier_short(&mut self) -> (r: Result<CASTModifier, ParseFailure>)
        requires
            old(self).wf(),
        ensures
            final(self).wf(),
            final(self).started,
            final(self).tokens@ == old(self).tokens@,
            final(self).measure() <= old(self).measure(),
            r is Ok ==> final(self).measure() < old(self).measure(),
            r matches Ok(m) ==> m.value.wf(),
            r matches Err(f) ==> f.errors@.len() > 0,
    {
        let op = match self.accept(
            &TokenType::Operator(String::new()),
            String::from_str("+ or -"),
        ) {
            Ok(op) => op,
            Err(e) => {
                return Err(e);
            },
        };
        let num = match self.accept(&TokenType::Number(0), String::from_str("number")) {
            Ok(_) => self.taken_number(),
            Err(e) => {
                return Err(e);
            },
        };
        let ghost measure_mid = self.measure();
        let bonus = if str_eq(op.as_str(), "-") {
            if num == i32::MIN {
                return Err(self.fail(String::from_str("number")));
            }
            -num
        } else {
            num
        };
        let value = NodeReferenceI32::new(self.number_node(bonus));
        let iden = match self.accept(
            &TokenType::Identifier(String::new()),
            String::from_str("identifier"),
        ) {
            Ok(iden) => iden,
            Err(e) => {
                return Err(e);
            },
        };
        match self.expect(&TokenType::Semicolon) {
            Ok(_) => {},
            Err(e) => {
                return Err(e);
            },
        }
        let reference = CASTReference { name: iden };
        self.references.push(reference.clone());
        Ok(CASTModifier { referencing: reference, value: CASTModifierValue::SimpleBonus(value) })
    }

    /// Parses the optional sign of a long modifier; a missing sign reads
    /// as plus.
    fn optional_sign(&mut self) -> (r: Result<bool, ParseFailure>)
        requires
            old(self).wf(),
        ensures
            final(self).wf(),
            old(self).started ==> final(self).started,
            final(self).tokens@ == old(self).tokens@,
            final(self).measure() <= old(self).measure(),
            r matches Err(f) ==> f.errors@.len() > 0,
    {
        let peeked = self.peek_non_ws();
        match &peeked.token_type {
            TokenType::Operator(o) => {
                if str_eq(o.as_str(), "+") {
                    let _ = self.next_non_ws();
                    Ok(false)
                } else if str_eq(o.as_str(), "-") {
                    let _ = self.next_non_ws();
                    Ok(true)
                } else {
                    Err(self.fail(String::from_str("+ or -")))
                }
            },
            _ => Ok(false),
        }
    }

    /// Parses a long bonus modifier: `bonus to name of 2;`.
    fn modifier_long(&mut self) -> (r: Result<CASTModifier, ParseFailure>)
        requires
            old(self).wf(),
        ensures
            final(self).wf(),
            final(self).started,
            final(self).tokens@ == old(self).tokens@,
            final(self).measure() <= old(self).measure(),
            r is Ok ==> final(self).measure() < old(self).measure(),
            r matches Ok(m) ==> m.value.wf(),
            r matches Err(f) ==> f.errors@.len() > 0,
    {
        match self.expect(&TokenType::Identifier(String::from_str("bonus"))) {
            Ok(_) => {},
            Err(e) => {
                return Err(e);
            },
        }
        match self.expect(&TokenType::Identifier(String::from_str("to"))) {
            Ok(_) => {},
            Err(e) => {
                return Err(e);
            },
        }
        let iden = match self.accept(
            &TokenType::Identifier(String::new()),
            String::from_str("identifier"),
        ) {
            Ok(iden) => iden,
            Err(e) => {
                return Err(e);
            },
        };
        match self.expect(&TokenType::Identifier(String::from_str("of"))) {
            Ok(_) => {},
            Err(e) => {
                return Err(e);
            },
        }
        let negative = match self.optional_sign() {
            Ok(negative) => negative,
            Err(e) => {
                return Err(e);
            },
        };
        let num = match self.accept(&TokenType::Number(0), String::from_str("number")) {
            Ok(_) => self.taken_number(),
            Err(e) => {
                return Err(e);
            },
        };
        let bonus = if negative {
            if num == i32::MIN {
                return Err(self.fail(String::from_str("number")));
            }
            -num
        } else {
            num
        };
        let value = NodeReferenceI32::new(self.number_node(bonus));
        match self.expect(&TokenType::Semicolon) {
            Ok(_) => {},
            Err(e) => {
                return Err(e);
            },
        }
        let reference = CASTReference { name: iden };
        self.references.push(reference.clone());
        Ok(CASTModifier { referencing: reference, value: CASTModifierValue::Bonus(value) })
    }

    /// Parses a set modifier: `set name to 2;`.
    fn modifier_set(&mut self) -> (r: Result<CASTModifier, ParseFailure>)
        requires
            old(self).wf(),
        ensures
            final(self).wf(),
            final(self).started,
            final(self).tokens@ == old(self).tokens@,
            final(self).measure() <= old(self).measure(),
            r is Ok ==> final(self).measure() < old(self).measure(),
            r matches Ok(m) ==> m.value.wf(),
            r matches Err(f) ==> f.errors@.len() > 0,
    {
        match self.expect(&TokenType::Identifier(String::from_str("set"))) {
            Ok(_) => {},
            Err(e) => {
                return Err(e);
            },
        }
        let iden = match self.accept(
            &TokenType::Identifier(String::new()),
            String::from_str("identifier"),
        ) {
            Ok(iden) => iden,
            Err(e) => {
                return Err(e);
            },
        };
        match self.expect(&TokenType::Identifier(String::from_str("to"))) {
            Ok(_) => {},
            Err(e) => {
                return Err(e);
            },
        }
        let negative = match self.optional_sign() {
            Ok(negative) => negative,
            Err(e) => {
                return Err(e);
            },
        };
        let num = match self.accept(&TokenType::Number(0), String::from_str("number")) {
            Ok(_) => self.taken_number(),
            Err(e) => {
                return Err(e);
            },
        };
        let bonus = if negative {
            if num == i32::MIN {
                return Err(self.fail(String::from_str("number")));
            }
            -num
        } else {
            num
        };
        let value = NodeReferenceI32::new(self.number_node(bonus));
        match self.expect(&TokenType::Semicolon) {
            Ok(_) => {},
            Err(e) => {
                return Err(e);
            },
        }
        let reference = CASTReference { name: iden };
        self.references.push(reference.clone());
        Ok(CASTModifier { referencing: reference, value: CASTModifierValue::SetTo(value) })
    }
}

/// Copies a token slice into a vector.
fn tokens_to_vec(tokens: &[Token]) -> (r: Vec<Token>)
    ensures
        r.deep_view() == tokens.deep_view(),
{
    let mut out: Vec<Token> = Vec::new();
    proof {
        assert(out.deep_view() =~= tokens.deep_view().subrange(0, 0));
    }
    let mut i: usize = 0;
    while i < tokens.len()
        invariant
            i <= tokens@.len(),
            tokens.deep_view().len() == tokens@.len(),
            out.deep_view() == tokens.deep_view().subrange(0, i as int),
        decreases tokens@.len() - i,
    {
        let ghost before = out.deep_view();
        proof {
            assert(tokens@[i as int].deep_view() == tokens.deep_view()[i as int]);
        }
        out.push(tokens[i].clone());
        proof {
            assert(out.deep_view() =~= before.push(tokens.deep_view()[i as int]));
            assert(out.deep_view() =~= tokens.deep_view().subrange(0, i + 1 as int));
        }
        i = i + 1;
    }
    proof {
        assert(tokens.deep_view().subrange(0, tokens.deep_view().len() as int)
            =~= tokens.deep_view());
    }
    out
}

/// Runs the descent over a validated token stream.
fn do_parse(tokens: Vec<Token>) -> (r: Result<ParseSuccess, ParseFailure>)
    requires
        wf_tokens(tokens.deep_view()),
    ensures
        r matches Ok(s) ==> s.cast.nodes.deep_view() == tokens.deep_view().map_values(
            |t: TokenView| cast_node_of(t),
        ) && wf_cast_model(s.cast.model) && s.warnings@.len() == 0 && s.infos@.len() == 0,
        r matches Err(f) ==> f.errors@.len() > 0,
{
    let nodes = to_cast_tokens(tokens.as_slice());
    let mut parser = Parser { tokens, position: 0, started: false, references: Vec::new() };
    let model = match parser.model() {
        Ok(model) => model,
        Err(e) => {
            return Err(e);
        },
    };
    Ok(
        ParseSuccess {
            cast: CAST { nodes, model, references: parser.references },
            infos: Vec::new(),
            warnings: Vec::new(),
        },
    )
}

/// Parses a token stream.  A stream holding unknown tokens is rejected
/// with exactly one `UnexpectedText` error per unknown token, in order;
/// a clean stream is parsed by recursive descent, and on success yields a
/// node list mirroring the tokens and a model of well-formed references.
pub fn parse(tokens: &[Token]) -> (r: Result<ParseSuccess, ParseFailure>)
    requires
        wf_tokens(tokens.deep_view()),
    ensures
        spec_issues(tokens.deep_view()).len() > 0 ==> (r matches Err(f) && f.errors.deep_view()
            == errors_of_issues(spec_issues(tokens.deep_view()))),
        r matches Ok(s) ==> s.cast.nodes.deep_view() == tokens.deep_view().map_values(
            |t: TokenView| cast_node_of(t),
        ) && wf_cast_model(s.cast.model) && s.warnings@.len() == 0 && s.infos@.len() == 0,
        r matches Err(f) ==> f.errors@.len() > 0,
{
    match validate(tokens) {
        Some(issues) => {
            let ghost iv = issues.deep_view();
            let mut errors: Vec<ParseError> = Vec::new();
            proof {
                assert(errors.deep_view() =~= errors_of_issues(iv.subrange(0, 0)));
            }
            let mut i: usize = 0;
            while i < issues.len()
                invariant
                    i <= issues@.len(),
                    iv == issues.deep_view(),
                    iv.len() == issues@.len(),
                    errors.deep_view() == errors_of_issues(iv.subrange(0, i as int)),
                decreases issues@.len() - i,
            {
                let ghost before = errors.deep_view();
                proof {
                    assert(issues@[i as int].deep_view() == iv[i as int]);
                }
                let error = from_tokenization_issue(&issues[i]);
                errors.push(error);
                proof {
                    assert(errors.deep_view() =~= before.push(
                        ParseErrorView::UnexpectedText(iv[i as int].0, iv[i as int].1),
                    ));
                    assert(errors.deep_view() =~= errors_of_issues(iv.subrange(0, i + 1 as int)))
                        by {
                        let prefix2 = iv.subrange(0, i + 1 as int);
                        assert(errors_of_issues(prefix2).len() == i + 1);
                        assert(forall|j: int|
                            0 <= j < i + 1 ==> #[trigger] errors_of_issues(prefix2)[j]
                                == ParseErrorView::UnexpectedText(prefix2[j].0, prefix2[j].1));
                    }
                }
                i = i + 1;
            }
            proof {
                assert(iv.subrange(0, iv.len() as int) =~= iv);
            }
            Err(ParseFailure { errors })
        },
        None => do_parse(tokens_to_vec(tokens)),
    }
}

} // verus!
