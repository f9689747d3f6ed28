//! The lexer: pulls decoded characters out of a byte stream, groups them
//! into lexemes, and emits typed tokens while tracking the 1-based source
//! line for diagnostics.
//!
//! The lexer's behaviour is pinned by a mathematical tokenizer written as
//! spec functions over a `LexState`: the decoded character sequence, the
//! cursor, the one-character lookahead, and the line counter. Every exec
//! method is proved to step its state exactly as the spec tokenizer says.

use vstd::prelude::*;
use vstd::string::StringExecFns;
use crate::character::{
    alphanumeric, alphabetic, cv_alphabetic, cv_alphanumeric, cv_digit, cv_is, cv_newline,
    cv_whitespace, digit_char, unicode_whitespace, Char, CharValue,
};
use crate::token::Token;

verus! {

/// Decoding the byte stream failed: the bytes are not well-formed UTF-8.
/// In this pipeline that is a fatal condition, not a user-facing
/// diagnostic; the caller aborts the run.
#[derive(Debug, Clone, Copy, PartialEq, Eq, Structural)]
pub struct DecodeFault;

/// Names the sequence of Unicode scalar values that UTF-8 decoding yields
/// for the given bytes, in order. Meaningful where `utf8_clean` holds.
pub uninterp spec fn utf8_scalars(bytes: Seq<u8>) -> Seq<char>;

/// Names whether the given bytes are well-formed UTF-8 from start to end.
pub uninterp spec fn utf8_clean(bytes: Seq<u8>) -> bool;

/// Relies on `utf8_read::Reader::next_char` over an in-memory byte source:
/// it yields the stream's decoded scalar values in order, reports end of
/// input (its end-of-stream and no-data answers both mean the bytes are
/// exhausted), and returns an error exactly on a malformed UTF-8 byte
/// sequence. Every scalar takes at least one byte, so no more scalars than
/// bytes come back.
#[verifier::external_body]
fn decode_utf8(bytes: &Vec<u8>) -> (r: Result<Vec<char>, DecodeFault>)
    ensures
        r is Ok <==> utf8_clean(bytes@),
        r matches Ok(cs) ==> cs@ == utf8_scalars(bytes@) && cs@.len() <= bytes@.len(),
{
    let mut reader = utf8_read::Reader::new(bytes.as_slice());
    let mut chars: Vec<char> = Vec::new();
    loop {
        match reader.next_char() {
            Ok(utf8_read::Char::Char(c)) => chars.push(c),
            Ok(_) => return Ok(chars),
            Err(_) => return Err(DecodeFault),
        }
    }
}

/// The mathematical state of the lexer.
pub ghost struct LexState {
    /// The decoded character sequence being tokenized.
    pub chars: Seq<char>,
    /// How many characters have been taken from `chars`.
    pub pos: int,
    /// The one-unit lookahead: the character taken most recently.
    pub last: CharValue,
    /// The current 1-based line number.
    pub line: int,
}

/// A fresh lexer over the given characters: nothing consumed, the lookahead
/// primed with a space so that the first token read starts by fetching a
/// real character, line counter at 1.
pub open spec fn init_state(chars: Seq<char>) -> LexState {
    LexState { chars, pos: 0, last: CharValue::Scalar(' '), line: 1 }
}

/// The structural invariant of a lexer state: the cursor is inside the
/// sequence, and the lookahead is the end marker only once the sequence is
/// exhausted.
pub open spec fn lex_wf(st: LexState) -> bool {
    0 <= st.pos <= st.chars.len() && (st.last is End ==> st.pos == st.chars.len())
}

/// The unit yielded by advancing: the character under the cursor, or the
/// end marker.
pub open spec fn peek(st: LexState) -> CharValue {
    if st.pos < st.chars.len() {
        CharValue::Scalar(st.chars[st.pos])
    } else {
        CharValue::End
    }
}

/// One advance of the cursor: the lookahead becomes the next unit.
pub open spec fn read_char(st: LexState) -> LexState {
    LexState {
        last: peek(st),
        pos: if st.pos < st.chars.len() {
            st.pos + 1
        } else {
            st.pos
        },
        ..st
    }
}

/// How much unconsumed input is left, lookahead included; every productive
/// lexer step strictly shrinks it.
pub open spec fn lex_units(st: LexState) -> int {
    2 * (if st.pos < st.chars.len() {
        st.chars.len() - st.pos
    } else {
        0
    }) + (if st.last is End {
        0int
    } else {
        1
    })
}

/// Skipping whitespace: advances while the lookahead is whitespace,
/// counting a line for every newline consumed.
pub open spec fn skip_ws(st: LexState) -> LexState
    decreases lex_units(st),
{
    if cv_whitespace(st.last) {
        let bumped = if cv_newline(st.last) {
            LexState { line: st.line + 1, ..st }
        } else {
            st
        };
        skip_ws(read_char(bumped))
    } else {
        st
    }
}

/// An identifier scan: takes the lookahead unconditionally, then keeps
/// taking characters while they are alphanumeric, appending to `acc`.
pub open spec fn scan_ident(st: LexState, acc: Seq<char>) -> (Seq<char>, LexState)
    decreases lex_units(st),
{
    match st.last {
        CharValue::End => (acc, st),
        CharValue::Scalar(c) => {
            let st2 = read_char(st);
            let acc2 = acc.push(c);
            if cv_alphanumeric(st2.last) {
                scan_ident(st2, acc2)
            } else {
                (acc2, st2)
            }
        },
    }
}

/// A digit scan: takes the lookahead unconditionally, then keeps taking
/// characters while they are ASCII digits, appending to `acc`.
pub open spec fn scan_digits(st: LexState, acc: Seq<char>) -> (Seq<char>, LexState)
    decreases lex_units(st),
{
    match st.last {
        CharValue::End => (acc, st),
        CharValue::Scalar(c) => {
            let st2 = read_char(st);
            let acc2 = acc.push(c);
            if cv_digit(st2.last) {
                scan_digits(st2, acc2)
            } else {
                (acc2, st2)
            }
        },
    }
}

/// A number scan: a maximal digit run, optionally followed by a literal
/// `.` and another maximal digit run. A trailing `.` with no fraction
/// digits is legal and stays in the lexeme.
pub open spec fn scan_number(st: LexState) -> (Seq<char>, LexState) {
    let scanned = scan_digits(st, Seq::empty());
    if cv_is(scanned.1.last, '.') {
        scan_digits(scanned.1, scanned.0)
    } else {
        scanned
    }
}

/// A comment scan: advances past characters until end of input, carriage
/// return, or line feed; the newline itself is left in the lookahead.
pub open spec fn skip_comment(st: LexState) -> LexState
    decreases lex_units(st),
{
    let st2 = read_char(st);
    if st2.last is End || cv_is(st2.last, '\r') || cv_is(st2.last, '\n') {
        st2
    } else {
        skip_comment(st2)
    }
}

/// An alphabetic lexeme that exactly matches a keyword becomes that
/// keyword's token; anything else is an identifier.
pub open spec fn keyword_or_identifier(lex: Seq<char>) -> Token {
    if lex == "def"@ {
        Token::Define
    } else if lex == "if"@ {
        Token::If
    } else if lex == "else"@ {
        Token::Else
    } else if lex == "then"@ {
        Token::Then
    } else {
        Token::Identifier
    }
}

/// Single- and double-character punctuation dispatch, for a lookahead that
/// is neither alphabetic, a digit, `#`, nor end of input.
pub open spec fn spec_other(st: LexState) -> (Token, LexState) {
    match st.last {
        CharValue::End => (Token::Unset, st),
        CharValue::Scalar(c) => {
            if c == '<' {
                let st2 = read_char(st);
                if cv_is(st2.last, '>') {
                    (Token::NotEq, read_char(st2))
                } else {
                    (Token::Less, st2)
                }
            } else if c == '=' {
                let st2 = read_char(st);
                if cv_is(st2.last, '=') {
                    (Token::Equal, read_char(st2))
                } else {
                    (Token::Unset, st2)
                }
            } else {
                let t = if c == '(' {
                    Token::Lpar
                } else if c == ')' {
                    Token::Rpar
                } else if c == '>' {
                    Token::Greater
                } else if c == '*' {
                    Token::Star
                } else if c == '-' {
                    Token::Minus
                } else if c == '/' {
                    Token::Slash
                } else if c == ';' {
                    Token::Semicolon
                } else if c == ',' {
                    Token::Comma
                } else if c == '+' {
                    Token::Plus
                } else if c == '|' {
                    Token::Or
                } else if c == '&' {
                    Token::And
                } else {
                    Token::InvalidChar
                };
                (t, read_char(st))
            }
        },
    }
}

/// What one call of `get_token` produces: the token, the lexeme backing it,
/// and the state left behind.
pub ghost struct TokenOutcome {
    pub token: Token,
    pub lexeme: Seq<char>,
    pub state: LexState,
}

/// The mathematical tokenizer: skip whitespace, then classify the
/// lookahead. Alphabetic starts an identifier or keyword; a digit starts a
/// number; `#` elides a comment and tokenizes again; end of input yields
/// `Eof`; anything else goes to punctuation dispatch.
pub open spec fn spec_token(st: LexState) -> TokenOutcome
    decreases lex_units(st)
        via spec_token_dec
{
    let st1 = skip_ws(st);
    if cv_alphabetic(st1.last) {
        let scanned = scan_ident(st1, Seq::empty());
        TokenOutcome { token: keyword_or_identifier(scanned.0), lexeme: scanned.0, state: scanned.1 }
    } else if cv_digit(st1.last) {
        let scanned = scan_number(st1);
        TokenOutcome { token: Token::Number, lexeme: scanned.0, state: scanned.1 }
    } else if cv_is(st1.last, '#') {
        let st2 = skip_comment(st1);
        if st2.last is End {
            TokenOutcome { token: Token::Eof, lexeme: Seq::empty(), state: st2 }
        } else {
            spec_token(st2)
        }
    } else if st1.last is End {
        TokenOutcome { token: Token::Eof, lexeme: Seq::empty(), state: st1 }
    } else {
        let dispatched = spec_other(st1);
        TokenOutcome { token: dispatched.0, lexeme: Seq::empty(), state: dispatched.1 }
    }
}

#[via_fn]
proof fn spec_token_dec(st: LexState) {
    lemma_skip_ws(st);
    let st1 = skip_ws(st);
    if !cv_alphabetic(st1.last) && !cv_digit(st1.last) && cv_is(st1.last, '#') {
        lemma_skip_comment(st1);
    }
}

/// Whitespace skipping only walks forward: the characters are untouched,
/// the remaining input does not grow, the result's lookahead is not
/// whitespace, and the line counter grows by at most the input consumed.
pub proof fn lemma_skip_ws(st: LexState)
    ensures
        ({
            let r = skip_ws(st);
            &&& r.chars == st.chars
            &&& lex_units(r) <= lex_units(st)
            &&& !cv_whitespace(r.last)
            &&& st.line <= r.line
            &&& r.line - st.line <= lex_units(st) - lex_units(r)
            &&& lex_wf(st) ==> lex_wf(r) && st.pos <= r.pos
        }),
    decreases lex_units(st),
{
    if cv_whitespace(st.last) {
        let bumped = if cv_newline(st.last) {
            LexState { line: st.line + 1, ..st }
        } else {
            st
        };
        lemma_skip_ws(read_char(bumped));
    }
}

/// A comment scan walks strictly forward when it does not end the input,
/// touches neither the characters nor the line counter, and stops exactly
/// at end of input or at a newline.
pub proof fn lemma_skip_comment(st: LexState)
    ensures
        ({
            let r = skip_comment(st);
            &&& r.chars == st.chars
            &&& r.line == st.line
            &&& lex_units(r) <= lex_units(st)
            &&& !(r.last is End) ==> lex_units(r) < lex_units(st)
            &&& r.last is End || cv_is(r.last, '\r') || cv_is(r.last, '\n')
            &&& lex_wf(st) ==> lex_wf(r) && st.pos <= r.pos
        }),
    decreases lex_units(st),
{
    let st2 = read_char(st);
    if !(st2.last is End || cv_is(st2.last, '\r') || cv_is(st2.last, '\n')) {
        lemma_skip_comment(st2);
    }
}

/// An identifier scan consumes at least one unit, walks only forward, and
/// appends to the accumulator: the accumulated prefix is kept, the first
/// appended character is the entry lookahead, and everything after it is
/// alphanumeric.
pub proof fn lemma_scan_ident(st: LexState, acc: Seq<char>)
    requires
        st.last is Scalar,
    ensures
        ({
            let r = scan_ident(st, acc);
            &&& r.1.chars == st.chars
            &&& r.1.line == st.line
            &&& lex_units(r.1) < lex_units(st)
            &&& r.0.len() > acc.len()
            &&& r.0.subrange(0, acc.len() as int) == acc
            &&& r.0[acc.len() as int] == st.last->0
            &&& forall|i: int| acc.len() + 1 <= i < r.0.len() ==> alphanumeric(#[trigger] r.0[i])
            &&& lex_wf(st) ==> lex_wf(r.1) && st.pos <= r.1.pos
        }),
    decreases lex_units(st),
{
    let st2 = read_char(st);
    let acc2 = acc.push(st.last->0);
    assert(acc2.subrange(0, acc.len() as int) =~= acc);
    if cv_alphanumeric(st2.last) {
        lemma_scan_ident(st2, acc2);
        let r = scan_ident(st2, acc2);
        assert(r.0.subrange(0, acc.len() as int) =~= r.0.subrange(0, acc2.len() as int).subrange(
            0,
            acc.len() as int,
        ));
        assert(r.0[acc.len() as int] == r.0.subrange(0, acc2.len() as int)[acc.len() as int]);
    }
}

/// A digit scan consumes at least one unit, walks only forward, and
/// appends the entry lookahead followed by ASCII digits; it stops on the
/// first non-digit.
pub proof fn lemma_scan_digits(st: LexState, acc: Seq<char>)
    requires
        st.last is Scalar,
    ensures
        ({
            let r = scan_digits(st, acc);
            &&& r.1.chars == st.chars
            &&& r.1.line == st.line
            &&& lex_units(r.1) < lex_units(st)
            &&& r.0.len() > acc.len()
            &&& r.0.subrange(0, acc.len() as int) == acc
            &&& r.0[acc.len() as int] == st.last->0
            &&& forall|i: int| acc.len() + 1 <= i < r.0.len() ==> digit_char(#[trigger] r.0[i])
            &&& !cv_digit(r.1.last)
            &&& lex_wf(st) ==> lex_wf(r.1) && st.pos <= r.1.pos
        }),
    decreases lex_units(st),
{
    let st2 = read_char(st);
    let acc2 = acc.push(st.last->0);
    assert(acc2.subrange(0, acc.len() as int) =~= acc);
    if cv_digit(st2.last) {
        lemma_scan_digits(st2, acc2);
        let r = scan_digits(st2, acc2);
        assert(r.0.subrange(0, acc.len() as int) =~= r.0.subrange(0, acc2.len() as int).subrange(
            0,
            acc.len() as int,
        ));
        assert(r.0[acc.len() as int] == r.0.subrange(0, acc2.len() as int)[acc.len() as int]);
    }
}

/// One tokenizer step walks only forward: characters unchanged, remaining
/// input not grown — strictly shrunk unless the token is `Eof` — the line
/// counter grown by at most the input consumed, and well-formedness kept.
pub proof fn lemma_spec_token(st: LexState)
    requires
        lex_wf(st),
    ensures
        ({
            let r = spec_token(st);
            &&& r.state.chars == st.chars
            &&& lex_units(r.state) <= lex_units(st)
            &&& r.token != Token::Eof ==> lex_units(r.state) < lex_units(st)
            &&& st.line <= r.state.line
            &&& r.state.line - st.line <= lex_units(st) - lex_units(r.state)
            &&& lex_wf(r.state)
            &&& st.pos <= r.state.pos
        }),
    decreases lex_units(st),
{
    lemma_skip_ws(st);
    let st1 = skip_ws(st);
    if cv_alphabetic(st1.last) {
        lemma_scan_ident(st1, Seq::empty());
    } else if cv_digit(st1.last) {
        lemma_scan_digits(st1, Seq::empty());
        let scanned = scan_digits(st1, Seq::empty());
        if cv_is(scanned.1.last, '.') {
            lemma_scan_digits(scanned.1, scanned.0);
        }
    } else if cv_is(st1.last, '#') {
        lemma_skip_comment(st1);
        let st2 = skip_comment(st1);
        if !(st2.last is End) {
            lemma_spec_token(st2);
        }
    }
}

/// The shape every identifier (or keyword) lexeme has: one alphabetic
/// character followed by alphanumeric ones, none of them whitespace.
pub open spec fn ident_shape(l: Seq<char>) -> bool {
    &&& l.len() >= 1
    &&& alphabetic(l[0])
    &&& !unicode_whitespace(l[0])
    &&& forall|i: int|
        1 <= i < l.len() ==> alphanumeric(#[trigger] l[i]) && !unicode_whitespace(l[i])
}

/// All characters of `l` in `[from, to)` are ASCII digits.
pub open spec fn all_digits(l: Seq<char>, from: int, to: int) -> bool {
    forall|i: int| from <= i < to ==> digit_char(#[trigger] l[i])
}

/// The shape every number lexeme has: a non-empty digit run, optionally
/// followed by a `.` and another (possibly empty) digit run; the leading
/// character is not alphabetic.
pub open spec fn number_shape(l: Seq<char>) -> bool {
    &&& l.len() >= 1
    &&& !alphabetic(l[0])
    &&& exists|k: int|
        1 <= k <= l.len() && #[trigger] all_digits(l, 0, k) && (k == l.len() || (l[k] == '.'
            && all_digits(l, k + 1, l.len() as int)))
}

/// Relies on `String::push`: appends exactly the given character.
pub assume_specification[ String::push ](s: &mut String, c: char)
    ensures
        final(s)@ == old(s)@.push(c),
;

/// Relies on `String::clear`: empties the string.
pub assume_specification[ String::clear ](s: &mut String)
    ensures
        final(s)@ == Seq::<char>::empty(),
;

/// The lexer: the decoded characters, a cursor, the current lexeme buffer,
/// the one-character lookahead, and the line counter.
pub struct Lexer {
    chars: Vec<char>,
    pos: usize,
    /// The lexeme backing the most recent token.
    pub lexeme: String,
    last_char: Char,
    line: usize,
}

impl View for Lexer {
    type V = LexState;

    closed spec fn view(&self) -> LexState {
        LexState {
            chars: self.chars@,
            pos: self.pos as int,
            last: self.last_char@,
            line: self.line as int,
        }
    }
}

impl Lexer {
    /// The lexer's invariant: a well-formed cursor, and a line counter that
    /// can never outrun the input consumed so far (which keeps it from
    /// overflowing).
    pub closed spec fn wf(&self) -> bool {
        &&& lex_wf(self@)
        &&& 1 <= self.line
        &&& self.line as int + lex_units(self@) <= 2 + 2 * self.chars@.len()
        &&& 2 * self.chars@.len() + 2 <= usize::MAX
    }

    /// The current lexeme buffer, as a character sequence.
    pub closed spec fn spec_lexeme(&self) -> Seq<char> {
        self.lexeme@
    }

    /// Decodes the byte stream and primes a fresh lexer over its scalar
    /// values; fails exactly on malformed UTF-8.
    pub fn new(src: &Vec<u8>) -> (r: Result<Lexer, DecodeFault>)
        requires
            2 * src@.len() + 2 <= usize::MAX,
        ensures
            r is Ok <==> utf8_clean(src@),
            r matches Ok(lx) ==> lx@ == init_state(utf8_scalars(src@)) && lx.spec_lexeme()
                == Seq::<char>::empty() && lx.wf(),
    {
        match decode_utf8(src) {
            Ok(chars) => {
                let lx = Lexer {
                    chars,
                    pos: 0,
                    lexeme: String::new(),
                    last_char: Char::new(CharValue::Scalar(' ')),
                    line: 1,
                };
                Ok(lx)
            },
            Err(e) => Err(e),
        }
    }

    /// A well-formed lexer has a well-formed mathematical state.
    pub proof fn lemma_wf(&self)
        requires
            self.wf(),
        ensures
            lex_wf(self@),
    {
    }

    /// A copy of the current lexeme buffer.
    pub fn clone_lexeme(&self) -> (r: String)
        ensures
            r@ == self.spec_lexeme(),
    {
        self.lexeme.clone()
    }

    pub fn get_line_numer(&self) -> (r: usize)
        ensures
            r as int == self@.line,
    {
        self.line
    }

    /// The current lookahead character.
    pub fn last_char(&self) -> (r: Char)
        ensures
            r@ == self@.last,
    {
        self.last_char
    }

    /// Takes one more character from the input into the lookahead; once the
    /// input is exhausted the lookahead stays at end-of-input.
    pub fn get_char(&mut self)
        requires
            old(self).wf(),
        ensures
            final(self).wf(),
            final(self)@ == read_char(old(self)@),
            final(self).spec_lexeme() == old(self).spec_lexeme(),
    {
        if self.pos < self.chars.len() {
            self.last_char = Char::new(CharValue::Scalar(self.chars[self.pos]));
            self.pos = self.pos + 1;
        } else {
            self.last_char = Char::new(CharValue::End);
        }
    }

    #[verifier::loop_isolation(false)]
    fn skip_whitespace(&mut self)
        requires
            old(self).wf(),
        ensures
            final(self).wf(),
            final(self)@ == skip_ws(old(self)@),
            final(self).spec_lexeme() == old(self).spec_lexeme(),
            !cv_whitespace(final(self)@.last),
    {
        while self.last_char.is_whitespace()
            invariant
                self.wf(),
                skip_ws(self@) == skip_ws(old(self)@),
                self.lexeme@ == old(self).spec_lexeme(),
            decreases lex_units(self@),
        {
            let newline = self.last_char.is_newline();
            self.get_char();
            if newline {
                self.line = self.line + 1;
            }
        }
    }

    fn get_identifier(&mut self)
        requires
            old(self).wf(),
            old(self)@.last is Scalar,
        ensures
            final(self).wf(),
            ({
                let r = scan_ident(old(self)@, old(self).spec_lexeme());
                final(self).spec_lexeme() == r.0 && final(self)@ == r.1
            }),
            final(self).spec_lexeme().len() > old(self).spec_lexeme().len(),
            final(self).spec_lexeme().subrange(0, old(self).spec_lexeme().len() as int) == old(self).spec_lexeme(),
            final(self).spec_lexeme()[old(self).spec_lexeme().len() as int] == old(self)@.last->0,
            forall|i: int|
                old(self).spec_lexeme().len() + 1 <= i < final(self).spec_lexeme().len() ==> alphanumeric(
                    #[trigger] final(self).spec_lexeme()[i],
                ) && !unicode_whitespace(final(self).spec_lexeme()[i]),
    {
        let ghost st0 = self@;
        let ghost lex0 = self.lexeme@;
        loop
            invariant_except_break
                self.wf(),
                self@.last is Scalar,
                self@.chars == st0.chars,
                scan_ident(st0, lex0) == scan_ident(self@, self.lexeme@),
                self.lexeme@.len() >= lex0.len(),
                self.lexeme@.len() == lex0.len() ==> self@ == st0 && self.lexeme@ == lex0,
                self.lexeme@.len() > lex0.len() ==> cv_alphanumeric(self@.last) && !cv_whitespace(
                    self@.last,
                ),
                self.lexeme@.subrange(0, lex0.len() as int) == lex0,
                self.lexeme@.len() > lex0.len() ==> self.lexeme@[lex0.len() as int] == st0.last->0,
                forall|i: int|
                    lex0.len() + 1 <= i < self.lexeme@.len() ==> alphanumeric(
                        #[trigger] self.lexeme@[i],
                    ) && !unicode_whitespace(self.lexeme@[i]),
            ensures
                self.wf(),
                ({
                    let r = scan_ident(st0, lex0);
                    self.lexeme@ == r.0 && self@ == r.1
                }),
                self.lexeme@.len() > lex0.len(),
                self.lexeme@.subrange(0, lex0.len() as int) == lex0,
                self.lexeme@[lex0.len() as int] == st0.last->0,
                forall|i: int|
                    lex0.len() + 1 <= i < self.lexeme@.len() ==> alphanumeric(
                        #[trigger] self.lexeme@[i],
                    ) && !unicode_whitespace(self.lexeme@[i]),
            decreases lex_units(self@),
        {
            let ghost pre = self.lexeme@;
            let c = self.last_char.as_char();
            self.lexeme.push(c);
            self.get_char();
            proof {
                assert(self.lexeme@.subrange(0, lex0.len() as int) =~= pre.subrange(
                    0,
                    lex0.len() as int,
                ));
            }
            if !self.last_char.is_alphanumeric() {
                break;
            }
        }
    }

    fn get_digits(&mut self)
        requires
            old(self).wf(),
            old(self)@.last is Scalar,
        ensures
            final(self).wf(),
            ({
                let r = scan_digits(old(self)@, old(self).spec_lexeme());
                final(self).spec_lexeme() == r.0 && final(self)@ == r.1
            }),
    {
        let ghost st0 = self@;
        let ghost lex0 = self.lexeme@;
        loop
            invariant_except_break
                self.wf(),
                self@.last is Scalar,
                scan_digits(st0, lex0) == scan_digits(self@, self.lexeme@),
            ensures
                self.wf(),
                ({
                    let r = scan_digits(st0, lex0);
                    self.lexeme@ == r.0 && self@ == r.1
                }),
            decreases lex_units(self@),
        {
            let c = self.last_char.as_char();
            self.lexeme.push(c);
            self.get_char();
            if !self.last_char.is_digit() {
                break;
            }
        }
    }

    fn get_number(&mut self)
        requires
            old(self).wf(),
            old(self)@.last is Scalar,
            old(self).spec_lexeme().len() == 0,
        ensures
            final(self).wf(),
            ({
                let r = scan_number(old(self)@);
                final(self).spec_lexeme() == r.0 && final(self)@ == r.1
            }),
    {
        proof {
            assert(old(self).spec_lexeme() =~= Seq::<char>::empty());
        }
        self.get_digits();
        if self.last_char.eq_char('.') {
            self.get_digits();
        }
    }

    fn skip_comment(&mut self)
        requires
            old(self).wf(),
        ensures
            final(self).wf(),
            final(self)@ == skip_comment(old(self)@),
            final(self).spec_lexeme() == old(self).spec_lexeme(),
    {
        let ghost st0 = self@;
        let ghost lex0 = self.lexeme@;
        loop
            invariant_except_break
                self.wf(),
                skip_comment(st0) == skip_comment(self@),
                self.lexeme@ == lex0,
            ensures
                self.wf(),
                self@ == skip_comment(st0),
                self.lexeme@ == lex0,
            decreases lex_units(self@),
        {
            self.get_char();
            if self.last_char.is_eof() || self.last_char.eq_char('\r') || self.last_char.eq_char(
                '\n',
            ) {
                break;
            }
        }
    }

    fn other(&mut self) -> (t: Token)
        requires
            old(self).wf(),
            old(self)@.last is Scalar,
        ensures
            final(self).wf(),
            ({
                let r = spec_other(old(self)@);
                t == r.0 && final(self)@ == r.1
            }),
            final(self).spec_lexeme() == old(self).spec_lexeme(),
    {
        let c = self.last_char.as_char();
        if c == '<' {
            self.get_char();
            if self.last_char.eq_char('>') {
                self.get_char();
                Token::NotEq
            } else {
                Token::Less
            }
        } else if c == '=' {
            self.get_char();
            if self.last_char.eq_char('=') {
                self.get_char();
                Token::Equal
            } else {
                Token::Unset
            }
        } else {
            let t = if c == '(' {
                Token::Lpar
            } else if c == ')' {
                Token::Rpar
            } else if c == '>' {
                Token::Greater
            } else if c == '*' {
                Token::Star
            } else if c == '-' {
                Token::Minus
            } else if c == '/' {
                Token::Slash
            } else if c == ';' {
                Token::Semicolon
            } else if c == ',' {
                Token::Comma
            } else if c == '+' {
                Token::Plus
            } else if c == '|' {
                Token::Or
            } else if c == '&' {
                Token::And
            } else {
                Token::InvalidChar
            };
            self.get_char();
            t
        }
    }

    /// Produces the next token: clears the lexeme buffer, skips whitespace
    /// (counting lines), elides comments, and classifies what follows,
    /// exactly as the mathematical tokenizer says. Identifier and number
    /// lexemes come back in their characteristic shapes.
    #[verifier::loop_isolation(false)]
    pub fn get_token(&mut self) -> (t: Token)
        requires
            old(self).wf(),
        ensures
            final(self).wf(),
            ({
                let r = spec_token(old(self)@);
                t == r.token && final(self)@ == r.state && final(self).spec_lexeme() == r.lexeme
            }),
            t == Token::Identifier ==> ident_shape(final(self).spec_lexeme()),
            t == Token::Number ==> number_shape(final(self).spec_lexeme()),
    {
        self.lexeme.clear();
        loop
            invariant
                self.wf(),
                self.lexeme@.len() == 0,
                spec_token(self@) == spec_token(old(self)@),
            decreases lex_units(self@),
        {
            let ghost st_iter = self@;
            self.skip_whitespace();
            let ghost st1 = self@;
            if self.last_char.is_alphabetic() {
                proof {
                    assert(self.lexeme@ =~= Seq::<char>::empty());
                }
                self.get_identifier();
                proof {
                    assert(ident_shape(self.lexeme@));
                }
                let t = if self.lexeme == String::from_str("def") {
                    Token::Define
                } else if self.lexeme == String::from_str("if") {
                    Token::If
                } else if self.lexeme == String::from_str("else") {
                    Token::Else
                } else if self.lexeme == String::from_str("then") {
                    Token::Then
                } else {
                    Token::Identifier
                };
                return t;
            }
            if self.last_char.is_digit() {
                proof {
                    assert(self.lexeme@ =~= Seq::<char>::empty());
                }
                self.get_number();
                proof {
                    let r = scan_number(st1);
                    let l = self.lexeme@;
                    let first = scan_digits(st1, Seq::<char>::empty());
                    lemma_scan_digits(st1, Seq::<char>::empty());
                    let k = first.0.len() as int;
                    if cv_is(first.1.last, '.') {
                        lemma_scan_digits(first.1, first.0);
                        assert(l.subrange(0, k) =~= first.0);
                        assert forall|i: int| 0 <= i < k implies digit_char(l[i]) by {
                            assert(l[i] == l.subrange(0, k)[i]);
                        }
                        assert(all_digits(l, 0, k));
                        assert(l[k] == '.');
                        assert(all_digits(l, k + 1, l.len() as int));
                        assert(1 <= k <= l.len() && all_digits(l, 0, k) && (k == l.len() || (l[k]
                            == '.' && all_digits(l, k + 1, l.len() as int))));
                    } else {
                        assert(l =~= first.0);
                        assert(all_digits(l, 0, k));
                        assert(1 <= k <= l.len() && all_digits(l, 0, k) && (k == l.len() || (l[k]
                            == '.' && all_digits(l, k + 1, l.len() as int))));
                    }
                    assert(number_shape(l));
                }
                return Token::Number;
            }
            if self.last_char.eq_char('#') {
                self.skip_comment();
                proof {
                    lemma_skip_ws(st_iter);
                    lemma_skip_comment(st1);
                }
                if !self.last_char.is_eof() {
                    continue;
                }
            }
            if self.last_char.is_eof() {
                return Token::Eof;
            }
            return self.other();
        }
    }
}


/// Scanning an identifier whose remaining characters are all alphanumeric
/// consumes the input to its end and appends exactly those characters.
proof fn lemma_scan_ident_full(st: LexState, acc: Seq<char>)
    requires
        1 <= st.pos <= st.chars.len(),
        st.last == CharValue::Scalar(st.chars[st.pos - 1]),
        forall|i: int| st.pos <= i < st.chars.len() ==> alphanumeric(#[trigger] st.chars[i]),
    ensures
        scan_ident(st, acc).0 == acc + st.chars.subrange(st.pos - 1, st.chars.len() as int),
    decreases st.chars.len() - st.pos,
{
    let len = st.chars.len() as int;
    let c = st.chars[st.pos - 1];
    let st2 = read_char(st);
    if st.pos < len {
        lemma_scan_ident_full(st2, acc.push(c));
        assert(acc + st.chars.subrange(st.pos - 1, len) =~= acc.push(c) + st.chars.subrange(
            st.pos,
            len,
        ));
    } else {
        assert(acc + st.chars.subrange(st.pos - 1, len) =~= acc.push(c));
    }
}

/// Scanning digits from a lookahead at `pos - 1`, where the characters at
/// `pos .. m` are digits and the one at `m` (if any) is not, consumes up to
/// `m` exactly and appends the characters `pos - 1 .. m`.
proof fn lemma_scan_digits_full(st: LexState, acc: Seq<char>, m: int)
    requires
        1 <= st.pos <= st.chars.len(),
        st.last == CharValue::Scalar(st.chars[st.pos - 1]),
        st.pos <= m <= st.chars.len(),
        forall|i: int| st.pos <= i < m ==> digit_char(#[trigger] st.chars[i]),
        m < st.chars.len() ==> !digit_char(st.chars[m]),
    ensures
        scan_digits(st, acc) == (
            acc + st.chars.subrange(st.pos - 1, m),
            LexState {
                chars: st.chars,
                line: st.line,
                pos: if m < st.chars.len() {
                    m + 1
                } else {
                    m
                },
                last: if m < st.chars.len() {
                    CharValue::Scalar(st.chars[m])
                } else {
                    CharValue::End
                },
            },
        ),
    decreases m - st.pos,
{
    let len = st.chars.len() as int;
    let c = st.chars[st.pos - 1];
    let st2 = read_char(st);
    if st.pos < len && digit_char(st.chars[st.pos]) {
        lemma_scan_digits_full(st2, acc.push(c), m);
        assert(acc + st.chars.subrange(st.pos - 1, m) =~= acc.push(c) + st.chars.subrange(
            st.pos,
            m,
        ));
    } else {
        assert(m == st.pos);
        assert(acc + st.chars.subrange(st.pos - 1, m) =~= acc.push(c));
    }
}

/// Round-trip idempotence for identifiers and keywords: tokenizing the
/// lexeme text produced for an alphabetic token from a fresh lexer yields
/// that same lexeme back, classified by the same keyword table.
pub proof fn lemma_retokenize_identifier(l: Seq<char>)
    requires
        ident_shape(l),
    ensures
        spec_token(init_state(l)).lexeme == l,
        spec_token(init_state(l)).token == keyword_or_identifier(l),
{
    let st0 = init_state(l);
    let st1 = read_char(st0);
    assert(skip_ws(st1) == st1);
    assert(skip_ws(st0) == st1);
    lemma_scan_ident_full(st1, Seq::<char>::empty());
    assert(Seq::<char>::empty() + l.subrange(0, l.len() as int) =~= l);
}

/// Round-trip idempotence for numbers: tokenizing the lexeme text produced
/// for a `Number` token from a fresh lexer yields a `Number` token with
/// that same lexeme.
pub proof fn lemma_retokenize_number(l: Seq<char>)
    requires
        number_shape(l),
    ensures
        spec_token(init_state(l)).lexeme == l,
        spec_token(init_state(l)).token == Token::Number,
{
    let len = l.len() as int;
    let st0 = init_state(l);
    let st1 = read_char(st0);
    assert(skip_ws(st1) == st1);
    assert(skip_ws(st0) == st1);
    let k = choose|k: int|
        1 <= k <= l.len() && #[trigger] all_digits(l, 0, k) && (k == l.len() || (l[k] == '.'
            && all_digits(l, k + 1, len)));
    assert(digit_char(l[0]));
    lemma_scan_digits_full(st1, Seq::<char>::empty(), k);
    let scanned = scan_digits(st1, Seq::<char>::empty());
    if k < len {
        let stk = scanned.1;
        assert(stk.last == CharValue::Scalar(l[k]));
        assert(cv_is(stk.last, '.'));
        lemma_scan_digits_full(stk, scanned.0, len);
        assert(scan_number(st1).0 =~= l);
    } else {
        assert(!cv_is(scanned.1.last, '.'));
        assert(scan_number(st1).0 =~= l);
    }
}

} // verus!
