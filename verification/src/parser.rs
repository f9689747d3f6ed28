//! The parser: recursive descent with one token of lookahead and
//! precedence climbing. Statement-level error recovery keeps one bad
//! definition from spoiling the rest: on any failure inside a definition
//! the partial tree is discarded and the parser skips to the next `;` or
//! to end of input, logging diagnostics as it goes and never halting.
//!
//! A mathematical parser — one spec function per grammar production,
//! written over the bundled parser state `PState` in the same style as the
//! lexer's `spec_token` — pins every parsing method exactly: the node
//! built, the tokens consumed, and the diagnostics recorded, down to
//! `spec_program` for a whole run. Each method is also proved to keep the
//! parser well formed, to walk the input only forward (which bounds the
//! recursion), and to add at least one diagnostic on every failure and
//! none on success.

use vstd::prelude::*;
use crate::ast::{expr_views, Ast, AstView, ExprNode, ExprView, Function, FunctionView, Prototype,
    PrototypeView};
use crate::error_logger::{ErrorLogger, ErrorView};
use crate::lexer::{
    init_state, lemma_spec_token, lex_units, lex_wf, spec_token, utf8_clean, utf8_scalars,
    DecodeFault, LexState, Lexer,
};
use crate::operator::Operator;
use crate::token::Token;

verus! {

/// The parser: one lexer, the current lookahead token, the definitions
/// accepted so far, and the diagnostics recorded so far.
pub struct Parser {
    lexer: Lexer,
    token: Token,
    asts: Vec<Ast>,
    err_logger: ErrorLogger,
}

/// One parsing step's common frame: the parser stays well formed, the
/// input characters are untouched and only walked forward, and earlier
/// diagnostics are kept in place.
pub open spec fn parse_step(pre: Parser, post: Parser) -> bool {
    &&& post.wf()
    &&& post.units() <= pre.units()
    &&& post.lex_state().chars == pre.lex_state().chars
    &&& pre.errors().is_prefix_of(post.errors())
}

/// Prefixes chain: what begins with `a` after beginning with `b` still
/// begins with `a`.
pub proof fn lemma_prefix_trans<T>(a: Seq<T>, b: Seq<T>, c: Seq<T>)
    requires
        a.is_prefix_of(b),
        b.is_prefix_of(c),
    ensures
        a.is_prefix_of(c),
{
    assert forall|i: int| 0 <= i < a.len() implies a[i] == c[i] by {
        assert(a[i] == b.subrange(0, a.len() as int)[i]);
        assert(b[i] == c.subrange(0, b.len() as int)[i]);
    }
    assert(a =~= c.subrange(0, a.len() as int));
}

/// The parser-visible state: the lexer, the lookahead token with its
/// lexeme, and the diagnostics.
pub ghost struct PState {
    pub lex: LexState,
    pub token: Token,
    pub lexeme: Seq<char>,
    pub errors: Seq<ErrorView>,
}

/// One token pulled into the lookahead.
pub open spec fn p_next(st: PState) -> PState {
    let r = spec_token(st.lex);
    PState { lex: r.state, token: r.token, lexeme: r.lexeme, errors: st.errors }
}

/// One diagnostic recorded against the current line.
pub open spec fn p_error(st: PState, msg: Seq<char>) -> PState {
    PState { errors: st.errors.push(ErrorView { line: st.lex.line, msg }), ..st }
}

/// How much input is left in a parser-visible state.
pub open spec fn p_measure(st: PState) -> int {
    lex_units(st.lex) + (if st.token is Eof {
        0int
    } else {
        1
    })
}

/// The prototype's parameter names: identifiers taken while the lookahead
/// is one.
pub open spec fn spec_proto_params(st: PState, acc: Seq<Seq<char>>) -> (Seq<Seq<char>>, PState)
    decreases p_measure(st)
        when lex_wf(st.lex)
        via spec_proto_params_dec
{
    if st.token == Token::Identifier {
        spec_proto_params(p_next(st), acc.push(st.lexeme))
    } else {
        (acc, st)
    }
}

#[via_fn]
proof fn spec_proto_params_dec(st: PState, acc: Seq<Seq<char>>) {
    if st.token == Token::Identifier {
        lemma_spec_token(st.lex);
    }
}

/// Recovery skipping: tokens are consumed until one of the stop tokens is
/// in the lookahead. The stop set must name end-of-input.
pub open spec fn spec_sync(st: PState, stops: Seq<Token>) -> PState
    decreases p_measure(st)
        when lex_wf(st.lex) && stops.contains(Token::Eof)
        via spec_sync_dec
{
    if stops.contains(st.token) {
        st
    } else {
        spec_sync(p_next(st), stops)
    }
}

#[via_fn]
proof fn spec_sync_dec(st: PState, stops: Seq<Token>) {
    if !stops.contains(st.token) {
        lemma_spec_token(st.lex);
    }
}

/// The whole prototype: `identifier '(' identifier* ')'`, with the exact
/// diagnostic recorded at each misshape and nothing else changed.
pub open spec fn spec_prototype(st: PState) -> (Option<PrototypeView>, PState) {
    if st.token != Token::Identifier {
        (None::<PrototypeView>, p_error(st, "Expected function name in prototype"@))
    } else {
        let name = st.lexeme;
        let st1 = p_next(st);
        if st1.token != Token::Lpar {
            (None::<PrototypeView>, p_error(st1, "Expected '(' in prototype"@))
        } else {
            let scanned = spec_proto_params(p_next(st1), Seq::empty());
            if scanned.1.token != Token::Rpar {
                (None::<PrototypeView>, p_error(scanned.1, "Expected ')' in prototype"@))
            } else {
                (Some(PrototypeView { name, args: scanned.0 }), p_next(scanned.1))
            }
        }
    }
}

/// The mathematical expression parser, one spec function per grammar
/// tier, mirroring the executable descent exactly: the same token steps,
/// the same diagnostics, the same nodes. Recursive calls whose input is
/// another tier's result are guarded by an explicit check that the
/// remaining input did not grow; parsing only ever consumes input, so the
/// guard's else-branch is unreachable from any real parser state (the
/// executable methods prove the guard on every path), and it merely keeps
/// the definitions total.
///
/// `expression := subexpr ( comparisonOp subexpr )*`, left-folded.
pub open spec fn spec_expression(st: PState) -> (Option<ExprView>, PState)
    decreases p_measure(st), 10int,
{
    let sub = spec_subexpression(st);
    match sub.0 {
        None => (None::<ExprView>, sub.1),
        Some(node) => {
            if p_measure(sub.1) <= p_measure(st) {
                spec_cmp_loop(sub.1, node)
            } else {
                (Some(node), sub.1)
            }
        },
    }
}

/// The left fold over comparison operators.
pub open spec fn spec_cmp_loop(st: PState, node: ExprView) -> (Option<ExprView>, PState)
    decreases p_measure(st), 9int
        when lex_wf(st.lex)
        via spec_cmp_loop_dec
{
    if st.token.spec_comparison_operator() {
        let op = Operator::spec_from_token(st.token);
        let sub = spec_subexpression(p_next(st));
        match sub.0 {
            None => (None::<ExprView>, sub.1),
            Some(rhs) => {
                let folded = ExprView::Binary { op, lhs: Box::new(node), rhs: Box::new(rhs) };
                if p_measure(sub.1) < p_measure(st) {
                    spec_cmp_loop(sub.1, folded)
                } else {
                    (Some(folded), sub.1)
                }
            },
        }
    } else {
        (Some(node), st)
    }
}

#[via_fn]
proof fn spec_cmp_loop_dec(st: PState, node: ExprView) {
    if st.token.spec_comparison_operator() {
        lemma_spec_token(st.lex);
    }
}

/// `subexpr := term ( addOp term )*`, left-folded.
pub open spec fn spec_subexpression(st: PState) -> (Option<ExprView>, PState)
    decreases p_measure(st), 8int,
{
    let sub = spec_term(st);
    match sub.0 {
        None => (None::<ExprView>, sub.1),
        Some(node) => {
            if p_measure(sub.1) <= p_measure(st) {
                spec_add_loop(sub.1, node)
            } else {
                (Some(node), sub.1)
            }
        },
    }
}

/// The left fold over addition-tier operators.
pub open spec fn spec_add_loop(st: PState, node: ExprView) -> (Option<ExprView>, PState)
    decreases p_measure(st), 7int
        when lex_wf(st.lex)
        via spec_add_loop_dec
{
    if st.token.spec_addition_operator() {
        let op = Operator::spec_from_token(st.token);
        let sub = spec_term(p_next(st));
        match sub.0 {
            None => (None::<ExprView>, sub.1),
            Some(rhs) => {
                let folded = ExprView::Binary { op, lhs: Box::new(node), rhs: Box::new(rhs) };
                if p_measure(sub.1) < p_measure(st) {
                    spec_add_loop(sub.1, folded)
                } else {
                    (Some(folded), sub.1)
                }
            },
        }
    } else {
        (Some(node), st)
    }
}

#[via_fn]
proof fn spec_add_loop_dec(st: PState, node: ExprView) {
    if st.token.spec_addition_operator() {
        lemma_spec_token(st.lex);
    }
}

/// `term := factor ( mulOp factor )*`, left-folded.
pub open spec fn spec_term(st: PState) -> (Option<ExprView>, PState)
    decreases p_measure(st), 6int,
{
    let sub = spec_factor(st);
    match sub.0 {
        None => (None::<ExprView>, sub.1),
        Some(node) => {
            if p_measure(sub.1) <= p_measure(st) {
                spec_mul_loop(sub.1, node)
            } else {
                (Some(node), sub.1)
            }
        },
    }
}

/// The left fold over multiplication-tier operators.
pub open spec fn spec_mul_loop(st: PState, node: ExprView) -> (Option<ExprView>, PState)
    decreases p_measure(st), 5int
        when lex_wf(st.lex)
        via spec_mul_loop_dec
{
    if st.token.spec_multiplication_operator() {
        let op = Operator::spec_from_token(st.token);
        let sub = spec_factor(p_next(st));
        match sub.0 {
            None => (None::<ExprView>, sub.1),
            Some(rhs) => {
                let folded = ExprView::Binary { op, lhs: Box::new(node), rhs: Box::new(rhs) };
                if p_measure(sub.1) < p_measure(st) {
                    spec_mul_loop(sub.1, folded)
                } else {
                    (Some(folded), sub.1)
                }
            },
        }
    } else {
        (Some(node), st)
    }
}

#[via_fn]
proof fn spec_mul_loop_dec(st: PState, node: ExprView) {
    if st.token.spec_multiplication_operator() {
        lemma_spec_token(st.lex);
    }
}

/// `factor := '-' expression | identifier [args] | '(' expression ')'
/// | number`; anything else records one diagnostic.
pub open spec fn spec_factor(st: PState) -> (Option<ExprView>, PState)
    decreases p_measure(st), 4int,
{
    if st.token == Token::Minus {
        spec_neg(st)
    } else if st.token == Token::Identifier {
        spec_ident(st)
    } else if st.token == Token::Lpar {
        spec_paren(st)
    } else if st.token == Token::Number {
        (Some(ExprView::Number(st.lexeme)), p_next(st))
    } else {
        (None::<ExprView>, p_error(st, "Expected identifier or number"@))
    }
}

/// Unary minus re-enters the grammar at the lowest precedence: its operand
/// is a whole expression, so `-1+2` parses as the negation of `1+2`.
pub open spec fn spec_neg(st: PState) -> (Option<ExprView>, PState)
    decreases p_measure(st), 2int
        when lex_wf(st.lex) && st.token == Token::Minus
        via spec_neg_dec
{
    let sub = spec_expression(p_next(st));
    match sub.0 {
        None => (None::<ExprView>, sub.1),
        Some(node) => (
            Some(ExprView::Unary { op: Operator::Neg, rhs: Box::new(node) }),
            sub.1,
        ),
    }
}

#[via_fn]
proof fn spec_neg_dec(st: PState) {
    lemma_spec_token(st.lex);
}

/// `'(' expression ')'`.
pub open spec fn spec_paren(st: PState) -> (Option<ExprView>, PState)
    decreases p_measure(st), 2int
        when lex_wf(st.lex) && st.token == Token::Lpar
        via spec_paren_dec
{
    let sub = spec_expression(p_next(st));
    match sub.0 {
        None => (None::<ExprView>, sub.1),
        Some(node) => {
            if sub.1.token != Token::Rpar {
                (None::<ExprView>, p_error(sub.1, "Missing ')'"@))
            } else {
                (Some(node), p_next(sub.1))
            }
        },
    }
}

#[via_fn]
proof fn spec_paren_dec(st: PState) {
    lemma_spec_token(st.lex);
}

/// A variable reference, or a call when `(` follows the identifier.
pub open spec fn spec_ident(st: PState) -> (Option<ExprView>, PState)
    decreases p_measure(st), 2int
        when lex_wf(st.lex) && st.token == Token::Identifier
        via spec_ident_dec
{
    let name = st.lexeme;
    let st1 = p_next(st);
    if st1.token != Token::Lpar {
        (Some(ExprView::Variable(name)), st1)
    } else {
        let st2 = p_next(st1);
        if st2.token == Token::Rpar {
            (Some(ExprView::Call { callee: name, args: Seq::empty() }), p_next(st2))
        } else {
            spec_args_loop(st2, name, Seq::empty())
        }
    }
}

#[via_fn]
proof fn spec_ident_dec(st: PState) {
    lemma_spec_token(st.lex);
    lemma_spec_token(p_next(st).lex);
}

/// The call's argument list: one expression per round, each followed by
/// `)` (done, consuming it), `,` (one more argument), or a diagnostic.
pub open spec fn spec_args_loop(st: PState, name: Seq<char>, acc: Seq<ExprView>) -> (
    Option<ExprView>,
    PState,
)
    decreases p_measure(st), 11int,
{
    let sub = spec_expression(st);
    match sub.0 {
        None => (None::<ExprView>, sub.1),
        Some(e) => {
            let acc2 = acc.push(e);
            if sub.1.token == Token::Rpar {
                (Some(ExprView::Call { callee: name, args: acc2 }), p_next(sub.1))
            } else if sub.1.token != Token::Comma {
                (None::<ExprView>, p_error(sub.1, "Expected ')' or ',' in argument list"@))
            } else {
                let st2 = p_next(sub.1);
                if p_measure(st2) < p_measure(st) {
                    spec_args_loop(st2, name, acc2)
                } else {
                    (None::<ExprView>, st2)
                }
            }
        },
    }
}


/// `'if' expression 'then' expression 'else' expression`, with the exact
/// diagnostic at a missing keyword.
pub open spec fn spec_if(st: PState) -> (Option<ExprView>, PState) {
    let c = spec_expression(p_next(st));
    match c.0 {
        None => (None::<ExprView>, c.1),
        Some(cond) => {
            if c.1.token != Token::Then {
                (None::<ExprView>, p_error(c.1, "Expected 'then'"@))
            } else {
                let t = spec_expression(p_next(c.1));
                match t.0 {
                    None => (None::<ExprView>, t.1),
                    Some(then_branch) => {
                        if t.1.token != Token::Else {
                            (None::<ExprView>, p_error(t.1, "Expected 'else'"@))
                        } else {
                            let e = spec_expression(p_next(t.1));
                            match e.0 {
                                None => (None::<ExprView>, e.1),
                                Some(else_branch) => (
                                    Some(
                                        ExprView::If {
                                            cond: Box::new(cond),
                                            then_branch: Box::new(then_branch),
                                            else_branch: Box::new(else_branch),
                                        },
                                    ),
                                    e.1,
                                ),
                            }
                        }
                    },
                }
            }
        },
    }
}

/// `definition := 'def' prototype ( ifExpr | expression )`.
pub open spec fn spec_definition(st: PState) -> (Option<FunctionView>, PState) {
    let p = spec_prototype(p_next(st));
    match p.0 {
        None => (None::<FunctionView>, p.1),
        Some(proto) => {
            let b = if p.1.token == Token::If {
                spec_if(p.1)
            } else {
                spec_expression(p.1)
            };
            match b.0 {
                None => (None::<FunctionView>, b.1),
                Some(body) => (Some(FunctionView { proto, body }), b.1),
            }
        },
    }
}

/// The recovery stop set: end of input or `;`.
pub open spec fn sync_stops() -> Seq<Token> {
    seq![Token::Eof, Token::Semicolon]
}

/// One accepted or recovered definition: on success it is appended, on
/// failure nothing is and the parser skips to the stop set.
pub open spec fn spec_handle_definition(st: PState, acc: Seq<AstView>) -> (Seq<AstView>, PState) {
    let d = spec_definition(st);
    match d.0 {
        Some(f) => (acc.push(AstView::Definition(f)), d.1),
        None => (acc, spec_sync(d.1, sync_stops())),
    }
}

/// The top-level loop over one already-pulled token: stop at end of
/// input; parse a definition after `def`; log `Expected 'def'` and
/// recover otherwise; then demand the trailing `;` (one diagnostic if
/// absent).
pub open spec fn spec_prog_loop(st: PState, acc: Seq<AstView>) -> (Seq<AstView>, PState)
    decreases p_measure(st),
{
    if st.token == Token::Eof {
        (acc, st)
    } else {
        let handled = if st.token == Token::Define {
            spec_handle_definition(st, acc)
        } else {
            (acc, spec_sync(p_error(st, "Expected 'def'"@), sync_stops()))
        };
        let st2 = if handled.1.token != Token::Semicolon {
            p_error(handled.1, "Missing ';'"@)
        } else {
            p_next(handled.1)
        };
        if p_measure(st2) < p_measure(st) {
            spec_prog_loop(st2, handled.0)
        } else {
            (handled.0, st2)
        }
    }
}

/// A whole run: pull the first token, then the top-level loop. The
/// result is the ordered definitions accepted and the final state, whose
/// diagnostics are the run's diagnostics.
pub open spec fn spec_program(st: PState) -> (Seq<AstView>, PState) {
    spec_prog_loop(p_next(st), Seq::empty())
}

/// The parser state a fresh parser starts from over the given characters.
pub open spec fn initial_pstate(chars: Seq<char>) -> PState {
    PState {
        lex: init_state(chars),
        token: Token::Unset,
        lexeme: Seq::empty(),
        errors: Seq::empty(),
    }
}

/// A parse result and the parser it left behind mirror a mathematical
/// result: same state, same success, same node.
pub open spec fn mirrors_expr(r: Option<ExprNode>, post: Parser, s: (Option<ExprView>, PState)) -> bool {
    &&& post.pstate() == s.1
    &&& (r is Some <==> s.0 is Some)
    &&& (r matches Some(e) ==> Some(e.deep_view()) == s.0)
}

impl Parser {
    /// The parser's invariant: its lexer is well formed.
    pub closed spec fn wf(&self) -> bool {
        self.lexer.wf()
    }

    /// How much input is left, the lookahead token included; every
    /// consuming step strictly shrinks it, which bounds the descent.
    pub closed spec fn units(&self) -> int {
        lex_units(self.lexer@) + (if self.token is Eof {
            0int
        } else {
            1
        })
    }

    /// The lexer's mathematical state.
    pub closed spec fn lex_state(&self) -> LexState {
        self.lexer@
    }

    /// The current lookahead token.
    pub closed spec fn cur_token(&self) -> Token {
        self.token
    }

    /// The lexeme backing the most recent token.
    pub closed spec fn cur_lexeme(&self) -> Seq<char> {
        self.lexer.spec_lexeme()
    }

    /// The diagnostics recorded so far.
    pub closed spec fn errors(&self) -> Seq<ErrorView> {
        self.err_logger@
    }

    /// The definitions accepted so far.
    pub closed spec fn asts_view(&self) -> Seq<AstView> {
        self.asts.deep_view()
    }

    /// The two measures agree: the parser's units are the measure of its
    /// bundled state.
    pub proof fn lemma_units(&self)
        ensures
            self.units() == p_measure(self.pstate()),
    {
    }

    /// A well-formed parser has a well-formed bundled lexer state.
    pub proof fn lemma_pwf(&self)
        requires
            self.wf(),
        ensures
            lex_wf(self.pstate().lex),
    {
        self.lexer.lemma_wf();
    }

    /// The bundled state's components are the parser's own views.
    pub proof fn lemma_pstate_parts(&self)
        ensures
            self.pstate().errors == self.errors(),
            self.pstate().lex == self.lex_state(),
            self.pstate().token == self.cur_token(),
            self.pstate().lexeme == self.cur_lexeme(),
    {
    }

    /// The parser-visible state, bundled.
    pub closed spec fn pstate(&self) -> PState {
        PState {
            lex: self.lexer@,
            token: self.token,
            lexeme: self.lexer.spec_lexeme(),
            errors: self.err_logger@,
        }
    }

    /// Decodes the source bytes and primes a parser over them; fails
    /// exactly on malformed UTF-8.
    pub fn new(src: &Vec<u8>) -> (r: Result<Parser, DecodeFault>)
        requires
            2 * src@.len() + 2 <= usize::MAX,
        ensures
            r is Ok <==> utf8_clean(src@),
            r matches Ok(p) ==> p.wf() && p.lex_state() == init_state(utf8_scalars(src@))
                && p.cur_token() == Token::Unset && p.errors() == Seq::<ErrorView>::empty()
                && p.asts_view() == Seq::<AstView>::empty() && p.pstate() == initial_pstate(
                utf8_scalars(src@),
            ),
    {
        match Lexer::new(src) {
            Ok(lexer) => {
                let p = Parser {
                    lexer,
                    token: Token::Unset,
                    err_logger: ErrorLogger::new(),
                    asts: vec![],
                };
                proof {
                    assert(p.asts_view() =~= Seq::<AstView>::empty());
                }
                Ok(p)
            },
            Err(e) => Err(e),
        }
    }

    /// Pulls the next token into the lookahead.
    fn get_token(&mut self)
        requires
            old(self).wf(),
        ensures
            parse_step(*old(self), *final(self)),
            final(self).errors() == old(self).errors(),
            final(self).asts_view() == old(self).asts_view(),
            old(self).cur_token() != Token::Eof ==> final(self).units() < old(self).units(),
            final(self).cur_token() == spec_token(old(self).lex_state()).token,
            final(self).cur_lexeme() == spec_token(old(self).lex_state()).lexeme,
            final(self).lex_state() == spec_token(old(self).lex_state()).state,
            final(self).pstate() == p_next(old(self).pstate()),
    {
        proof {
            self.lexer.lemma_wf();
            lemma_spec_token(self.lexer@);
        }
        self.token = self.lexer.get_token();
    }

    pub fn get_asts(&self) -> (r: &Vec<Ast>)
        ensures
            r.deep_view() == self.asts_view(),
    {
        &self.asts
    }

    pub fn get_error_logger(&self) -> (r: &ErrorLogger)
        ensures
            r@ == self.errors(),
    {
        &self.err_logger
    }

    /// Gives up the parser, handing out what it accumulated: the accepted
    /// definitions and the diagnostics.
    pub fn finish(self) -> (r: (Vec<Ast>, ErrorLogger))
        ensures
            r.0.deep_view() == self.asts_view(),
            r.1@ == self.errors(),
    {
        (self.asts, self.err_logger)
    }

    /// A copy of the lexeme backing the current token.
    pub fn lexeme(&mut self) -> (r: String)
        ensures
            *final(self) == *old(self),
            r@ == old(self).cur_lexeme(),
    {
        self.lexer.clone_lexeme()
    }

    /// Records one diagnostic against the current source line.
    pub fn push_error(&mut self, msg: &str)
        requires
            old(self).wf(),
        ensures
            final(self).wf(),
            final(self).errors() == old(self).errors().push(
                ErrorView { line: old(self).lex_state().line, msg: msg@ },
            ),
            final(self).asts_view() == old(self).asts_view(),
            final(self).cur_token() == old(self).cur_token(),
            final(self).cur_lexeme() == old(self).cur_lexeme(),
            final(self).lex_state() == old(self).lex_state(),
            final(self).units() == old(self).units(),
            final(self).pstate() == p_error(old(self).pstate(), msg@),
    {
        let line = self.lexer.get_line_numer();
        self.err_logger.push(line, msg);
    }

    /// `expression := subexpr ( comparisonOp subexpr )*`, left-folded:
    /// returns and records exactly what `spec_expression` says.
    #[verifier::loop_isolation(false)]
    fn parse_expression(&mut self) -> (r: Option<ExprNode>)
        requires
            old(self).wf(),
        ensures
            parse_step(*old(self), *final(self)),
            final(self).asts_view() == old(self).asts_view(),
            r is None ==> final(self).errors().len() > old(self).errors().len(),
            r is Some ==> final(self).errors() == old(self).errors(),
            !(old(self).cur_token() == Token::Minus || old(self).cur_token() == Token::Identifier
                || old(self).cur_token() == Token::Lpar || old(self).cur_token() == Token::Number)
                ==> r is None,
            mirrors_expr(r, *final(self), spec_expression(old(self).pstate())),
        decreases old(self).units(), 10int,
    {
        let mut node = match self.parse_subexpression() {
            Some(n) => n,
            None => {
                return None;
            },
        };
        proof {
            old(self).lemma_units();
            self.lemma_units();
            self.lemma_pwf();
        }
        while self.token.is_comparison_operator()
            invariant
                self.wf(),
                self.units() <= old(self).units(),
                self.lex_state().chars == old(self).lex_state().chars,
                self.errors() == old(self).errors(),
                self.asts_view() == old(self).asts_view(),
                spec_expression(old(self).pstate()) == spec_cmp_loop(
                    self.pstate(),
                    node.deep_view(),
                ),
            decreases self.units(),
        {
            proof {
                self.lemma_pwf();
                self.lemma_units();
            }
            let ghost cur = self.pstate();
            let ghost nv = node.deep_view();
            let op = Operator::from_token(&self.token);
            self.get_token();
            let rhs = match self.parse_subexpression() {
                Some(n) => n,
                None => {
                    return None;
                },
            };
            node = ExprNode::create_binary_op(op, node, rhs);
            proof {
                self.lemma_units();
                self.lemma_pwf();
                assert(spec_cmp_loop(cur, nv) == spec_cmp_loop(self.pstate(), node.deep_view()));
            }
        }
        proof {
            self.lemma_pwf();
        }
        Some(node)
    }

    /// `subexpr := term ( addOp term )*`, left-folded.
    #[verifier::loop_isolation(false)]
    fn parse_subexpression(&mut self) -> (r: Option<ExprNode>)
        requires
            old(self).wf(),
        ensures
            parse_step(*old(self), *final(self)),
            final(self).asts_view() == old(self).asts_view(),
            r is None ==> final(self).errors().len() > old(self).errors().len(),
            r is Some ==> final(self).errors() == old(self).errors(),
            !(old(self).cur_token() == Token::Minus || old(self).cur_token() == Token::Identifier
                || old(self).cur_token() == Token::Lpar || old(self).cur_token() == Token::Number)
                ==> r is None,
            mirrors_expr(r, *final(self), spec_subexpression(old(self).pstate())),
        decreases old(self).units(), 8int,
    {
        let mut node = match self.parse_term() {
            Some(n) => n,
            None => {
                return None;
            },
        };
        proof {
            old(self).lemma_units();
            self.lemma_units();
            self.lemma_pwf();
        }
        while self.token.is_addition_operator()
            invariant
                self.wf(),
                self.units() <= old(self).units(),
                self.lex_state().chars == old(self).lex_state().chars,
                self.errors() == old(self).errors(),
                self.asts_view() == old(self).asts_view(),
                spec_subexpression(old(self).pstate()) == spec_add_loop(self.pstate(), node.deep_view()),
            decreases self.units(),
        {
            proof {
                self.lemma_pwf();
                self.lemma_units();
            }
            let ghost cur = self.pstate();
            let ghost nv = node.deep_view();
            let op = Operator::from_token(&self.token);
            self.get_token();
            let rhs = match self.parse_term() {
                Some(n) => n,
                None => {
                    return None;
                },
            };
            node = ExprNode::create_binary_op(op, node, rhs);
            proof {
                self.lemma_units();
                self.lemma_pwf();
                assert(spec_add_loop(cur, nv) == spec_add_loop(self.pstate(), node.deep_view()));
            }
        }
        proof {
            self.lemma_pwf();
        }
        Some(node)
    }

    /// `term := factor ( mulOp factor )*`, left-folded.
    #[verifier::loop_isolation(false)]
    fn parse_term(&mut self) -> (r: Option<ExprNode>)
        requires
            old(self).wf(),
        ensures
            parse_step(*old(self), *final(self)),
            final(self).asts_view() == old(self).asts_view(),
            r is None ==> final(self).errors().len() > old(self).errors().len(),
            r is Some ==> final(self).errors() == old(self).errors(),
            !(old(self).cur_token() == Token::Minus || old(self).cur_token() == Token::Identifier
                || old(self).cur_token() == Token::Lpar || old(self).cur_token() == Token::Number)
                ==> r is None,
            mirrors_expr(r, *final(self), spec_term(old(self).pstate())),
        decreases old(self).units(), 6int,
    {
        let mut node = match self.parse_factor() {
            Some(n) => n,
            None => {
                return None;
            },
        };
        proof {
            old(self).lemma_units();
            self.lemma_units();
            self.lemma_pwf();
        }
        while self.token.is_multiplication_operator()
            invariant
                self.wf(),
                self.units() <= old(self).units(),
                self.lex_state().chars == old(self).lex_state().chars,
                self.errors() == old(self).errors(),
                self.asts_view() == old(self).asts_view(),
                spec_term(old(self).pstate()) == spec_mul_loop(self.pstate(), node.deep_view()),
            decreases self.units(),
        {
            proof {
                self.lemma_pwf();
                self.lemma_units();
            }
            let ghost cur = self.pstate();
            let ghost nv = node.deep_view();
            let op = Operator::from_token(&self.token);
            self.get_token();
            let rhs = match self.parse_factor() {
                Some(n) => n,
                None => {
                    return None;
                },
            };
            node = ExprNode::create_binary_op(op, node, rhs);
            proof {
                self.lemma_units();
                self.lemma_pwf();
                assert(spec_mul_loop(cur, nv) == spec_mul_loop(self.pstate(), node.deep_view()));
            }
        }
        proof {
            self.lemma_pwf();
        }
        Some(node)
    }

    /// `factor := '-' expression | identifier [...] | '(' expression ')'
    /// | number`; anything else is a diagnostic.
    fn parse_factor(&mut self) -> (r: Option<ExprNode>)
        requires
            old(self).wf(),
        ensures
            parse_step(*old(self), *final(self)),
            final(self).asts_view() == old(self).asts_view(),
            r is None ==> final(self).errors().len() > old(self).errors().len(),
            r is Some ==> final(self).errors() == old(self).errors(),
            old(self).cur_token() == Token::Number ==> ({
                &&& r matches Some(e)
                &&& e.deep_view() == ExprView::Number(old(self).cur_lexeme())
            }),
            !(old(self).cur_token() == Token::Minus || old(self).cur_token() == Token::Identifier
                || old(self).cur_token() == Token::Lpar || old(self).cur_token() == Token::Number)
                ==> r is None && final(self).pstate() == p_error(
                old(self).pstate(),
                "Expected identifier or number"@,
            ),
            mirrors_expr(r, *final(self), spec_factor(old(self).pstate())),
        decreases old(self).units(), 4int,
    {
        proof {
            self.lemma_pwf();
        }
        match self.token {
            Token::Minus => self.parse_neg_expr(),
            Token::Identifier => self.parse_identifier_expr(),
            Token::Lpar => self.parse_paren_expr(),
            Token::Number => self.parse_number_expr(),
            _ => {
                self.push_error("Expected identifier or number");
                None
            },
        }
    }

    /// A variable reference, or a call if a parenthesized argument list
    /// follows the identifier: exactly what `spec_ident` and
    /// `spec_args_loop` say, the parsed arguments in source order included.
    #[verifier::loop_isolation(false)]
    fn parse_identifier_expr(&mut self) -> (r: Option<ExprNode>)
        requires
            old(self).wf(),
            old(self).cur_token() == Token::Identifier,
        ensures
            parse_step(*old(self), *final(self)),
            final(self).asts_view() == old(self).asts_view(),
            r is None ==> final(self).errors().len() > old(self).errors().len(),
            r is Some ==> final(self).errors() == old(self).errors(),
            spec_token(old(self).lex_state()).token != Token::Lpar ==> ({
                &&& r matches Some(e)
                &&& e.deep_view() == ExprView::Variable(old(self).cur_lexeme())
                &&& final(self).pstate() == p_next(old(self).pstate())
            }),
            r matches Some(e) ==> ({
                ||| e.deep_view() == ExprView::Variable(old(self).cur_lexeme())
                ||| {
                    &&& e.deep_view() matches ExprView::Call { callee, args }
                    &&& callee == old(self).cur_lexeme()
                }
            }),
            mirrors_expr(r, *final(self), spec_ident(old(self).pstate())),
        decreases old(self).units(), 2int,
    {
        proof {
            self.lemma_pwf();
            self.lemma_units();
        }
        let id_name = self.lexeme();
        self.get_token();
        if self.token != Token::Lpar {
            return Some(ExprNode::Variable(id_name));
        }
        self.get_token();
        let mut args: Vec<ExprNode> = vec![];
        proof {
            assert(expr_views(args@) =~= Seq::<ExprView>::empty());
        }
        if self.token != Token::Rpar {
            let ghost st_args = self.pstate();
            loop
                invariant
                    self.wf(),
                    self.units() < old(self).units(),
                    self.lex_state().chars == old(self).lex_state().chars,
                    self.errors() == old(self).errors(),
                    self.asts_view() == old(self).asts_view(),
                    spec_args_loop(st_args, id_name@, Seq::<ExprView>::empty())
                        == spec_args_loop(self.pstate(), id_name@, expr_views(args@)),
                decreases self.units(),
            {
                proof {
                    self.lemma_units();
                }
                let ghost cur = self.pstate();
                let ghost accv = expr_views(args@);
                match self.parse_expression() {
                    Some(expr_node) => {
                        let ghost pre = args@;
                        args.push(expr_node);
                        proof {
                            assert(args@.drop_last() =~= pre);
                            assert(expr_views(args@) =~= accv.push(args@.last().deep_view()));
                        }
                    },
                    None => {
                        return None;
                    },
                }
                if self.token == Token::Rpar {
                    self.get_token();
                    proof {
                        self.lemma_units();
                    }
                    return Some(ExprNode::create_call(id_name, args));
                }
                if self.token != Token::Comma {
                    self.push_error("Expected ')' or ',' in argument list");
                    return None;
                }
                self.get_token();
                proof {
                    self.lemma_units();
                }
            }
        }
        self.get_token();
        Some(ExprNode::create_call(id_name, args))
    }

    /// A literal number, carried as its lexeme text.
    fn parse_number_expr(&mut self) -> (r: Option<ExprNode>)
        requires
            old(self).wf(),
        ensures
            parse_step(*old(self), *final(self)),
            final(self).asts_view() == old(self).asts_view(),
            final(self).errors() == old(self).errors(),
            r matches Some(e) && e.deep_view() == ExprView::Number(old(self).cur_lexeme()),
            final(self).pstate() == p_next(old(self).pstate()),
        decreases old(self).units(), 2int,
    {
        let node = ExprNode::Number(self.lexeme());
        self.get_token();
        Some(node)
    }

    /// `'(' expression ')'`; a missing closing parenthesis is a
    /// diagnostic.
    fn parse_paren_expr(&mut self) -> (r: Option<ExprNode>)
        requires
            old(self).wf(),
            old(self).cur_token() == Token::Lpar,
        ensures
            parse_step(*old(self), *final(self)),
            final(self).asts_view() == old(self).asts_view(),
            r is None ==> final(self).errors().len() > old(self).errors().len(),
            r is Some ==> final(self).errors() == old(self).errors(),
            mirrors_expr(r, *final(self), spec_paren(old(self).pstate())),
        decreases old(self).units(), 2int,
    {
        proof {
            self.lemma_pwf();
        }
        self.get_token();
        let node = match self.parse_expression() {
            Some(n) => n,
            None => {
                return None;
            },
        };
        if self.token != Token::Rpar {
            self.push_error("Missing ')'");
            return None;
        }
        self.get_token();
        Some(node)
    }

    /// Unary negation: `-` re-enters the grammar at the lowest precedence,
    /// so its operand is a whole expression, not just a factor.
    fn parse_neg_expr(&mut self) -> (r: Option<ExprNode>)
        requires
            old(self).wf(),
            old(self).cur_token() == Token::Minus,
        ensures
            parse_step(*old(self), *final(self)),
            final(self).asts_view() == old(self).asts_view(),
            r is None ==> final(self).errors().len() > old(self).errors().len(),
            r is Some ==> final(self).errors() == old(self).errors(),
            r matches Some(e) ==> ({
                &&& e.deep_view() matches ExprView::Unary { op, rhs }
                &&& op == Operator::Neg
            }),
            mirrors_expr(r, *final(self), spec_neg(old(self).pstate())),
        decreases old(self).units(), 2int,
    {
        proof {
            self.lemma_pwf();
        }
        self.get_token();
        let node = match self.parse_expression() {
            Some(n) => n,
            None => {
                return None;
            },
        };
        Some(ExprNode::create_unary_op(Operator::Neg, node))
    }

    /// `'if' expression 'then' expression 'else' expression`.
    fn parse_if_expr(&mut self) -> (r: Option<ExprNode>)
        requires
            old(self).wf(),
            old(self).cur_token() == Token::If,
        ensures
            parse_step(*old(self), *final(self)),
            final(self).asts_view() == old(self).asts_view(),
            r is None ==> final(self).errors().len() > old(self).errors().len(),
            r is Some ==> final(self).errors() == old(self).errors(),
            r matches Some(e) ==> e.deep_view() is If,
            mirrors_expr(r, *final(self), spec_if(old(self).pstate())),
        decreases old(self).units(), 2int,
    {
        proof {
            self.lemma_pwf();
        }
        self.get_token();
        let cond = match self.parse_expression() {
            Some(n) => n,
            None => {
                return None;
            },
        };
        if self.token != Token::Then {
            self.push_error("Expected 'then'");
            return None;
        }
        self.get_token();
        let then_branch = match self.parse_expression() {
            Some(n) => n,
            None => {
                return None;
            },
        };
        if self.token != Token::Else {
            self.push_error("Expected 'else'");
            return None;
        }
        self.get_token();
        let else_branch = match self.parse_expression() {
            Some(n) => n,
            None => {
                return None;
            },
        };
        Some(ExprNode::create_if_then_else(cond, then_branch, else_branch))
    }

    /// `definition := 'def' prototype ( ifExpr | expression )`.
    fn parse_definition(&mut self) -> (r: Option<Function>)
        requires
            old(self).wf(),
            old(self).cur_token() == Token::Define,
        ensures
            parse_step(*old(self), *final(self)),
            final(self).units() < old(self).units(),
            final(self).asts_view() == old(self).asts_view(),
            r is None ==> final(self).errors().len() > old(self).errors().len(),
            r is Some ==> final(self).errors() == old(self).errors(),
            r matches Some(f) ==> f@.proto.name == spec_token(old(self).lex_state()).lexeme,
            r matches Some(f) ==> Some(f@.proto) == spec_prototype(p_next(old(self).pstate())).0,
            spec_prototype(p_next(old(self).pstate())).0 is None ==> r is None,
            ({
                let s = spec_definition(old(self).pstate());
                &&& final(self).pstate() == s.1
                &&& (r is Some <==> s.0 is Some)
                &&& (r matches Some(f) ==> Some(f@) == s.0)
            }),
        decreases old(self).units(), 12int,
    {
        proof {
            self.lemma_pwf();
        }
        self.get_token();
        let proto = match self.parse_prototype() {
            Some(p) => p,
            None => {
                return None;
            },
        };
        let expr_node = match self.token {
            Token::If => {
                match self.parse_if_expr() {
                    Some(n) => n,
                    None => {
                        return None;
                    },
                }
            },
            _ => {
                match self.parse_expression() {
                    Some(n) => n,
                    None => {
                        return None;
                    },
                }
            },
        };
        Some(Function::new(proto, expr_node))
    }

    /// `prototype := identifier '(' identifier* ')'`; what it returns and
    /// records is exactly what the mathematical prototype parser says.
    #[verifier::loop_isolation(false)]
    fn parse_prototype(&mut self) -> (r: Option<Prototype>)
        requires
            old(self).wf(),
        ensures
            parse_step(*old(self), *final(self)),
            final(self).asts_view() == old(self).asts_view(),
            r is None ==> final(self).errors().len() > old(self).errors().len(),
            r is Some ==> final(self).errors() == old(self).errors(),
            r matches Some(p) ==> p@.name == old(self).cur_lexeme(),
            ({
                let s = spec_prototype(old(self).pstate());
                &&& final(self).pstate() == s.1
                &&& (r is Some <==> s.0 is Some)
                &&& (r matches Some(p) ==> Some(p@) == s.0)
            }),
        decreases old(self).units(), 2int,
    {
        if self.token != Token::Identifier {
            self.push_error("Expected function name in prototype");
            return None;
        }
        let id_name = self.lexeme();
        self.get_token();
        if self.token != Token::Lpar {
            self.push_error("Expected '(' in prototype");
            return None;
        }
        self.get_token();
        let ghost stp = self.pstate();
        let mut args: Vec<String> = vec![];
        proof {
            assert(args.deep_view() =~~= Seq::<Seq<char>>::empty());
        }
        while self.token == Token::Identifier
            invariant
                self.wf(),
                self.units() <= old(self).units(),
                self.lex_state().chars == old(self).lex_state().chars,
                self.errors() == old(self).errors(),
                self.asts_view() == old(self).asts_view(),
                spec_proto_params(stp, Seq::<Seq<char>>::empty()) == spec_proto_params(
                    self.pstate(),
                    args.deep_view(),
                ),
            decreases self.units(),
        {
            let ghost cur = self.pstate();
            let ghost acc = args.deep_view();
            proof {
                self.lexer.lemma_wf();
            }
            args.push(self.lexeme());
            self.get_token();
            proof {
                self.lexer.lemma_wf();
                assert(args.deep_view() =~~= acc.push(cur.lexeme));
                assert(self.pstate() == p_next(cur));
                assert(spec_proto_params(cur, acc) == spec_proto_params(
                    p_next(cur),
                    acc.push(cur.lexeme),
                ));
            }
        }
        proof {
            self.lexer.lemma_wf();
            assert(spec_proto_params(self.pstate(), args.deep_view()) == (
                args.deep_view(),
                self.pstate(),
            ));
        }
        if self.token != Token::Rpar {
            self.push_error("Expected ')' in prototype");
            return None;
        }
        self.get_token();
        let p = Prototype::new(id_name, args);
        proof {
            assert(spec_prototype(old(self).pstate()).0 == Some(
                PrototypeView { name: id_name@, args: p@.args },
            ));
        }
        Some(p)
    }

    /// Skips tokens until one of the given stop tokens is in the
    /// lookahead. The stop set must name end-of-input, so the skip always
    /// finds an end.
    #[verifier::loop_isolation(false)]
    fn synchronize(&mut self, tokens: Vec<Token>)
        requires
            old(self).wf(),
            tokens@.contains(Token::Eof),
        ensures
            parse_step(*old(self), *final(self)),
            final(self).errors() == old(self).errors(),
            final(self).asts_view() == old(self).asts_view(),
            tokens@.contains(final(self).cur_token()),
            !tokens@.contains(old(self).cur_token()) ==> final(self).units() < old(self).units(),
            final(self).pstate() == spec_sync(old(self).pstate(), tokens@),
    {
        while !token_in(&tokens, self.token)
            invariant
                self.wf(),
                self.units() <= old(self).units(),
                !tokens@.contains(old(self).cur_token()) && self.units() == old(self).units()
                    ==> self.cur_token() == old(self).cur_token(),
                self.lex_state().chars == old(self).lex_state().chars,
                self.errors() == old(self).errors(),
                self.asts_view() == old(self).asts_view(),
                spec_sync(old(self).pstate(), tokens@) == spec_sync(self.pstate(), tokens@),
            decreases self.units(),
        {
            proof {
                self.lexer.lemma_wf();
            }
            self.get_token();
            proof {
                self.lexer.lemma_wf();
            }
        }
        proof {
            self.lexer.lemma_wf();
        }
    }

    /// Parses one definition and appends it to the translation unit; on
    /// failure the partial definition is discarded — nothing malformed
    /// reaches the tree — and the parser skips to the next `;` or to end
    /// of input.
    fn handle_definition(&mut self)
        requires
            old(self).wf(),
            old(self).cur_token() == Token::Define,
        ensures
            parse_step(*old(self), *final(self)),
            final(self).units() < old(self).units(),
            final(self).errors() == old(self).errors() ==> final(self).asts_view().len() == old(
                self,
            ).asts_view().len() + 1,
            final(self).asts_view() == old(self).asts_view() || (final(self).asts_view() == old(
                self,
            ).asts_view().push(final(self).asts_view().last())),
            final(self).asts_view().len() > old(self).asts_view().len() ==> final(self).errors()
                == old(self).errors(),
            final(self).asts_view() == old(self).asts_view() ==> final(self).errors().len() > old(
                self,
            ).errors().len() && (final(self).cur_token() == Token::Eof || final(self).cur_token()
                == Token::Semicolon),
            final(self).asts_view().len() > old(self).asts_view().len() ==> ({
                &&& final(self).asts_view().last() matches AstView::Definition(fv)
                &&& fv.proto.name == spec_token(old(self).lex_state()).lexeme
                &&& Some(fv.proto) == spec_prototype(p_next(old(self).pstate())).0
            }),
            ({
                let d = spec_definition(old(self).pstate());
                match d.0 {
                    Some(f) => final(self).asts_view() == old(self).asts_view().push(
                        AstView::Definition(f),
                    ) && final(self).pstate() == d.1,
                    None => final(self).asts_view() == old(self).asts_view() && final(self).pstate()
                        == spec_sync(d.1, sync_stops()),
                }
            }),
    {
        match self.parse_definition() {
            Some(node) => {
                let ghost pre = self.asts_view();
                self.asts.push(Ast::Definition(node));
                proof {
                    assert(self.asts_view() =~~= pre.push(self.asts_view().last()));
                }
            },
            None => {
                let stops = vec![Token::Eof, Token::Semicolon];
                proof {
                    assert(stops@ =~= sync_stops());
                }
                self.synchronize(stops);
            },
        }
    }

    /// The top-level loop: reads the first token, then parses one
    /// definition per `def`, logging "Expected 'def'" for anything else
    /// and recovering at the next `;` or end of input; after every
    /// definition a missing `;` is one more diagnostic. It stops exactly
    /// at end of input, having appended exactly the definitions and
    /// recorded exactly the diagnostics that `spec_program` names for the
    /// input.
    #[verifier::loop_isolation(false)]
    pub fn main_loop(&mut self)
        requires
            old(self).wf(),
        ensures
            final(self).wf(),
            final(self).cur_token() == Token::Eof,
            final(self).lex_state().chars == old(self).lex_state().chars,
            old(self).errors().is_prefix_of(final(self).errors()),
            old(self).asts_view().is_prefix_of(final(self).asts_view()),
            spec_token(old(self).lex_state()).token != Token::Define && spec_token(
                old(self).lex_state(),
            ).token != Token::Eof ==> final(self).errors().len() > old(self).errors().len(),
            ({
                let run = spec_program(old(self).pstate());
                final(self).asts_view() == old(self).asts_view() + run.0 && final(self).pstate()
                    == run.1
            }),
    {
        proof {
            self.lemma_units();
        }
        let ghost base = self.asts_view();
        self.get_token();
        let ghost st_first = self.pstate();
        proof {
            assert(self.asts_view().subrange(base.len() as int, self.asts_view().len() as int)
                =~= Seq::<AstView>::empty());
        }
        loop
            invariant
                self.wf(),
                self.units() <= old(self).units(),
                self.lex_state().chars == old(self).lex_state().chars,
                old(self).errors().is_prefix_of(self.errors()),
                old(self).asts_view().is_prefix_of(self.asts_view()),
                self.errors().len() >= old(self).errors().len(),
                spec_token(old(self).lex_state()).token != Token::Define && spec_token(
                    old(self).lex_state(),
                ).token != Token::Eof ==> (self.cur_token() == spec_token(
                    old(self).lex_state(),
                ).token || self.errors().len() > old(self).errors().len()),
                base == old(self).asts_view(),
                base.len() <= self.asts_view().len(),
                spec_prog_loop(st_first, Seq::<AstView>::empty()) == spec_prog_loop(
                    self.pstate(),
                    self.asts_view().subrange(base.len() as int, self.asts_view().len() as int),
                ),
            decreases self.units(), (if self.token is Eof {
                0int
            } else {
                1
            }),
        {
            let ghost iter_pre = *self;
            let ghost cur = self.pstate();
            let ghost delta = self.asts_view().subrange(
                base.len() as int,
                self.asts_view().len() as int,
            );
            proof {
                self.lemma_units();
            }
            match self.token {
                Token::Eof => {
                    break;
                },
                Token::Define => {
                    self.handle_definition();
                    proof {
                        let d = spec_definition(cur);
                        if d.0 is Some {
                            assert(self.asts_view().subrange(
                                base.len() as int,
                                self.asts_view().len() as int,
                            ) =~= delta.push(AstView::Definition(d.0->0)));
                        } else {
                            assert(self.asts_view().subrange(
                                base.len() as int,
                                self.asts_view().len() as int,
                            ) =~= delta);
                        }
                    }
                },
                _ => {
                    self.push_error("Expected 'def'");
                    let stops = vec![Token::Eof, Token::Semicolon];
                    proof {
                        assert(stops@ =~= sync_stops());
                    }
                    self.synchronize(stops);
                },
            }
            proof {
                lemma_prefix_trans(old(self).errors(), iter_pre.errors(), self.errors());
                lemma_prefix_trans(old(self).asts_view(), iter_pre.asts_view(), self.asts_view());
            }
            if self.token != Token::Semicolon {
                self.push_error("Missing ';'");
                proof {
                    lemma_prefix_trans(
                        old(self).errors(),
                        self.errors().drop_last(),
                        self.errors(),
                    );
                }
            } else {
                self.get_token();
            }
            proof {
                self.lemma_units();
                assert(spec_prog_loop(cur, delta) == spec_prog_loop(
                    self.pstate(),
                    self.asts_view().subrange(base.len() as int, self.asts_view().len() as int),
                ));
            }
        }
        proof {
            assert(old(self).asts_view() + self.asts_view().subrange(
                base.len() as int,
                self.asts_view().len() as int,
            ) =~= self.asts_view());
        }
    }
}

/// Whether the lookahead token is in the stop set.
fn token_in(tokens: &Vec<Token>, t: Token) -> (r: bool)
    ensures
        r == tokens@.contains(t),
{
    let mut i: usize = 0;
    while i < tokens.len()
        invariant
            i <= tokens.len(),
            forall|j: int| 0 <= j < i ==> tokens@[j] != t,
        decreases tokens.len() - i,
    {
        if tokens[i] == t {
            return true;
        }
        i = i + 1;
    }
    false
}

} // verus!
