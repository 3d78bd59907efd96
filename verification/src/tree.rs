//! Grammar: builds an expression tree from a token sequence.
//!
//! Precedence, tightest binding first: a single command or parenthesized
//! group ([`CallExpr`]), then `||` chains ([`OrExpr`]), then `&&` chains
//! ([`AndExpr`]), then `;` chains ([`SemicolonExpr`]). Every chain is
//! right-leaning: the right-hand side of an operator is itself a full chain
//! of the same kind. The executable parser is proved equal to the
//! specification-level parser [`spec_parse_expr`]; serializing a parsed tree
//! reproduces the token sequence exactly ([`lemma_parse_round_trip`]).
//!
//! Pipelines are deliberately scoped out rather than silently dropped: a
//! `Pipe` token can never be consumed, so a line holding one fails with
//! [`GrammarError::InvalidCmdStart`].

use vstd::prelude::*;

use crate::parser::{toks, Tok, TokenType};

verus! {

/// A failure of the grammar.
#[derive(Debug, PartialEq, Eq, Structural)]
pub enum GrammarError {
    InvalidCmdStart,
    MismatchedParenthesis,
}

/// A single command: a program call with its arguments, a parenthesized
/// subshell, or nothing (only at the end of the input).
#[derive(Debug, PartialEq)]
pub enum CallExprOptions {
    ProgCall(TokenType, Vec<TokenType>),
    Parenthesis(Box<Expr>),
    Empty,
}

#[derive(Debug, PartialEq)]
pub struct CallExpr {
    pub value: CallExprOptions,
}

/// A non-empty right-leaning chain of calls joined by `||`.
#[derive(Debug, PartialEq)]
pub enum OrExprOptions {
    SingleExpr(CallExpr),
    Or(CallExpr, Box<OrExpr>),
}

#[derive(Debug, PartialEq)]
pub struct OrExpr {
    pub value: OrExprOptions,
}

/// A non-empty right-leaning chain of or-chains joined by `&&`.
#[derive(Debug, PartialEq)]
pub enum AndExprOptions {
    SingleExpr(OrExpr),
    And(OrExpr, Box<AndExpr>),
}

#[derive(Debug, PartialEq)]
pub struct AndExpr {
    pub value: AndExprOptions,
}

/// A non-empty right-leaning chain of and-chains joined by `;`.
#[derive(Debug, PartialEq)]
pub enum SemicolonExprOptions {
    SingleExpr(AndExpr),
    Semicolon(AndExpr, Box<SemicolonExpr>),
}

#[derive(Debug, PartialEq)]
pub struct SemicolonExpr {
    pub value: SemicolonExprOptions,
}

/// A whole expression: one semicolon chain.
#[derive(Debug, PartialEq)]
pub struct Expr {
    pub value: SemicolonExpr,
}

/// The mathematical value of a [`CallExpr`].
pub enum CallModel {
    ProgCall(Tok, Seq<Tok>),
    Parenthesis(Box<ExprModel>),
    Empty,
}

/// The mathematical value of an [`OrExpr`].
pub enum OrModel {
    SingleExpr(CallModel),
    Or(CallModel, Box<OrModel>),
}

/// The mathematical value of an [`AndExpr`].
pub enum AndModel {
    SingleExpr(OrModel),
    And(OrModel, Box<AndModel>),
}

/// The mathematical value of a [`SemicolonExpr`].
pub enum SemiModel {
    SingleExpr(AndModel),
    Semicolon(AndModel, Box<SemiModel>),
}

/// The mathematical value of an [`Expr`].
pub struct ExprModel {
    pub value: SemiModel,
}

impl View for CallExpr {
    type V = CallModel;

    open spec fn view(&self) -> CallModel
        decreases self,
    {
        match &self.value {
            CallExprOptions::ProgCall(name, args) => CallModel::ProgCall(name@, toks(args@)),
            CallExprOptions::Parenthesis(inner) => CallModel::Parenthesis(
                Box::new(ExprModel { value: inner.value@ }),
            ),
            CallExprOptions::Empty => CallModel::Empty,
        }
    }
}

impl View for OrExpr {
    type V = OrModel;

    open spec fn view(&self) -> OrModel
        decreases self,
    {
        match &self.value {
            OrExprOptions::SingleExpr(c) => OrModel::SingleExpr(c@),
            OrExprOptions::Or(c, rest) => OrModel::Or(c@, Box::new((**rest)@)),
        }
    }
}

impl View for AndExpr {
    type V = AndModel;

    open spec fn view(&self) -> AndModel
        decreases self,
    {
        match &self.value {
            AndExprOptions::SingleExpr(o) => AndModel::SingleExpr(o@),
            AndExprOptions::And(o, rest) => AndModel::And(o@, Box::new((**rest)@)),
        }
    }
}

impl View for SemicolonExpr {
    type V = SemiModel;

    open spec fn view(&self) -> SemiModel
        decreases self,
    {
        match &self.value {
            SemicolonExprOptions::SingleExpr(a) => SemiModel::SingleExpr(a@),
            SemicolonExprOptions::Semicolon(a, rest) => SemiModel::Semicolon(
                a@,
                Box::new((**rest)@),
            ),
        }
    }
}

impl View for Expr {
    type V = ExprModel;

    open spec fn view(&self) -> ExprModel {
        ExprModel { value: self.value@ }
    }
}

/// Whether a token may stand in argument position: words and quoted strings.
pub open spec fn arg_token(t: Tok) -> bool {
    match t {
        Tok::Word(_) => true,
        Tok::DoubleQuotedString(_) => true,
        Tok::SingleQuotedString(_) => true,
        _ => false,
    }
}

/// The greedy argument run at `i`: the arguments consumed and their number.
pub open spec fn spec_parse_args(ts: Seq<Tok>, i: int) -> (Seq<Tok>, nat)
    decreases ts.len() - i,
{
    if 0 <= i < ts.len() && arg_token(ts[i]) {
        let (rest, k) = spec_parse_args(ts, i + 1);
        (seq![ts[i]] + rest, (k + 1) as nat)
    } else {
        (Seq::empty(), 0)
    }
}

/// Parses one call at `i`: the model and the number of tokens consumed, or
/// the grammar error met.
pub open spec fn spec_parse_call(ts: Seq<Tok>, i: int) -> Result<(CallModel, nat), GrammarError>
    decreases ts.len() - i, 1int,
{
    if !(0 <= i < ts.len()) {
        Ok((CallModel::Empty, 0))
    } else {
        match ts[i] {
            Tok::Word(s) => {
                let (args, k) = spec_parse_args(ts, i + 1);
                Ok((CallModel::ProgCall(Tok::Word(s), args), (k + 1) as nat))
            },
            Tok::Parenthesis(c) => if c == '(' {
                match spec_parse_semi(ts, i + 1) {
                    Ok((inner, k)) => {
                        let j = i + 1 + k;
                        if j < ts.len() && ts[j] == Tok::Parenthesis(')') {
                            Ok(
                                (
                                    CallModel::Parenthesis(Box::new(ExprModel { value: inner })),
                                    (k + 2) as nat,
                                ),
                            )
                        } else {
                            Err(GrammarError::MismatchedParenthesis)
                        }
                    },
                    Err(e) => Err(e),
                }
            } else {
                Err(GrammarError::InvalidCmdStart)
            },
            _ => Err(GrammarError::InvalidCmdStart),
        }
    }
}

/// Parses one `||` chain at `i`.
pub open spec fn spec_parse_or(ts: Seq<Tok>, i: int) -> Result<(OrModel, nat), GrammarError>
    decreases ts.len() - i, 2int,
{
    match spec_parse_call(ts, i) {
        Err(e) => Err(e),
        Ok((c, k)) => {
            let j = i + k;
            if j < ts.len() && ts[j] == Tok::Or {
                match spec_parse_or(ts, j + 1) {
                    Err(e) => Err(e),
                    Ok((rest, k2)) => Ok((OrModel::Or(c, Box::new(rest)), (k + 1 + k2) as nat)),
                }
            } else {
                Ok((OrModel::SingleExpr(c), k))
            }
        },
    }
}

/// Parses one `&&` chain at `i`.
pub open spec fn spec_parse_and(ts: Seq<Tok>, i: int) -> Result<(AndModel, nat), GrammarError>
    decreases ts.len() - i, 3int,
{
    match spec_parse_or(ts, i) {
        Err(e) => Err(e),
        Ok((o, k)) => {
            let j = i + k;
            if j < ts.len() && ts[j] == Tok::And {
                match spec_parse_and(ts, j + 1) {
                    Err(e) => Err(e),
                    Ok((rest, k2)) => Ok((AndModel::And(o, Box::new(rest)), (k + 1 + k2) as nat)),
                }
            } else {
                Ok((AndModel::SingleExpr(o), k))
            }
        },
    }
}

/// Parses one `;` chain at `i`.
pub open spec fn spec_parse_semi(ts: Seq<Tok>, i: int) -> Result<(SemiModel, nat), GrammarError>
    decreases ts.len() - i, 4int,
{
    match spec_parse_and(ts, i) {
        Err(e) => Err(e),
        Ok((a, k)) => {
            let j = i + k;
            if j < ts.len() && ts[j] == Tok::Semicolon {
                match spec_parse_semi(ts, j + 1) {
                    Err(e) => Err(e),
                    Ok((rest, k2)) => Ok(
                        (SemiModel::Semicolon(a, Box::new(rest)), (k + 1 + k2) as nat),
                    ),
                }
            } else {
                Ok((SemiModel::SingleExpr(a), k))
            }
        },
    }
}

/// Parses a whole token sequence: the expression it denotes, or the grammar
/// error met. A leftover token — a pipe, an unmatched closing parenthesis,
/// or anything following them — is an error, never silently dropped.
pub open spec fn spec_parse_expr(ts: Seq<Tok>) -> Result<ExprModel, GrammarError> {
    match spec_parse_semi(ts, 0) {
        Err(e) => Err(e),
        Ok((m, k)) => if k == ts.len() {
            Ok(ExprModel { value: m })
        } else {
            Err(GrammarError::InvalidCmdStart)
        },
    }
}

/// The token sequence a call serializes to.
pub open spec fn call_tokens(c: CallModel) -> Seq<Tok>
    decreases c,
{
    match c {
        CallModel::ProgCall(name, args) => seq![name] + args,
        CallModel::Parenthesis(inner) => seq![Tok::Parenthesis('(')] + expr_tokens(*inner) + seq![
            Tok::Parenthesis(')'),
        ],
        CallModel::Empty => Seq::empty(),
    }
}

/// The token sequence a `||` chain serializes to.
pub open spec fn or_tokens(o: OrModel) -> Seq<Tok>
    decreases o,
{
    match o {
        OrModel::SingleExpr(c) => call_tokens(c),
        OrModel::Or(c, rest) => call_tokens(c) + seq![Tok::Or] + or_tokens(*rest),
    }
}

/// The token sequence a `&&` chain serializes to.
pub open spec fn and_tokens(a: AndModel) -> Seq<Tok>
    decreases a,
{
    match a {
        AndModel::SingleExpr(o) => or_tokens(o),
        AndModel::And(o, rest) => or_tokens(o) + seq![Tok::And] + and_tokens(*rest),
    }
}

/// The token sequence a `;` chain serializes to.
pub open spec fn semi_tokens(s: SemiModel) -> Seq<Tok>
    decreases s,
{
    match s {
        SemiModel::SingleExpr(a) => and_tokens(a),
        SemiModel::Semicolon(a, rest) => and_tokens(a) + seq![Tok::Semicolon] + semi_tokens(*rest),
    }
}

/// The token sequence an expression serializes to.
pub open spec fn expr_tokens(e: ExprModel) -> Seq<Tok>
    decreases e,
{
    semi_tokens(e.value)
}

fn clone_token(t: &TokenType) -> (r: TokenType)
    ensures
        r@ == t@,
{
    match t {
        TokenType::Word(s) => TokenType::Word(s.clone()),
        TokenType::DoubleQuotedString(s) => TokenType::DoubleQuotedString(s.clone()),
        TokenType::SingleQuotedString(s) => TokenType::SingleQuotedString(s.clone()),
        TokenType::Or => TokenType::Or,
        TokenType::And => TokenType::And,
        TokenType::Parenthesis(c) => TokenType::Parenthesis(*c),
        TokenType::Pipe => TokenType::Pipe,
        TokenType::Semicolon => TokenType::Semicolon,
    }
}

fn is_arg_token(t: &TokenType) -> (r: bool)
    ensures
        r == arg_token(t@),
{
    match t {
        TokenType::Word(_) => true,
        TokenType::DoubleQuotedString(_) => true,
        TokenType::SingleQuotedString(_) => true,
        _ => false,
    }
}

impl CallExpr {
    /// Parses one call at `*pos`: a program name with its greedily consumed
    /// word and quoted-string arguments, a parenthesized expression, or
    /// `Empty` at the end of the input; exactly [`spec_parse_call`].
    pub fn from_tokens(tokens: &Vec<TokenType>, pos: &mut usize) -> (r: Result<
        CallExpr,
        GrammarError,
    >)
        requires
            *old(pos) <= tokens@.len(),
        ensures
            *old(pos) <= *final(pos) <= tokens@.len(),
            ({
                let sp = spec_parse_call(toks(tokens@), *old(pos) as int);
                match r {
                    Ok(e) => sp == Ok::<(CallModel, nat), GrammarError>(
                        (e@, (*final(pos) - *old(pos)) as nat),
                    ),
                    Err(g) => sp == Err::<(CallModel, nat), GrammarError>(g),
                }
            }),
        decreases tokens@.len() - *old(pos), 1int,
    {
        let ghost ts = toks(tokens@);
        let ghost start = *pos as int;
        if *pos == tokens.len() {
            return Ok(CallExpr { value: CallExprOptions::Empty });
        }
        proof {
            assert(ts[start] == tokens@[start]@);
        }
        match &tokens[*pos] {
            TokenType::Word(s) => {
                let name = TokenType::Word(s.clone());
                *pos += 1;
                let ghost astart = *pos as int;
                let mut args: Vec<TokenType> = Vec::new();
                while *pos < tokens.len() && is_arg_token(&tokens[*pos])
                    invariant
                        astart <= *pos as int <= tokens@.len(),
                        ts == toks(tokens@),
                        spec_parse_args(ts, astart).0 == toks(args@) + spec_parse_args(
                            ts,
                            *pos as int,
                        ).0,
                        spec_parse_args(ts, astart).1 == *pos - astart + spec_parse_args(
                            ts,
                            *pos as int,
                        ).1,
                    decreases tokens@.len() - *pos,
                {
                    let ghost p = *pos as int;
                    let ghost pre = toks(args@);
                    proof {
                        assert(ts[p] == tokens@[p]@);
                    }
                    let t = clone_token(&tokens[*pos]);
                    args.push(t);
                    *pos += 1;
                    proof {
                        assert(toks(args@) =~= pre + seq![ts[p]]);
                        assert(spec_parse_args(ts, p).0 == seq![ts[p]] + spec_parse_args(
                            ts,
                            p + 1,
                        ).0);
                        assert(pre + (seq![ts[p]] + spec_parse_args(ts, p + 1).0) =~= (pre
                            + seq![ts[p]]) + spec_parse_args(ts, p + 1).0);
                    }
                }
                proof {
                    assert(spec_parse_args(ts, *pos as int).0 =~= Seq::<Tok>::empty());
                    assert(toks(args@) + Seq::<Tok>::empty() =~= toks(args@));
                }
                Ok(CallExpr { value: CallExprOptions::ProgCall(name, args) })
            },
            TokenType::Parenthesis(c) => {
                if *c == '(' {
                    *pos += 1;
                    match SemicolonExpr::from_tokens(tokens, pos) {
                        Err(e) => Err(e),
                        Ok(inner) => {
                            if *pos < tokens.len() {
                                let ghost j = *pos as int;
                                proof {
                                    assert(ts[j] == tokens@[j]@);
                                }
                                match &tokens[*pos] {
                                    TokenType::Parenthesis(c2) => {
                                        if *c2 == ')' {
                                            *pos += 1;
                                            Ok(
                                                CallExpr {
                                                    value: CallExprOptions::Parenthesis(
                                                        Box::new(Expr { value: inner }),
                                                    ),
                                                },
                                            )
                                        } else {
                                            Err(GrammarError::MismatchedParenthesis)
                                        }
                                    },
                                    _ => Err(GrammarError::MismatchedParenthesis),
                                }
                            } else {
                                Err(GrammarError::MismatchedParenthesis)
                            }
                        },
                    }
                } else {
                    Err(GrammarError::InvalidCmdStart)
                }
            },
            _ => Err(GrammarError::InvalidCmdStart),
        }
    }
}

impl OrExpr {
    /// Parses one `||` chain at `*pos`; exactly [`spec_parse_or`].
    pub fn from_tokens(tokens: &Vec<TokenType>, pos: &mut usize) -> (r: Result<
        OrExpr,
        GrammarError,
    >)
        requires
            *old(pos) <= tokens@.len(),
        ensures
            *old(pos) <= *final(pos) <= tokens@.len(),
            ({
                let sp = spec_parse_or(toks(tokens@), *old(pos) as int);
                match r {
                    Ok(e) => sp == Ok::<(OrModel, nat), GrammarError>(
                        (e@, (*final(pos) - *old(pos)) as nat),
                    ),
                    Err(g) => sp == Err::<(OrModel, nat), GrammarError>(g),
                }
            }),
        decreases tokens@.len() - *old(pos), 2int,
    {
        let ghost ts = toks(tokens@);
        let call_expr = match CallExpr::from_tokens(tokens, pos) {
            Ok(c) => c,
            Err(e) => {
                return Err(e);
            },
        };
        let has_or = if *pos < tokens.len() {
            proof {
                assert(ts[*pos as int] == tokens@[*pos as int]@);
            }
            match &tokens[*pos] {
                TokenType::Or => true,
                _ => false,
            }
        } else {
            false
        };
        if has_or {
            *pos += 1;
            match OrExpr::from_tokens(tokens, pos) {
                Ok(rest) => Ok(
                    OrExpr { value: OrExprOptions::Or(call_expr, Box::new(rest)) },
                ),
                Err(e) => Err(e),
            }
        } else {
            Ok(OrExpr { value: OrExprOptions::SingleExpr(call_expr) })
        }
    }
}

impl AndExpr {
    /// Parses one `&&` chain at `*pos`; exactly [`spec_parse_and`].
    pub fn from_tokens(tokens: &Vec<TokenType>, pos: &mut usize) -> (r: Result<
        AndExpr,
        GrammarError,
    >)
        requires
            *old(pos) <= tokens@.len(),
        ensures
            *old(pos) <= *final(pos) <= tokens@.len(),
            ({
                let sp = spec_parse_and(toks(tokens@), *old(pos) as int);
                match r {
                    Ok(e) => sp == Ok::<(AndModel, nat), GrammarError>(
                        (e@, (*final(pos) - *old(pos)) as nat),
                    ),
                    Err(g) => sp == Err::<(AndModel, nat), GrammarError>(g),
                }
            }),
        decreases tokens@.len() - *old(pos), 3int,
    {
        let ghost ts = toks(tokens@);
        let or_expr = match OrExpr::from_tokens(tokens, pos) {
            Ok(o) => o,
            Err(e) => {
                return Err(e);
            },
        };
        let has_and = if *pos < tokens.len() {
            proof {
                assert(ts[*pos as int] == tokens@[*pos as int]@);
            }
            match &tokens[*pos] {
                TokenType::And => true,
                _ => false,
            }
        } else {
            false
        };
        if has_and {
            *pos += 1;
            match AndExpr::from_tokens(tokens, pos) {
                Ok(rest) => Ok(
                    AndExpr { value: AndExprOptions::And(or_expr, Box::new(rest)) },
                ),
                Err(e) => Err(e),
            }
        } else {
            Ok(AndExpr { value: AndExprOptions::SingleExpr(or_expr) })
        }
    }
}

impl SemicolonExpr {
    /// Parses one `;` chain at `*pos`; exactly [`spec_parse_semi`].
    pub fn from_tokens(tokens: &Vec<TokenType>, pos: &mut usize) -> (r: Result<
        SemicolonExpr,
        GrammarError,
    >)
        requires
            *old(pos) <= tokens@.len(),
        ensures
            *old(pos) <= *final(pos) <= tokens@.len(),
            ({
                let sp = spec_parse_semi(toks(tokens@), *old(pos) as int);
                match r {
                    Ok(e) => sp == Ok::<(SemiModel, nat), GrammarError>(
                        (e@, (*final(pos) - *old(pos)) as nat),
                    ),
                    Err(g) => sp == Err::<(SemiModel, nat), GrammarError>(g),
                }
            }),
        decreases tokens@.len() - *old(pos), 4int,
    {
        let ghost ts = toks(tokens@);
        let and_expr = match AndExpr::from_tokens(tokens, pos) {
            Ok(a) => a,
            Err(e) => {
                return Err(e);
            },
        };
        let has_semi = if *pos < tokens.len() {
            proof {
                assert(ts[*pos as int] == tokens@[*pos as int]@);
            }
            match &tokens[*pos] {
                TokenType::Semicolon => true,
                _ => false,
            }
        } else {
            false
        };
        if has_semi {
            *pos += 1;
            match SemicolonExpr::from_tokens(tokens, pos) {
                Ok(rest) => Ok(
                    SemicolonExpr { value: SemicolonExprOptions::Semicolon(and_expr, Box::new(rest)) },
                ),
                Err(e) => Err(e),
            }
        } else {
            Ok(SemicolonExpr { value: SemicolonExprOptions::SingleExpr(and_expr) })
        }
    }
}

impl CallExpr {
    fn append_tokens(&self, out: &mut Vec<TokenType>)
        ensures
            toks(final(out)@) == toks(old(out)@) + call_tokens(self@),
        decreases self,
    {
        let ghost base = toks(out@);
        match &self.value {
            CallExprOptions::Empty => {
                proof {
                    assert(base + Seq::<Tok>::empty() =~= base);
                }
            },
            CallExprOptions::ProgCall(name, args) => {
                out.push(clone_token(name));
                proof {
                    assert(toks(out@) =~= base + seq![name@]);
                }
                let mut idx: usize = 0;
                while idx < args.len()
                    invariant
                        idx <= args.len(),
                        toks(out@) == base + seq![name@] + toks(args@).subrange(0, idx as int),
                    decreases args@.len() - idx,
                {
                    let ghost cur = toks(out@);
                    out.push(clone_token(&args[idx]));
                    proof {
                        assert(toks(out@) =~= cur + seq![args@[idx as int]@]);
                        assert(toks(args@)[idx as int] == args@[idx as int]@);
                        assert(toks(out@) =~= base + seq![name@] + toks(args@).subrange(
                            0,
                            idx as int + 1,
                        ));
                    }
                    idx += 1;
                }
                proof {
                    assert(toks(args@).subrange(0, args@.len() as int) =~= toks(args@));
                    assert(base + seq![name@] + toks(args@) =~= base + (seq![name@] + toks(args@)));
                }
            },
            CallExprOptions::Parenthesis(inner) => {
                out.push(TokenType::Parenthesis('('));
                proof {
                    assert(toks(out@) =~= base + seq![Tok::Parenthesis('(')]);
                }
                inner.value.append_tokens(out);
                let ghost mid = toks(out@);
                out.push(TokenType::Parenthesis(')'));
                proof {
                    assert(toks(out@) =~= mid + seq![Tok::Parenthesis(')')]);
                    assert(toks(out@) =~= base + call_tokens(self@));
                }
            },
        }
    }
}

impl OrExpr {
    fn append_tokens(&self, out: &mut Vec<TokenType>)
        ensures
            toks(final(out)@) == toks(old(out)@) + or_tokens(self@),
        decreases self,
    {
        let ghost base = toks(out@);
        match &self.value {
            OrExprOptions::SingleExpr(c) => {
                c.append_tokens(out);
            },
            OrExprOptions::Or(c, rest) => {
                c.append_tokens(out);
                let ghost mid = toks(out@);
                out.push(TokenType::Or);
                proof {
                    assert(toks(out@) =~= mid + seq![Tok::Or]);
                }
                rest.append_tokens(out);
                proof {
                    assert(toks(out@) =~= base + or_tokens(self@));
                }
            },
        }
    }
}

impl AndExpr {
    fn append_tokens(&self, out: &mut Vec<TokenType>)
        ensures
            toks(final(out)@) == toks(old(out)@) + and_tokens(self@),
        decreases self,
    {
        let ghost base = toks(out@);
        match &self.value {
            AndExprOptions::SingleExpr(o) => {
                o.append_tokens(out);
            },
            AndExprOptions::And(o, rest) => {
                o.append_tokens(out);
                let ghost mid = toks(out@);
                out.push(TokenType::And);
                proof {
                    assert(toks(out@) =~= mid + seq![Tok::And]);
                }
                rest.append_tokens(out);
                proof {
                    assert(toks(out@) =~= base + and_tokens(self@));
                }
            },
        }
    }
}

impl SemicolonExpr {
    fn append_tokens(&self, out: &mut Vec<TokenType>)
        ensures
            toks(final(out)@) == toks(old(out)@) + semi_tokens(self@),
        decreases self,
    {
        let ghost base = toks(out@);
        match &self.value {
            SemicolonExprOptions::SingleExpr(a) => {
                a.append_tokens(out);
            },
            SemicolonExprOptions::Semicolon(a, rest) => {
                a.append_tokens(out);
                let ghost mid = toks(out@);
                out.push(TokenType::Semicolon);
                proof {
                    assert(toks(out@) =~= mid + seq![Tok::Semicolon]);
                }
                rest.append_tokens(out);
                proof {
                    assert(toks(out@) =~= base + semi_tokens(self@));
                }
            },
        }
    }
}

impl Expr {
    /// Serializes the tree back to the token sequence it denotes.
    pub fn to_tokens(&self) -> (r: Vec<TokenType>)
        ensures
            toks(r@) == expr_tokens(self@),
    {
        let mut out: Vec<TokenType> = Vec::new();
        proof {
            assert(toks(out@) =~= Seq::<Tok>::empty());
        }
        self.value.append_tokens(&mut out);
        proof {
            assert(Seq::<Tok>::empty() + semi_tokens(self.value@) =~= semi_tokens(self.value@));
        }
        out
    }
}

proof fn lemma_parse_args_exact(ts: Seq<Tok>, i: int)
    requires
        0 <= i <= ts.len(),
    ensures
        i + spec_parse_args(ts, i).1 <= ts.len(),
        spec_parse_args(ts, i).0 == ts.subrange(i, i + spec_parse_args(ts, i).1),
    decreases ts.len() - i,
{
    if 0 <= i < ts.len() && arg_token(ts[i]) {
        lemma_parse_args_exact(ts, i + 1);
        let (rest, k) = spec_parse_args(ts, i + 1);
        assert(seq![ts[i]] + rest =~= ts.subrange(i, i + 1 + k));
    } else {
        assert(Seq::<Tok>::empty() =~= ts.subrange(i, i));
    }
}

proof fn lemma_parse_call_exact(ts: Seq<Tok>, i: int)
    requires
        0 <= i <= ts.len(),
    ensures
        spec_parse_call(ts, i) matches Ok((m, k)) ==> i + k <= ts.len() && call_tokens(m)
            == ts.subrange(i, i + k),
    decreases ts.len() - i, 1int,
{
    if !(0 <= i < ts.len()) {
        assert(Seq::<Tok>::empty() =~= ts.subrange(i, i));
    } else {
        match ts[i] {
            Tok::Word(s) => {
                lemma_parse_args_exact(ts, i + 1);
                let (args, k) = spec_parse_args(ts, i + 1);
                assert(seq![ts[i]] + args =~= ts.subrange(i, i + 1 + k));
            },
            Tok::Parenthesis(c) => {
                if c == '(' {
                    match spec_parse_semi(ts, i + 1) {
                        Ok((inner, k)) => {
                            lemma_parse_semi_exact(ts, i + 1);
                            let j = i + 1 + k;
                            if j < ts.len() && ts[j] == Tok::Parenthesis(')') {
                                assert(seq![Tok::Parenthesis('(')] + semi_tokens(inner) + seq![
                                    Tok::Parenthesis(')'),
                                ] =~= ts.subrange(i, j + 1));
                            }
                        },
                        Err(_) => {},
                    }
                }
            },
            _ => {},
        }
    }
}

proof fn lemma_parse_or_exact(ts: Seq<Tok>, i: int)
    requires
        0 <= i <= ts.len(),
    ensures
        spec_parse_or(ts, i) matches Ok((m, k)) ==> i + k <= ts.len() && or_tokens(m)
            == ts.subrange(i, i + k),
    decreases ts.len() - i, 2int,
{
    match spec_parse_call(ts, i) {
        Err(_) => {},
        Ok((c, k)) => {
            lemma_parse_call_exact(ts, i);
            let j = i + k;
            if j < ts.len() && ts[j] == Tok::Or {
                lemma_parse_or_exact(ts, j + 1);
                match spec_parse_or(ts, j + 1) {
                    Ok((rest, k2)) => {
                        assert(call_tokens(c) + seq![Tok::Or] + or_tokens(rest) =~= ts.subrange(
                            i,
                            j + 1 + k2,
                        ));
                    },
                    Err(_) => {},
                }
            }
        },
    }
}

proof fn lemma_parse_and_exact(ts: Seq<Tok>, i: int)
    requires
        0 <= i <= ts.len(),
    ensures
        spec_parse_and(ts, i) matches Ok((m, k)) ==> i + k <= ts.len() && and_tokens(m)
            == ts.subrange(i, i + k),
    decreases ts.len() - i, 3int,
{
    match spec_parse_or(ts, i) {
        Err(_) => {},
        Ok((o, k)) => {
            lemma_parse_or_exact(ts, i);
            let j = i + k;
            if j < ts.len() && ts[j] == Tok::And {
                lemma_parse_and_exact(ts, j + 1);
                match spec_parse_and(ts, j + 1) {
                    Ok((rest, k2)) => {
                        assert(or_tokens(o) + seq![Tok::And] + and_tokens(rest) =~= ts.subrange(
                            i,
                            j + 1 + k2,
                        ));
                    },
                    Err(_) => {},
                }
            }
        },
    }
}

proof fn lemma_parse_semi_exact(ts: Seq<Tok>, i: int)
    requires
        0 <= i <= ts.len(),
    ensures
        spec_parse_semi(ts, i) matches Ok((m, k)) ==> i + k <= ts.len() && semi_tokens(m)
            == ts.subrange(i, i + k),
    decreases ts.len() - i, 4int,
{
    match spec_parse_and(ts, i) {
        Err(_) => {},
        Ok((a, k)) => {
            lemma_parse_and_exact(ts, i);
            let j = i + k;
            if j < ts.len() && ts[j] == Tok::Semicolon {
                lemma_parse_semi_exact(ts, j + 1);
                match spec_parse_semi(ts, j + 1) {
                    Ok((rest, k2)) => {
                        assert(and_tokens(a) + seq![Tok::Semicolon] + semi_tokens(rest)
                            =~= ts.subrange(i, j + 1 + k2));
                    },
                    Err(_) => {},
                }
            }
        },
    }
}

/// Round trip: a token sequence that parses successfully is reproduced
/// exactly — token for token — by serializing the resulting tree.
pub proof fn lemma_parse_round_trip(ts: Seq<Tok>)
    ensures
        spec_parse_expr(ts) matches Ok(e) ==> expr_tokens(e) == ts,
{
    match spec_parse_semi(ts, 0) {
        Err(_) => {},
        Ok((m, k)) => {
            lemma_parse_semi_exact(ts, 0);
            if k == ts.len() {
                assert(ts.subrange(0, ts.len() as int) =~= ts);
            }
        },
    }
}

impl Expr {
    /// Parses a whole token sequence; exactly [`spec_parse_expr`]. A leftover
    /// token — a pipe, an unmatched closing parenthesis, or anything
    /// following them — fails with `InvalidCmdStart` rather than being
    /// silently dropped.
    pub fn from_tokens(tokens: &Vec<TokenType>) -> (r: Result<Expr, GrammarError>)
        ensures
            ({
                let sp = spec_parse_expr(toks(tokens@));
                match r {
                    Ok(e) => sp == Ok::<ExprModel, GrammarError>(e@),
                    Err(g) => sp == Err::<ExprModel, GrammarError>(g),
                }
            }),
    {
        let mut pos: usize = 0;
        match SemicolonExpr::from_tokens(tokens, &mut pos) {
            Err(e) => Err(e),
            Ok(m) => {
                if pos == tokens.len() {
                    Ok(Expr { value: m })
                } else {
                    Err(GrammarError::InvalidCmdStart)
                }
            },
        }
    }
}

} // verus!
