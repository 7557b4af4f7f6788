//! The arithmetic reader behind `%math(..)`: text to tokens, tokens to
//! postfix order, postfix order to a tree of operations.
//!
//! The grammar has numbers (a `-` is a sign when it opens the text or follows
//! an operator or an opening parenthesis), the operators `+ - * /`,
//! parentheses and the functions `sin` and `cos`. This crate holds no
//! floating-point code: the tree is what it hands out, and the engine around
//! it folds the tree over its number type.

use vstd::prelude::*;
use crate::text::{chars_of, string_of, slice_of, is_digit, digit};

verus! {

/// Whether `c` has the Unicode property `Alphabetic`, as `char::is_alphabetic` gives it.
pub uninterp spec fn unicode_alphabetic(c: char) -> bool;

/// Calls `char::is_alphabetic`. The contract only gives the result its name.
#[verifier::external_body]
fn alphabetic(c: char) -> (r: bool)
    ensures
        r == unicode_alphabetic(c),
{
    c.is_alphabetic()
}

/// One lexical unit of an arithmetic expression.
#[derive(Debug, PartialEq)]
pub enum Token {
    /// A number, kept as it was written.
    Number(String),
    Operator(char),
    Function(String),
    ParenL,
    ParenR,
}

/// What a [`Token`] stands for in contracts.
pub enum TokenView {
    Number(Seq<char>),
    Operator(char),
    Function(Seq<char>),
    ParenL,
    ParenR,
}

impl View for Token {
    type V = TokenView;

    open spec fn view(&self) -> TokenView {
        match self {
            Token::Number(s) => TokenView::Number(s@),
            Token::Operator(c) => TokenView::Operator(*c),
            Token::Function(s) => TokenView::Function(s@),
            Token::ParenL => TokenView::ParenL,
            Token::ParenR => TokenView::ParenR,
        }
    }
}

impl Clone for Token {
    fn clone(&self) -> (r: Self)
        ensures
            r@ == self@,
    {
        match self {
            Token::Number(s) => Token::Number(s.clone()),
            Token::Operator(c) => Token::Operator(*c),
            Token::Function(s) => Token::Function(s.clone()),
            Token::ParenL => Token::ParenL,
            Token::ParenR => Token::ParenR,
        }
    }
}

/// The views of a sequence of tokens.
pub open spec fn token_views(ts: Seq<Token>) -> Seq<TokenView> {
    Seq::new(ts.len(), |i: int| ts[i]@)
}

/// Why an expression could not be read.
#[derive(Clone, Copy, Debug, PartialEq, Eq, Structural)]
pub enum MathError {
    /// A number with no digit or with more than one decimal point.
    InvalidNumber,
    /// A word other than `sin` and `cos`.
    UnknownFunction,
    /// A character that opens no token.
    UnexpectedCharacter,
    /// An operator other than `+ - * /` among the tokens.
    UnknownOperator,
    /// An operator or a function with too few values before it.
    MissingOperand,
    /// A parenthesis left among the tokens in postfix order.
    UnexpectedToken,
    /// Nothing to evaluate.
    NoValue,
}

impl MathError {
    /// The message of the error.
    pub fn message(&self) -> (r: String)
        ensures
            r@ == self.message_text(),
    {
        match self {
            MathError::InvalidNumber => String::from_str("Invalid number"),
            MathError::UnknownFunction => String::from_str("Unknown function"),
            MathError::UnexpectedCharacter => String::from_str("Unexpected character"),
            MathError::UnknownOperator => String::from_str("Unexpected operator"),
            MathError::MissingOperand => String::from_str("Missing operand"),
            MathError::UnexpectedToken => String::from_str("Unexpected token"),
            MathError::NoValue => String::from_str("Nothing to evaluate"),
        }
    }

    pub open spec fn message_text(&self) -> Seq<char> {
        match self {
            MathError::InvalidNumber => "Invalid number"@,
            MathError::UnknownFunction => "Unknown function"@,
            MathError::UnexpectedCharacter => "Unexpected character"@,
            MathError::UnknownOperator => "Unexpected operator"@,
            MathError::MissingOperand => "Missing operand"@,
            MathError::UnexpectedToken => "Unexpected token"@,
            MathError::NoValue => "Nothing to evaluate"@,
        }
    }
}

/// The four binary operations.
#[derive(Clone, Copy, Debug, PartialEq, Eq, Structural)]
pub enum Operation {
    Add,
    Subtract,
    Multiply,
    Divide,
}

/// The functions of one argument; the argument is an angle in degrees.
#[derive(Clone, Copy, Debug, PartialEq, Eq, Structural)]
pub enum Function {
    Sine,
    Cosine,
}

/// An arithmetic expression as a tree.
#[derive(Debug, PartialEq)]
pub enum MathExpr {
    /// A number as it was written: digits with at most one decimal point,
    /// after an optional `-`.
    Number(String),
    Binary(Operation, Box<MathExpr>, Box<MathExpr>),
    Apply(Function, Box<MathExpr>),
}

/// What a [`MathExpr`] stands for in contracts.
pub enum MathExprView {
    Number(Seq<char>),
    Binary(Operation, Box<MathExprView>, Box<MathExprView>),
    Apply(Function, Box<MathExprView>),
}

/// The view of a tree, node by node.
pub open spec fn expr_view(e: MathExpr) -> MathExprView
    decreases e,
{
    match e {
        MathExpr::Number(s) => MathExprView::Number(s@),
        MathExpr::Binary(op, a, b) => MathExprView::Binary(
            op,
            Box::new(expr_view(*a)),
            Box::new(expr_view(*b)),
        ),
        MathExpr::Apply(f, a) => MathExprView::Apply(f, Box::new(expr_view(*a))),
    }
}

impl View for MathExpr {
    type V = MathExprView;

    open spec fn view(&self) -> MathExprView {
        expr_view(*self)
    }
}

impl Clone for MathExpr {
    fn clone(&self) -> (r: Self)
        ensures
            r@ == self@,
        decreases self,
    {
        match self {
            MathExpr::Number(s) => MathExpr::Number(s.clone()),
            MathExpr::Binary(op, a, b) => MathExpr::Binary(
                *op,
                Box::new((**a).clone()),
                Box::new((**b).clone()),
            ),
            MathExpr::Apply(f, a) => MathExpr::Apply(*f, Box::new((**a).clone())),
        }
    }
}

/// The views of a sequence of trees.
pub open spec fn expr_views(es: Seq<MathExpr>) -> Seq<MathExprView> {
    Seq::new(es.len(), |i: int| es[i]@)
}

/// A letter of the grammar: an ASCII letter, or beyond ASCII a character
/// that Unicode calls alphabetic.
pub open spec fn is_letter(c: char) -> bool {
    if (c as u32) < 0x80 {
        is_ascii_letter(c)
    } else {
        unicode_alphabetic(c)
    }
}

pub open spec fn is_ascii_letter(c: char) -> bool {
    ('a' <= c <= 'z') || ('A' <= c <= 'Z')
}

fn ascii_letter(c: char) -> (r: bool)
    ensures
        r == is_ascii_letter(c),
{
    ('a' <= c && c <= 'z') || ('A' <= c && c <= 'Z')
}

fn letter(c: char) -> (r: bool)
    ensures
        r == is_letter(c),
{
    if (c as u32) < 0x80 {
        ascii_letter(c)
    } else {
        alphabetic(c)
    }
}

/// The end of the run of digits and decimal points that starts at `i`.
pub open spec fn number_end(s: Seq<char>, i: int) -> int
    decreases s.len() - i,
{
    if 0 <= i < s.len() && (is_digit(s[i]) || s[i] == '.') {
        number_end(s, i + 1)
    } else {
        i
    }
}

/// The end of the run of letters that starts at `i`.
pub open spec fn word_end(s: Seq<char>, i: int) -> int
    decreases s.len() - i,
{
    if 0 <= i < s.len() && is_letter(s[i]) {
        word_end(s, i + 1)
    } else {
        i
    }
}

/// How many of the first `k` characters of `s` satisfy `pick`.
pub open spec fn count_of(s: Seq<char>, k: int, pick: spec_fn(char) -> bool) -> int
    decreases k,
{
    if k <= 0 || k > s.len() {
        0
    } else {
        count_of(s, k - 1, pick) + if pick(s[k - 1]) {
            1int
        } else {
            0int
        }
    }
}

/// A number without its sign: digits and decimal points only, with at least
/// one digit and at most one point.
pub open spec fn is_unsigned_literal(body: Seq<char>) -> bool {
    &&& (forall|i: int| 0 <= i < body.len() ==> is_digit(#[trigger] body[i]) || body[i] == '.')
    &&& count_of(body, body.len() as int, |c: char| is_digit(c)) >= 1
    &&& count_of(body, body.len() as int, |c: char| c == '.') <= 1
}

/// A number as the grammar writes it: an optional `-`, then digits with at
/// most one decimal point among them.
pub open spec fn is_number_literal(s: Seq<char>) -> bool {
    if s.len() > 0 && s[0] == '-' {
        is_unsigned_literal(s.drop_first())
    } else {
        is_unsigned_literal(s)
    }
}

/// Decides [`is_number_literal`].
pub fn number_literal(v: &Vec<char>) -> (r: bool)
    ensures
        r == is_number_literal(v@),
{
    let start: usize = if v.len() > 0 && v[0] == '-' {
        1
    } else {
        0
    };
    let ghost body = if start == 1 {
        v@.drop_first()
    } else {
        v@
    };
    let ghost is_d = |c: char| is_digit(c);
    let ghost is_p = |c: char| c == '.';
    let mut digits: usize = 0;
    let mut points: usize = 0;
    let mut i: usize = start;
    while i < v.len()
        invariant
            start <= i <= v.len(),
            start <= 1,
            is_number_literal(v@) == is_unsigned_literal(body),
            body.len() == v.len() - start,
            forall|k: int| 0 <= k < body.len() ==> body[k] == v@[k + start],
            forall|k: int| 0 <= k < i - start ==> is_digit(#[trigger] body[k]) || body[k] == '.',
            digits == count_of(body, i - start, is_d),
            points == count_of(body, i - start, is_p),
            digits <= i,
            points <= i,
            is_d == (|c: char| is_digit(c)),
            is_p == (|c: char| c == '.'),
        decreases v.len() - i,
    {
        let c = v[i];
        assert(body[i - start] == c);
        if digit(c) {
            digits += 1;
        } else if c == '.' {
            points += 1;
        } else {
            assert(!(is_digit(body[i - start]) || body[i - start] == '.'));
            return false;
        }
        i += 1;
    }
    digits >= 1 && points <= 1
}

/// Whether a `-` that comes after the tokens `before` is the sign of a number.
pub open spec fn minus_is_sign(before: Seq<TokenView>) -> bool {
    before.len() == 0 || before.last() is Operator || before.last() is ParenL
}

pub open spec fn sine_name() -> Seq<char> {
    seq!['s', 'i', 'n']
}

pub open spec fn cosine_name() -> Seq<char> {
    seq!['c', 'o', 's']
}

/// The tokens of `s` from position `i` on, after the tokens `acc` that were
/// read before it.
pub open spec fn tokens_from(s: Seq<char>, i: int, acc: Seq<TokenView>) -> Result<
    Seq<TokenView>,
    MathError,
>
    decreases s.len() - i,
{
    if i < 0 || i >= s.len() {
        Ok(acc)
    } else {
        let c = s[i];
        if c == ' ' {
            tokens_from(s, i + 1, acc)
        } else if c == '+' || c == '*' || c == '/' {
            tokens_from(s, i + 1, acc.push(TokenView::Operator(c)))
        } else if c == '-' && !minus_is_sign(acc) {
            tokens_from(s, i + 1, acc.push(TokenView::Operator(c)))
        } else if c == '(' {
            tokens_from(s, i + 1, acc.push(TokenView::ParenL))
        } else if c == ')' {
            tokens_from(s, i + 1, acc.push(TokenView::ParenR))
        } else if c == '-' || is_digit(c) {
            let j = number_end(s, i + 1);
            let literal = s.subrange(i, j);
            if i < j <= s.len() && is_number_literal(literal) {
                tokens_from(s, j, acc.push(TokenView::Number(literal)))
            } else {
                Err(MathError::InvalidNumber)
            }
        } else if is_ascii_letter(c) {
            let j = word_end(s, i + 1);
            let word = s.subrange(i, j);
            if i < j <= s.len() && (word == sine_name() || word == cosine_name()) {
                tokens_from(s, j, acc.push(TokenView::Function(word)))
            } else {
                Err(MathError::UnknownFunction)
            }
        } else {
            Err(MathError::UnexpectedCharacter)
        }
    }
}

/// The tokens of an expression, or the first error on the way.
pub open spec fn spec_tokenize(s: Seq<char>) -> Result<Seq<TokenView>, MathError> {
    tokens_from(s, 0, Seq::empty())
}

/// The binding strength of a token: 2 for `*` and `/`, 1 for `+` and `-`,
/// 0 for everything else.
pub open spec fn spec_precedence(t: TokenView) -> nat {
    match t {
        TokenView::Operator(c) => if c == '+' || c == '-' {
            1
        } else if c == '*' || c == '/' {
            2
        } else {
            0
        },
        _ => 0,
    }
}

/// The state of the conversion to postfix order: what has been emitted, and
/// the operators that wait (the last one is on top).
pub struct Shunt {
    pub output: Seq<TokenView>,
    pub waiting: Seq<TokenView>,
}

/// Emits the waiting operators that bind at least as tightly as `level`,
/// from the top down, until one binds less.
pub open spec fn emit_tighter(st: Shunt, level: nat) -> Shunt
    decreases st.waiting.len(),
{
    if st.waiting.len() > 0 && spec_precedence(st.waiting.last()) >= level {
        emit_tighter(
            Shunt { output: st.output.push(st.waiting.last()), waiting: st.waiting.drop_last() },
            level,
        )
    } else {
        st
    }
}

/// Emits the waiting operators down to the nearest opening parenthesis, which
/// is dropped; without one, emits them all.
pub open spec fn emit_to_paren(st: Shunt) -> Shunt
    decreases st.waiting.len(),
{
    if st.waiting.len() == 0 {
        st
    } else if st.waiting.last() is ParenL {
        Shunt { output: st.output, waiting: st.waiting.drop_last() }
    } else {
        emit_to_paren(
            Shunt { output: st.output.push(st.waiting.last()), waiting: st.waiting.drop_last() },
        )
    }
}

/// Emits the function that waits on top, if one does: its argument is complete.
pub open spec fn emit_function(st: Shunt) -> Shunt {
    if st.waiting.len() > 0 && st.waiting.last() is Function {
        Shunt { output: st.output.push(st.waiting.last()), waiting: st.waiting.drop_last() }
    } else {
        st
    }
}

/// Emits every waiting operator, from the top down.
pub open spec fn emit_all(st: Shunt) -> Seq<TokenView>
    decreases st.waiting.len(),
{
    if st.waiting.len() == 0 {
        st.output
    } else {
        emit_all(
            Shunt { output: st.output.push(st.waiting.last()), waiting: st.waiting.drop_last() },
        )
    }
}

/// The state after one more token.
pub open spec fn shunt_step(st: Shunt, t: TokenView) -> Shunt {
    match t {
        TokenView::Number(_) => Shunt { output: st.output.push(t), waiting: st.waiting },
        TokenView::Function(_) => Shunt { output: st.output, waiting: st.waiting.push(t) },
        TokenView::Operator(_) => {
            let e = emit_tighter(st, spec_precedence(t));
            Shunt { output: e.output, waiting: e.waiting.push(t) }
        },
        TokenView::ParenL => Shunt { output: st.output, waiting: st.waiting.push(t) },
        TokenView::ParenR => emit_function(emit_to_paren(st)),
    }
}

/// The state after the first `k` tokens.
pub open spec fn shunt_after(tokens: Seq<TokenView>, k: int) -> Shunt
    decreases k,
{
    if k <= 0 || k > tokens.len() {
        Shunt { output: Seq::empty(), waiting: Seq::empty() }
    } else {
        shunt_step(shunt_after(tokens, k - 1), tokens[k - 1])
    }
}

/// The tokens in postfix order: numbers as they come, each operator after
/// its operands, each function after its argument.
pub open spec fn spec_postfix(tokens: Seq<TokenView>) -> Seq<TokenView> {
    emit_all(shunt_after(tokens, tokens.len() as int))
}

pub open spec fn operation_of(c: char) -> Option<Operation> {
    if c == '+' {
        Some(Operation::Add)
    } else if c == '-' {
        Some(Operation::Subtract)
    } else if c == '*' {
        Some(Operation::Multiply)
    } else if c == '/' {
        Some(Operation::Divide)
    } else {
        None
    }
}

pub open spec fn function_of(name: Seq<char>) -> Option<Function> {
    if name == sine_name() {
        Some(Function::Sine)
    } else if name == cosine_name() {
        Some(Function::Cosine)
    } else {
        None
    }
}

/// The stack of trees after one more token in postfix order, or the error
/// that the token runs into.
pub open spec fn reduce_step(stack: Seq<MathExprView>, t: TokenView) -> Result<
    Seq<MathExprView>,
    MathError,
> {
    match t {
        TokenView::Number(text) => if is_number_literal(text) {
            Ok(stack.push(MathExprView::Number(text)))
        } else {
            Err(MathError::InvalidNumber)
        },
        TokenView::Operator(c) => if stack.len() < 2 {
            Err(MathError::MissingOperand)
        } else {
            match operation_of(c) {
                Some(op) => Ok(
                    stack.take(stack.len() - 2).push(
                        MathExprView::Binary(
                            op,
                            Box::new(stack[stack.len() - 2]),
                            Box::new(stack[stack.len() - 1]),
                        ),
                    ),
                ),
                None => Err(MathError::UnknownOperator),
            }
        },
        TokenView::Function(name) => if stack.len() < 1 {
            Err(MathError::MissingOperand)
        } else {
            match function_of(name) {
                Some(f) => Ok(
                    stack.take(stack.len() - 1).push(
                        MathExprView::Apply(f, Box::new(stack[stack.len() - 1])),
                    ),
                ),
                None => Err(MathError::UnknownFunction),
            }
        },
        _ => Err(MathError::UnexpectedToken),
    }
}

/// The stack of trees after the first `k` tokens in postfix order.
pub open spec fn reduce_after(postfix: Seq<TokenView>, k: int) -> Result<
    Seq<MathExprView>,
    MathError,
>
    decreases k,
{
    if k <= 0 || k > postfix.len() {
        Ok(Seq::empty())
    } else {
        match reduce_after(postfix, k - 1) {
            Ok(stack) => reduce_step(stack, postfix[k - 1]),
            Err(e) => Err(e),
        }
    }
}

/// The tree that tokens in postfix order build: the one on top of the stack
/// when the tokens are used up.
pub open spec fn spec_tree(postfix: Seq<TokenView>) -> Result<MathExprView, MathError> {
    match reduce_after(postfix, postfix.len() as int) {
        Ok(stack) => if stack.len() == 0 {
            Err(MathError::NoValue)
        } else {
            Ok(stack.last())
        },
        Err(e) => Err(e),
    }
}

/// The tree of an expression given as text.
pub open spec fn spec_evaluate(s: Seq<char>) -> Result<MathExprView, MathError> {
    match spec_tokenize(s) {
        Ok(tokens) => spec_tree(spec_postfix(tokens)),
        Err(e) => Err(e),
    }
}

/// The reader of arithmetic expressions.
pub struct MathEvaluator;

impl MathEvaluator {
    /// Reads an expression into its tree.
    pub fn evaluate(expression: &str) -> (r: Result<MathExpr, MathError>)
        ensures
            match r {
                Ok(tree) => spec_evaluate(expression@) == Ok::<MathExprView, MathError>(tree@),
                Err(e) => spec_evaluate(expression@) == Err::<MathExprView, MathError>(e),
            },
    {
        match Self::tokenize(expression) {
            Ok(tokens) => {
                match Self::parse(&tokens) {
                    Ok((postfix, _)) => Self::evaluate_ast(&postfix),
                    Err(e) => Err(e),
                }
            },
            Err(e) => Err(e),
        }
    }

    /// Splits an expression into tokens.
    pub fn tokenize(expression: &str) -> (r: Result<Vec<Token>, MathError>)
        ensures
            match r {
                Ok(tokens) => spec_tokenize(expression@) == Ok::<Seq<TokenView>, MathError>(
                    token_views(tokens@),
                ),
                Err(e) => spec_tokenize(expression@) == Err::<Seq<TokenView>, MathError>(e),
            },
    {
        let s = chars_of(expression);
        let mut tokens: Vec<Token> = Vec::new();
        let mut i: usize = 0;
        assert(token_views(tokens@) == Seq::<TokenView>::empty());
        while i < s.len()
            invariant
                i <= s.len(),
                s@ == expression@,
                tokens_from(s@, i as int, token_views(tokens@)) == spec_tokenize(s@),
            decreases s.len() - i,
        {
            let c = s[i];
            let ghost before = token_views(tokens@);
            if c == ' ' {
                i += 1;
            } else if c == '+' || c == '*' || c == '/' {
                tokens.push(Token::Operator(c));
                assert(token_views(tokens@) == before.push(TokenView::Operator(c)));
                i += 1;
            } else if c == '-' && !Self::sign_comes_next(&tokens) {
                tokens.push(Token::Operator(c));
                assert(token_views(tokens@) == before.push(TokenView::Operator(c)));
                i += 1;
            } else if c == '(' {
                tokens.push(Token::ParenL);
                assert(token_views(tokens@) == before.push(TokenView::ParenL));
                i += 1;
            } else if c == ')' {
                tokens.push(Token::ParenR);
                assert(token_views(tokens@) == before.push(TokenView::ParenR));
                i += 1;
            } else if c == '-' || digit(c) {
                let j = Self::scan_number(&s, i + 1);
                let literal = slice_of(&s, i, j);
                if !number_literal(&literal) {
                    return Err(MathError::InvalidNumber);
                }
                let written = string_of(&literal);
                tokens.push(Token::Number(written));
                assert(token_views(tokens@) == before.push(TokenView::Number(literal@)));
                i = j;
            } else if ascii_letter(c) {
                let j = Self::scan_word(&s, i + 1);
                let word = slice_of(&s, i, j);
                if !(Self::is_sine(&word) || Self::is_cosine(&word)) {
                    return Err(MathError::UnknownFunction);
                }
                let written = string_of(&word);
                tokens.push(Token::Function(written));
                assert(token_views(tokens@) == before.push(TokenView::Function(word@)));
                i = j;
            } else {
                return Err(MathError::UnexpectedCharacter);
            }
        }
        Ok(tokens)
    }

    fn sign_comes_next(tokens: &Vec<Token>) -> (r: bool)
        ensures
            r == minus_is_sign(token_views(tokens@)),
    {
        if tokens.len() == 0 {
            return true;
        }
        assert(token_views(tokens@).last() == tokens@[tokens.len() - 1]@);
        match &tokens[tokens.len() - 1] {
            Token::Operator(_) => true,
            Token::ParenL => true,
            _ => false,
        }
    }

    fn scan_number(s: &Vec<char>, from: usize) -> (j: usize)
        requires
            from <= s.len(),
        ensures
            j == number_end(s@, from as int),
            from <= j <= s.len(),
    {
        let mut j: usize = from;
        while j < s.len() && (digit(s[j]) || s[j] == '.')
            invariant
                from <= j <= s.len(),
                number_end(s@, j as int) == number_end(s@, from as int),
            decreases s.len() - j,
        {
            j += 1;
        }
        j
    }

    fn scan_word(s: &Vec<char>, from: usize) -> (j: usize)
        requires
            from <= s.len(),
        ensures
            j == word_end(s@, from as int),
            from <= j <= s.len(),
    {
        let mut j: usize = from;
        while j < s.len() && letter(s[j])
            invariant
                from <= j <= s.len(),
                word_end(s@, j as int) == word_end(s@, from as int),
            decreases s.len() - j,
        {
            j += 1;
        }
        j
    }

    fn is_sine(word: &Vec<char>) -> (r: bool)
        ensures
            r == (word@ == sine_name()),
    {
        let r = word.len() == 3 && word[0] == 's' && word[1] == 'i' && word[2] == 'n';
        assert(r ==> word@ =~= sine_name());
        assert(!r ==> word@ != sine_name()) by {
            if word@ == sine_name() {
                assert(sine_name()[0] == 's' && sine_name()[1] == 'i' && sine_name()[2] == 'n');
            }
        }
        r
    }

    fn is_cosine(word: &Vec<char>) -> (r: bool)
        ensures
            r == (word@ == cosine_name()),
    {
        let r = word.len() == 3 && word[0] == 'c' && word[1] == 'o' && word[2] == 's';
        assert(r ==> word@ =~= cosine_name());
        assert(!r ==> word@ != cosine_name()) by {
            if word@ == cosine_name() {
                assert(cosine_name()[0] == 'c' && cosine_name()[1] == 'o' && cosine_name()[2]
                    == 's');
            }
        }
        r
    }

    /// Puts tokens in postfix order. The second part of the result is the
    /// number of tokens that were read, which is all of them.
    pub fn parse(tokens: &Vec<Token>) -> (r: Result<(Vec<Token>, usize), MathError>)
        ensures
            r is Ok,
            token_views(r->Ok_0.0@) == spec_postfix(token_views(tokens@)),
            r->Ok_0.1 == tokens.len(),
    {
        let mut output: Vec<Token> = Vec::new();
        let mut operators: Vec<Token> = Vec::new();
        let mut i: usize = 0;
        let ghost all = token_views(tokens@);
        assert(token_views(output@) == Seq::<TokenView>::empty());
        assert(token_views(operators@) == Seq::<TokenView>::empty());
        while i < tokens.len()
            invariant
                i <= tokens.len(),
                all == token_views(tokens@),
                shunt_after(all, i as int) == (Shunt {
                    output: token_views(output@),
                    waiting: token_views(operators@),
                }),
            decreases tokens.len() - i,
        {
            let ghost st = Shunt { output: token_views(output@), waiting: token_views(operators@) };
            let ghost t = all[i as int];
            assert(t == tokens@[i as int]@);
            match &tokens[i] {
                Token::Number(_) => {
                    output.push(tokens[i].clone());
                    assert(token_views(output@) == st.output.push(t));
                },
                Token::Function(_) => {
                    operators.push(tokens[i].clone());
                    assert(token_views(operators@) == st.waiting.push(t));
                },
                Token::Operator(_) => {
                    let level = Self::precedence(&tokens[i]);
                    Self::pop_tighter(&mut output, &mut operators, level);
                    let ghost e = emit_tighter(st, level as nat);
                    operators.push(tokens[i].clone());
                    assert(token_views(operators@) == e.waiting.push(t));
                },
                Token::ParenL => {
                    operators.push(tokens[i].clone());
                    assert(token_views(operators@) == st.waiting.push(t));
                },
                Token::ParenR => {
                    Self::pop_to_paren(&mut output, &mut operators);
                    Self::pop_function(&mut output, &mut operators);
                },
            }
            i += 1;
        }
        Self::pop_all(&mut output, &mut operators);
        Ok((output, i))
    }

    /// Moves the top of `operators` to the end of `output`.
    fn move_top(output: &mut Vec<Token>, operators: &mut Vec<Token>)
        requires
            old(operators).len() > 0,
        ensures
            token_views(final(output)@) == token_views(old(output)@).push(
                token_views(old(operators)@).last(),
            ),
            token_views(final(operators)@) == token_views(old(operators)@).drop_last(),
            final(operators).len() == old(operators).len() - 1,
    {
        let ghost before_out = token_views(output@);
        let ghost before_ops = token_views(operators@);
        let top = operators.pop().unwrap();
        assert(top@ == before_ops.last());
        output.push(top);
        assert(token_views(output@) == before_out.push(before_ops.last()));
        assert(token_views(operators@) == before_ops.drop_last());
    }

    fn pop_tighter(output: &mut Vec<Token>, operators: &mut Vec<Token>, level: usize)
        ensures
            (Shunt {
                output: token_views(final(output)@),
                waiting: token_views(final(operators)@),
            }) == emit_tighter(
                Shunt { output: token_views(old(output)@), waiting: token_views(old(operators)@) },
                level as nat,
            ),
    {
        let ghost start = Shunt {
            output: token_views(output@),
            waiting: token_views(operators@),
        };
        loop
            invariant_except_break
                emit_tighter(
                    Shunt { output: token_views(output@), waiting: token_views(operators@) },
                    level as nat,
                ) == emit_tighter(start, level as nat),
            ensures
                (Shunt { output: token_views(output@), waiting: token_views(operators@) })
                    == emit_tighter(start, level as nat),
            decreases operators.len(),
        {
            if operators.len() == 0 {
                break ;
            }
            assert(token_views(operators@).last() == operators@[operators.len() - 1]@);
            if Self::precedence(&operators[operators.len() - 1]) < level {
                break ;
            }
            Self::move_top(output, operators);
        }
    }

    fn pop_to_paren(output: &mut Vec<Token>, operators: &mut Vec<Token>)
        ensures
            (Shunt {
                output: token_views(final(output)@),
                waiting: token_views(final(operators)@),
            }) == emit_to_paren(
                Shunt { output: token_views(old(output)@), waiting: token_views(old(operators)@) },
            ),
    {
        let ghost start = Shunt {
            output: token_views(output@),
            waiting: token_views(operators@),
        };
        loop
            invariant_except_break
                emit_to_paren(
                    Shunt { output: token_views(output@), waiting: token_views(operators@) },
                ) == emit_to_paren(start),
            ensures
                (Shunt { output: token_views(output@), waiting: token_views(operators@) })
                    == emit_to_paren(start),
            decreases operators.len(),
        {
            if operators.len() == 0 {
                break ;
            }
            assert(token_views(operators@).last() == operators@[operators.len() - 1]@);
            let opening = match &operators[operators.len() - 1] {
                Token::ParenL => true,
                _ => false,
            };
            if opening {
                let ghost before_ops = token_views(operators@);
                operators.pop();
                assert(token_views(operators@) == before_ops.drop_last());
                break ;
            }
            Self::move_top(output, operators);
        }
    }

    fn pop_function(output: &mut Vec<Token>, operators: &mut Vec<Token>)
        ensures
            (Shunt {
                output: token_views(final(output)@),
                waiting: token_views(final(operators)@),
            }) == emit_function(
                Shunt { output: token_views(old(output)@), waiting: token_views(old(operators)@) },
            ),
    {
        if operators.len() == 0 {
            return ;
        }
        assert(token_views(operators@).last() == operators@[operators.len() - 1]@);
        let waits = match &operators[operators.len() - 1] {
            Token::Function(_) => true,
            _ => false,
        };
        if waits {
            Self::move_top(output, operators);
        }
    }

    fn pop_all(output: &mut Vec<Token>, operators: &mut Vec<Token>)
        ensures
            token_views(final(output)@) == emit_all(
                Shunt { output: token_views(old(output)@), waiting: token_views(old(operators)@) },
            ),
    {
        let ghost start = Shunt {
            output: token_views(output@),
            waiting: token_views(operators@),
        };
        while operators.len() > 0
            invariant
                emit_all(Shunt { output: token_views(output@), waiting: token_views(operators@) })
                    == emit_all(start),
            decreases operators.len(),
        {
            Self::move_top(output, operators);
        }
    }

    /// The binding strength of a token.
    pub fn precedence(token: &Token) -> (level: usize)
        ensures
            level == spec_precedence(token@),
    {
        match token {
            Token::Operator(c) => {
                if *c == '+' || *c == '-' {
                    1
                } else if *c == '*' || *c == '/' {
                    2
                } else {
                    0
                }
            },
            _ => 0,
        }
    }

    fn operation(c: char) -> (r: Option<Operation>)
        ensures
            r == operation_of(c),
    {
        if c == '+' {
            Some(Operation::Add)
        } else if c == '-' {
            Some(Operation::Subtract)
        } else if c == '*' {
            Some(Operation::Multiply)
        } else if c == '/' {
            Some(Operation::Divide)
        } else {
            None
        }
    }

    fn function(name: &Vec<char>) -> (r: Option<Function>)
        ensures
            r == function_of(name@),
    {
        if Self::is_sine(name) {
            Some(Function::Sine)
        } else if Self::is_cosine(name) {
            Some(Function::Cosine)
        } else {
            None
        }
    }

    /// Builds the tree of tokens given in postfix order.
    pub fn evaluate_ast(tokens: &Vec<Token>) -> (r: Result<MathExpr, MathError>)
        ensures
            match r {
                Ok(tree) => spec_tree(token_views(tokens@)) == Ok::<MathExprView, MathError>(
                    tree@,
                ),
                Err(e) => spec_tree(token_views(tokens@)) == Err::<MathExprView, MathError>(e),
            },
    {
        let ghost postfix = token_views(tokens@);
        let mut stack: Vec<MathExpr> = Vec::new();
        let mut i: usize = 0;
        assert(expr_views(stack@) == Seq::<MathExprView>::empty());
        while i < tokens.len()
            invariant
                i <= tokens.len(),
                postfix == token_views(tokens@),
                reduce_after(postfix, i as int) == Ok::<Seq<MathExprView>, MathError>(
                    expr_views(stack@),
                ),
            decreases tokens.len() - i,
        {
            let ghost before = expr_views(stack@);
            assert(postfix[i as int] == tokens@[i as int]@);
            match &tokens[i] {
                Token::Number(text) => {
                    let literal = chars_of(text.as_str());
                    if !number_literal(&literal) {
                        proof {
                            lemma_reduce_error_stays(postfix, i + 1, tokens.len() as int);
                        }
                        return Err(MathError::InvalidNumber);
                    }
                    stack.push(MathExpr::Number(text.clone()));
                    assert(expr_views(stack@) == before.push(MathExprView::Number(text@)));
                },
                Token::Operator(c) => {
                    if stack.len() < 2 {
                        proof {
                            lemma_reduce_error_stays(postfix, i + 1, tokens.len() as int);
                        }
                        return Err(MathError::MissingOperand);
                    }
                    let op = match Self::operation(*c) {
                        Some(op) => op,
                        None => {
                            proof {
                            lemma_reduce_error_stays(postfix, i + 1, tokens.len() as int);
                        }
                        return Err(MathError::UnknownOperator);
                        },
                    };
                    let right = stack.pop().unwrap();
                    let left = stack.pop().unwrap();
                    stack.push(MathExpr::Binary(op, Box::new(left), Box::new(right)));
                    assert(expr_views(stack@) == before.take(before.len() - 2).push(
                        MathExprView::Binary(
                            op,
                            Box::new(before[before.len() - 2]),
                            Box::new(before[before.len() - 1]),
                        ),
                    ));
                },
                Token::Function(name) => {
                    if stack.len() < 1 {
                        proof {
                            lemma_reduce_error_stays(postfix, i + 1, tokens.len() as int);
                        }
                        return Err(MathError::MissingOperand);
                    }
                    let word = chars_of(name.as_str());
                    let f = match Self::function(&word) {
                        Some(f) => f,
                        None => {
                            proof {
                            lemma_reduce_error_stays(postfix, i + 1, tokens.len() as int);
                        }
                        return Err(MathError::UnknownFunction);
                        },
                    };
                    let argument = stack.pop().unwrap();
                    stack.push(MathExpr::Apply(f, Box::new(argument)));
                    assert(expr_views(stack@) == before.take(before.len() - 1).push(
                        MathExprView::Apply(f, Box::new(before[before.len() - 1])),
                    ));
                },
                _ => {
                    proof {
                        lemma_reduce_error_stays(postfix, i + 1, tokens.len() as int);
                    }
                    return Err(MathError::UnexpectedToken);
                },
            }
            i += 1;
        }
        match stack.pop() {
            Some(tree) => Ok(tree),
            None => Err(MathError::NoValue),
        }
    }
}

/// Once a token has run into an error, the tokens after it change nothing.
pub proof fn lemma_reduce_error_stays(postfix: Seq<TokenView>, k: int, n: int)
    requires
        0 <= k <= n <= postfix.len(),
        reduce_after(postfix, k) is Err,
    ensures
        reduce_after(postfix, n) == reduce_after(postfix, k),
    decreases n - k,
{
    if k < n {
        lemma_reduce_error_stays(postfix, k, n - 1);
    }
}

} // verus!
