//! Resolving the expression markup of a text against the variable and data
//! tables.
//!
//! `%random` pieces are replaced first, pass after pass, until none is left;
//! then, in this order, `%var`, `%data`, `%math`, `%ai`, `%mouse` and
//! `%game`, each kind pass after pass until the text holds no piece of it.
//! One pass replaces the pieces that the text holds at its start, from left
//! to right. A kind that still has a piece after [`MAX_PASSES`] passes ends
//! the resolution with [`ExprError::Unsettled`].

use vstd::prelude::*;
use vstd::hash_map::StringHashMap;
use rand::Rng;
use crate::text::{
    chars_of, string_of, slice_of, push_range, push_all, trim, parse_i32, decimal_of_i32,
    trimmed, parsed_i32, decimal, decimal_nat, holds_at, is_digit, lemma_decimal_chars,
    lemma_decimal_round_trip,
};
use crate::markup::{
    Markup, Piece, find, first_stop, has_markup, has_piece, lemma_balanced_stop_plain,
    lemma_next_piece_within, lemma_no_percent_no_piece, next_piece, piece_at,
};
use crate::math_evaluator::{MathEvaluator, MathExpr, spec_evaluate};

verus! {

/// The number of passes that one kind of markup is given to settle.
pub const MAX_PASSES: usize = 64;

/// What the resolution needs from the engine around it.
pub trait Numbers {
    /// The value of an arithmetic tree, as text. The resolution puts the
    /// text in the place of the `%math(..)` piece as it is.
    fn number_text(&mut self, tree: &MathExpr) -> String;
}

/// Why a text could not be resolved.
#[derive(Clone, Copy, Debug, PartialEq, Eq, Structural)]
pub enum ExprError {
    /// A bound of `%random` does not resolve to a 32-bit integer.
    InvalidBound,
    /// The bounds of `%random(A,B)` leave no integer between them: `A >= B`.
    EmptyRange,
    /// Pieces of one kind kept coming back for [`MAX_PASSES`] passes.
    Unsettled,
}

impl ExprError {
    pub open spec fn message_text(&self) -> Seq<char> {
        match self {
            ExprError::InvalidBound => "Random bound is not an integer"@,
            ExprError::EmptyRange => "Random range is empty"@,
            ExprError::Unsettled => "Expression does not settle"@,
        }
    }

    /// The message of the error.
    pub fn message(&self) -> (r: String)
        ensures
            r@ == self.message_text(),
    {
        match self {
            ExprError::InvalidBound => String::from_str("Random bound is not an integer"),
            ExprError::EmptyRange => String::from_str("Random range is empty"),
            ExprError::Unsettled => String::from_str("Expression does not settle"),
        }
    }
}

/// Calls `rand::thread_rng().gen_range(low..high)`: an integer of the
/// half-open range, whichever the generator picks.
#[verifier::external_body]
fn random_between(low: i32, high: i32) -> (r: i32)
    requires
        low < high,
    ensures
        low <= r < high,
{
    rand::thread_rng().gen_range(low..high)
}

/// A table of names and texts as contracts speak of it.
pub open spec fn table(m: Map<Seq<char>, String>) -> Map<Seq<char>, Seq<char>> {
    m.map_values(|s: String| s@)
}

/// [`table`] after one more entry.
pub proof fn lemma_table_insert(m: Map<Seq<char>, String>, key: Seq<char>, value: String)
    ensures
        table(m.insert(key, value)) == table(m).insert(key, value@),
{
    assert(table(m.insert(key, value)) =~= table(m).insert(key, value@));
}

/// The text that stands for a name that a table does not hold.
pub open spec fn missing(label: Seq<char>, name: Seq<char>) -> Seq<char> {
    label + name + "' not found."@
}

/// What one piece is replaced by, for the kinds whose replacement the
/// tables decide: the value of the name in `%var` and `%data` (or the text
/// that says it is missing), `0` for `%ai`, and a fixed text for `%mouse`
/// and `%game`, which are not implemented.
pub open spec fn replacement(
    kind: Markup,
    content: Seq<char>,
    variables: Map<Seq<char>, Seq<char>>,
    data_values: Map<Seq<char>, Seq<char>>,
) -> Seq<char> {
    match kind {
        Markup::Var => if variables.contains_key(content) {
            variables[content]
        } else {
            missing("Variable '"@, content)
        },
        Markup::Data => if data_values.contains_key(content) {
            data_values[content]
        } else {
            missing("Data Value '"@, content)
        },
        Markup::Ai => "0"@,
        Markup::Mouse => "Mouse expressions are not implemented"@,
        Markup::Game => "Game expressions are not implemented"@,
        _ => content,
    }
}

/// Whether the tables alone decide what a piece of this kind is replaced by.
pub open spec fn tables_decide(kind: Markup) -> bool {
    kind != Markup::Random && kind != Markup::Math
}

/// The text from position `from` on after one pass over the pieces of `kind`.
pub open spec fn pass_from(
    text: Seq<char>,
    kind: Markup,
    from: int,
    variables: Map<Seq<char>, Seq<char>>,
    data_values: Map<Seq<char>, Seq<char>>,
) -> Seq<char>
    decreases text.len() - from,
{
    match next_piece(text, kind, from) {
        Some(p) => if from <= p.start && from < p.end <= text.len() {
            text.subrange(from, p.start) + replacement(
                kind,
                p.first(text),
                variables,
                data_values,
            ) + pass_from(text, kind, p.end, variables, data_values)
        } else {
            text.subrange(from, text.len() as int)
        },
        None => text.subrange(from, text.len() as int),
    }
}

/// The text once it holds no piece of `kind`, within `passes` passes;
/// `None` when that many passes do not suffice.
pub open spec fn settled(
    text: Seq<char>,
    kind: Markup,
    passes: nat,
    variables: Map<Seq<char>, Seq<char>>,
    data_values: Map<Seq<char>, Seq<char>>,
) -> Option<Seq<char>>
    decreases passes,
{
    if !has_piece(text, kind) {
        Some(text)
    } else if passes == 0 {
        None
    } else {
        settled(
            pass_from(text, kind, 0, variables, data_values),
            kind,
            (passes - 1) as nat,
            variables,
            data_values,
        )
    }
}

/// [`settled`] on a text that an earlier kind has left, if it left one.
pub open spec fn then_settled(
    text: Option<Seq<char>>,
    kind: Markup,
    variables: Map<Seq<char>, Seq<char>>,
    data_values: Map<Seq<char>, Seq<char>>,
) -> Option<Seq<char>> {
    match text {
        Some(t) => settled(t, kind, MAX_PASSES as nat, variables, data_values),
        None => None,
    }
}

/// The text once `%var` and then `%data` have settled.
pub open spec fn names_settled(
    text: Seq<char>,
    variables: Map<Seq<char>, Seq<char>>,
    data_values: Map<Seq<char>, Seq<char>>,
) -> Option<Seq<char>> {
    then_settled(
        settled(text, Markup::Var, MAX_PASSES as nat, variables, data_values),
        Markup::Data,
        variables,
        data_values,
    )
}

/// Whether the tables alone decide what the text resolves to: it holds no
/// `%random` piece, and none of `%math` once `%var` and `%data` have settled.
pub open spec fn is_plain(
    text: Seq<char>,
    variables: Map<Seq<char>, Seq<char>>,
    data_values: Map<Seq<char>, Seq<char>>,
) -> bool {
    &&& !has_piece(text, Markup::Random)
    &&& match names_settled(text, variables, data_values) {
        Some(t) => !has_piece(t, Markup::Math),
        None => true,
    }
}

/// What a plain text resolves to: `%var`, `%data`, `%ai`, `%mouse` and
/// `%game` settled in this order; `None` when one of them does not settle.
pub open spec fn resolved_plain(
    text: Seq<char>,
    variables: Map<Seq<char>, Seq<char>>,
    data_values: Map<Seq<char>, Seq<char>>,
) -> Option<Seq<char>> {
    then_settled(
        then_settled(
            then_settled(names_settled(text, variables, data_values), Markup::Ai, variables, data_values),
            Markup::Mouse,
            variables,
            data_values,
        ),
        Markup::Game,
        variables,
        data_values,
    )
}

/// The result that [`resolved_plain`] stands for.
pub open spec fn plain_outcome(
    text: Seq<char>,
    variables: Map<Seq<char>, Seq<char>>,
    data_values: Map<Seq<char>, Seq<char>>,
) -> Result<Seq<char>, ExprError> {
    match resolved_plain(text, variables, data_values) {
        Some(t) => Ok(t),
        None => Err(ExprError::Unsettled),
    }
}

/// One `%math` piece that the resolution came to: its content, the text
/// that took its place, and the engine before and after.
pub struct Told<C> {
    pub content: Seq<char>,
    pub answer: Seq<char>,
    pub engine_before: C,
    pub engine_after: C,
}

/// The contents of the pieces, in the order in which the resolution came to them.
pub open spec fn told_contents<C>(told: Seq<Told<C>>) -> Seq<Seq<char>> {
    Seq::new(told.len(), |i: int| told[i].content)
}

/// The texts that took the places of the pieces, in the same order.
pub open spec fn told_answers<C>(told: Seq<Told<C>>) -> Seq<Seq<char>> {
    Seq::new(told.len(), |i: int| told[i].answer)
}

/// Whether the pieces follow one another from `engine` to `engine_end`:
/// the engine is handed from each piece to the next. Without a piece the
/// two are the same.
pub open spec fn told_chained<C>(told: Seq<Told<C>>, engine: C, engine_end: C) -> bool {
    if told.len() == 0 {
        engine_end == engine
    } else {
        &&& told[0].engine_before == engine
        &&& told.last().engine_after == engine_end
        &&& (forall|i: int|
            0 < i < told.len() ==> (#[trigger] told[i]).engine_before == told[i - 1].engine_after)
    }
}

/// Pieces that end where other pieces start make one chain with them.
pub proof fn lemma_told_concat<C>(
    first: Seq<Told<C>>,
    second: Seq<Told<C>>,
    engine: C,
    engine_between: C,
    engine_end: C,
)
    requires
        told_chained(first, engine, engine_between),
        told_chained(second, engine_between, engine_end),
    ensures
        told_chained(first + second, engine, engine_end),
        told_contents(first + second) == told_contents(first) + told_contents(second),
        told_answers(first + second) == told_answers(first) + told_answers(second),
{
    let joined = first + second;
    assert(told_contents(joined) =~= told_contents(first) + told_contents(second));
    assert(told_answers(joined) =~= told_answers(first) + told_answers(second));
    if first.len() == 0 {
        assert(joined =~= second);
    } else if second.len() == 0 {
        assert(joined =~= first);
    } else {
        assert(joined[0] == first[0]);
        assert(joined.last() == second.last());
        assert forall|i: int| 0 < i < joined.len() implies (#[trigger] joined[i]).engine_before
            == joined[i - 1].engine_after by {
            if i < first.len() {
                assert(joined[i] == first[i] && joined[i - 1] == first[i - 1]);
            } else if i == first.len() {
                assert(joined[i] == second[0] && joined[i - 1] == first.last());
            } else {
                assert(joined[i] == second[i - first.len()] && joined[i - 1] == second[i
                    - first.len() - 1]);
            }
        }
    }
}

/// The contents of the `%math` pieces of a text from position `from` on, in
/// their order.
pub open spec fn math_contents(text: Seq<char>, from: int) -> Seq<Seq<char>>
    decreases text.len() - from,
{
    match next_piece(text, Markup::Math, from) {
        Some(p) => if from <= p.start && from < p.end <= text.len() {
            seq![p.first(text)] + math_contents(text, p.end)
        } else {
            Seq::empty()
        },
        None => Seq::empty(),
    }
}

/// The text from position `from` on after one pass over its `%math`
/// pieces, in which the pieces make way for `answers`, one each and in
/// their order.
pub open spec fn math_pass(text: Seq<char>, from: int, answers: Seq<Seq<char>>) -> Seq<char>
    decreases text.len() - from,
{
    match next_piece(text, Markup::Math, from) {
        Some(p) => if from <= p.start && from < p.end <= text.len() && answers.len() > 0 {
            text.subrange(from, p.start) + answers[0] + math_pass(
                text,
                p.end,
                answers.drop_first(),
            )
        } else {
            text.subrange(from, text.len() as int)
        },
        None => text.subrange(from, text.len() as int),
    }
}

/// The text once it holds no `%math` piece, within `passes` passes in which
/// the pieces make way for `answers`, pass after pass; `None` when that many
/// passes do not suffice.
pub open spec fn math_settled(text: Seq<char>, answers: Seq<Seq<char>>, passes: nat) -> Option<
    Seq<char>,
>
    decreases passes,
{
    if !has_piece(text, Markup::Math) {
        Some(text)
    } else if passes == 0 {
        None
    } else {
        let pieces = math_contents(text, 0).len() as int;
        math_settled(
            math_pass(text, 0, answers.take(pieces)),
            answers.skip(pieces),
            (passes - 1) as nat,
        )
    }
}

/// The contents of the `%math` pieces that those passes come to, pass after
/// pass.
pub open spec fn math_asked(text: Seq<char>, answers: Seq<Seq<char>>, passes: nat) -> Seq<
    Seq<char>,
>
    decreases passes,
{
    if !has_piece(text, Markup::Math) || passes == 0 {
        Seq::empty()
    } else {
        let pieces = math_contents(text, 0).len() as int;
        math_contents(text, 0) + math_asked(
            math_pass(text, 0, answers.take(pieces)),
            answers.skip(pieces),
            (passes - 1) as nat,
        )
    }
}

/// What a text without `%random` resolves to when its `%math` pieces make
/// way for `answers`: `%var` and `%data` settle by the tables, then `%math`
/// by the answers, then `%ai`, `%mouse` and `%game`.
pub open spec fn resolved_with(
    text: Seq<char>,
    variables: Map<Seq<char>, Seq<char>>,
    data_values: Map<Seq<char>, Seq<char>>,
    answers: Seq<Seq<char>>,
) -> Result<Seq<char>, ExprError> {
    let after_math = match names_settled(text, variables, data_values) {
        Some(t) => math_settled(t, answers, MAX_PASSES as nat),
        None => None,
    };
    match then_settled(
        then_settled(
            then_settled(after_math, Markup::Ai, variables, data_values),
            Markup::Mouse,
            variables,
            data_values,
        ),
        Markup::Game,
        variables,
        data_values,
    ) {
        Some(t) => Ok(t),
        None => Err(ExprError::Unsettled),
    }
}

/// The contents of the `%math` pieces that this resolution comes to, in
/// their order: those of the text once `%var` and `%data` have settled, and
/// those that the answers bring.
pub open spec fn asked_with(
    text: Seq<char>,
    variables: Map<Seq<char>, Seq<char>>,
    data_values: Map<Seq<char>, Seq<char>>,
    answers: Seq<Seq<char>>,
) -> Seq<Seq<char>> {
    match names_settled(text, variables, data_values) {
        Some(t) => math_asked(t, answers, MAX_PASSES as nat),
        None => Seq::empty(),
    }
}

/// Whether `outcome` is what the text `text`, which holds no `%random`,
/// resolves to with the `%math` pieces in `told`: the pieces are those that
/// the resolution comes to, the outcome is the one that their answers give,
/// and the engine goes from `before` to `after` through them.
pub open spec fn math_resolved<C>(
    text: Seq<char>,
    variables: Map<Seq<char>, Seq<char>>,
    data_values: Map<Seq<char>, Seq<char>>,
    told: Seq<Told<C>>,
    before: C,
    after: C,
    outcome: Result<Seq<char>, ExprError>,
) -> bool {
    &&& told_contents(told) == asked_with(text, variables, data_values, told_answers(told))
    &&& outcome == resolved_with(text, variables, data_values, told_answers(told))
    &&& told_chained(told, before, after)
}

/// What happened while a text was resolved.
pub struct Resolution<C> {
    /// The text after the first pass over its `%random` pieces; the text
    /// itself when it holds none.
    pub drawn: Seq<char>,
    /// The `%math` pieces that the resolution came to once no `%random`
    /// piece was left, in their order.
    pub told: Seq<Told<C>>,
}

/// The integer that a bound of `%random` stands for when it is written as
/// an integer, with white space around it at most: a text with markup in it
/// stands for none here.
pub open spec fn literal_bound(written: Seq<char>) -> Option<int> {
    if has_markup(written) {
        None
    } else {
        parsed_i32(trimmed(written))
    }
}

/// The integer that a bound of `%random` stands for when the tables alone
/// decide what it resolves to: the integer that the resolved text holds,
/// with white space around it at most.
pub open spec fn plain_bound(
    written: Seq<char>,
    variables: Map<Seq<char>, Seq<char>>,
    data_values: Map<Seq<char>, Seq<char>>,
) -> Option<int> {
    if is_plain(written, variables, data_values) {
        match resolved_plain(written, variables, data_values) {
            Some(resolved) => parsed_i32(trimmed(resolved)),
            None => None,
        }
    } else {
        None
    }
}

/// Whether the tables alone resolve the bounds of a `%random` piece to
/// integers, the first below the second.
pub open spec fn bounds_are_simple(
    text: Seq<char>,
    piece: Piece,
    variables: Map<Seq<char>, Seq<char>>,
    data_values: Map<Seq<char>, Seq<char>>,
) -> bool {
    &&& plain_bound(piece.first(text), variables, data_values) matches Some(low)
    &&& plain_bound(piece.second(text), variables, data_values) matches Some(high)
    &&& low < high
}

/// Whether `n` lies within the bounds of a `%random` piece that the tables
/// alone resolve to integers: from the first up to, not including, the
/// second.
pub open spec fn within_bounds(
    text: Seq<char>,
    piece: Piece,
    n: int,
    variables: Map<Seq<char>, Seq<char>>,
    data_values: Map<Seq<char>, Seq<char>>,
) -> bool {
    &&& plain_bound(piece.first(text), variables, data_values) matches Some(low)
    &&& plain_bound(piece.second(text), variables, data_values) matches Some(high)
    &&& low <= n < high
}

/// Whether every `%random` piece of the text from `from` on has bounds that
/// the tables alone resolve to integers, the first below the second.
pub open spec fn random_is_simple(
    text: Seq<char>,
    from: int,
    variables: Map<Seq<char>, Seq<char>>,
    data_values: Map<Seq<char>, Seq<char>>,
) -> bool
    decreases text.len() - from,
{
    match next_piece(text, Markup::Random, from) {
        None => true,
        Some(p) => {
            &&& from <= p.start && from < p.end <= text.len()
            &&& bounds_are_simple(text, p, variables, data_values)
            &&& random_is_simple(text, p.end, variables, data_values)
        },
    }
}

/// How far a pass over the `%random` pieces has come, and what it has written.
pub struct Drawn {
    pub at: int,
    pub out: Seq<char>,
}

/// The pass over the `%random` pieces after the first pieces of the text
/// have made way for the integers `draws`, one each and in their order;
/// `None` when the text has fewer pieces, or when a draw lies outside the
/// bounds of its piece.
pub open spec fn drawn_so_far(
    text: Seq<char>,
    draws: Seq<int>,
    variables: Map<Seq<char>, Seq<char>>,
    data_values: Map<Seq<char>, Seq<char>>,
) -> Option<Drawn>
    decreases draws.len(),
{
    if draws.len() == 0 {
        Some(Drawn { at: 0, out: Seq::empty() })
    } else {
        match drawn_so_far(text, draws.drop_last(), variables, data_values) {
            Some(before) => match next_piece(text, Markup::Random, before.at) {
                Some(p) => if before.at <= p.start && before.at < p.end <= text.len()
                    && within_bounds(text, p, draws.last(), variables, data_values) {
                    Some(
                        Drawn {
                            at: p.end,
                            out: before.out + text.subrange(before.at, p.start) + decimal(
                                draws.last(),
                            ),
                        },
                    )
                } else {
                    None
                },
                None => None,
            },
            None => None,
        }
    }
}

/// Whether `out` is the text after one pass over its `%random` pieces with
/// the draws `draws`: each piece has made way for the decimal text of its
/// draw, an integer within its bounds.
pub open spec fn random_drawn(
    text: Seq<char>,
    draws: Seq<int>,
    out: Seq<char>,
    variables: Map<Seq<char>, Seq<char>>,
    data_values: Map<Seq<char>, Seq<char>>,
) -> bool {
    match drawn_so_far(text, draws, variables, data_values) {
        Some(drawn) => 0 <= drawn.at <= text.len() && next_piece(text, Markup::Random, drawn.at)
            is None && out == drawn.out + text.subrange(drawn.at, text.len() as int),
        None => false,
    }
}

/// Whether `out` is the text after one pass over its `%random` pieces: each
/// piece has made way for the decimal text of an integer within its bounds.
pub open spec fn random_replaced(
    text: Seq<char>,
    out: Seq<char>,
    variables: Map<Seq<char>, Seq<char>>,
    data_values: Map<Seq<char>, Seq<char>>,
) -> bool {
    exists|draws: Seq<int>| random_drawn(text, draws, out, variables, data_values)
}

/// Whether `outcome` is what `text` resolves to by way of `drawn` and
/// `told`: `drawn` is the text after one pass over its `%random` pieces,
/// each replaced by an integer within its bounds, and where `drawn` holds
/// no `%random` piece any more, `outcome` is what `drawn` resolves to with
/// the `%math` pieces in `told`, the engine going from `before` to `after`
/// through them.
pub open spec fn resolution<C>(
    text: Seq<char>,
    variables: Map<Seq<char>, Seq<char>>,
    data_values: Map<Seq<char>, Seq<char>>,
    drawn: Seq<char>,
    told: Seq<Told<C>>,
    before: C,
    after: C,
    outcome: Result<Seq<char>, ExprError>,
) -> bool {
    &&& random_replaced(text, drawn, variables, data_values)
    &&& !has_piece(drawn, Markup::Random) ==> math_resolved(
        drawn,
        variables,
        data_values,
        told,
        before,
        after,
        outcome,
    )
}

/// The view of a result of the resolution.
pub open spec fn outcome_view(r: Result<Vec<char>, ExprError>) -> Result<Seq<char>, ExprError> {
    match r {
        Ok(v) => Ok(v@),
        Err(e) => Err(e),
    }
}

/// The text that `get_expr` gives for a result: the resolved text, or
/// `Error: ` and the message of the error.
pub open spec fn shown(r: Result<Seq<char>, ExprError>) -> Seq<char> {
    match r {
        Ok(t) => t,
        Err(e) => "Error: "@ + e.message_text(),
    }
}

/// Resolving is idempotent on resolved text: a text without markup resolves
/// to itself.
pub proof fn law_text_without_markup_resolves_to_itself(
    text: Seq<char>,
    variables: Map<Seq<char>, Seq<char>>,
    data_values: Map<Seq<char>, Seq<char>>,
)
    requires
        !has_markup(text),
    ensures
        is_plain(text, variables, data_values),
        resolved_plain(text, variables, data_values) == Some(text),
{
}

/// Whether the text holds the character.
pub open spec fn holds_char(text: Seq<char>, c: char) -> bool {
    exists|i: int| 0 <= i < text.len() && text[i] == c
}

/// A text in which no piece of the kind starts at or after `from` holds no
/// piece of the kind from there on.
pub proof fn lemma_no_piece_from(text: Seq<char>, kind: Markup, from: int)
    requires
        forall|at: int| from <= at < text.len() ==> piece_at(text, kind, at) is None,
    ensures
        next_piece(text, kind, from) is None,
    decreases text.len() - from,
{
    if 0 <= from < text.len() {
        lemma_no_piece_from(text, kind, from + 1);
    }
}

/// The leftmost piece at or after `from` is the piece at `at` when no piece
/// starts between the two.
pub proof fn lemma_first_piece_at(text: Seq<char>, kind: Markup, from: int, at: int)
    requires
        0 <= from <= at < text.len(),
        piece_at(text, kind, at) is Some,
        forall|k: int| from <= k < at ==> piece_at(text, kind, k) is None,
    ensures
        next_piece(text, kind, from) == piece_at(text, kind, at),
    decreases at - from,
{
    if from < at {
        lemma_first_piece_at(text, kind, from + 1, at);
    }
}

/// A search for `stop` runs over characters that are neither `stop` nor the bar.
pub proof fn lemma_first_stop_after(text: Seq<char>, from: int, to: int, stop: char, bar: char)
    requires
        0 <= from <= to < text.len(),
        text[to] == stop,
        forall|i: int| from <= i < to ==> text[i] != stop && text[i] != bar,
    ensures
        first_stop(text, from, stop, Some(bar)) == Some(to),
    decreases to - from,
{
    if from < to {
        lemma_first_stop_after(text, from + 1, to, stop, bar);
    }
}

/// The places of a text that is put together from five parts.
pub proof fn lemma_five_parts(
    a: Seq<char>,
    b: Seq<char>,
    c: Seq<char>,
    d: Seq<char>,
    e: Seq<char>,
)
    ensures
        ({
            let t = a + b + c + d + e;
            let i1 = a.len() as int;
            let i2 = i1 + b.len();
            let i3 = i2 + c.len();
            let i4 = i3 + d.len();
            &&& t.len() == i4 + e.len()
            &&& t.subrange(0, i1) == a
            &&& t.subrange(i1, i2) == b
            &&& t.subrange(i2, i3) == c
            &&& t.subrange(i3, i4) == d
            &&& t.subrange(i4, t.len() as int) == e
        }),
{
    let t = a + b + c + d + e;
    let i1 = a.len() as int;
    let i2 = i1 + b.len();
    let i3 = i2 + c.len();
    let i4 = i3 + d.len();
    assert(t.subrange(0, i1) =~= a);
    assert(t.subrange(i1, i2) =~= b);
    assert(t.subrange(i2, i3) =~= c);
    assert(t.subrange(i3, i4) =~= d);
    assert(t.subrange(i4, t.len() as int) =~= e);
}

/// A part of a text holds the characters of the text at its places.
pub proof fn lemma_part_holds(text: Seq<char>, from: int, to: int, c: char)
    requires
        0 <= from <= to <= text.len(),
        !holds_char(text.subrange(from, to), c),
    ensures
        forall|i: int| from <= i < to ==> text[i] != c,
{
    assert forall|i: int| from <= i < to implies text[i] != c by {
        assert(text.subrange(from, to)[i - from] == text[i]);
    }
}

/// In a text whose only `%` opens `%v..`, no markup but `%var` has a piece.
pub proof fn lemma_other_kinds_absent(text: Seq<char>, start: int, kind: Markup)
    requires
        kind != Markup::Var,
        0 <= start,
        start + 1 < text.len(),
        text[start + 1] == 'v',
        forall|i: int| 0 <= i < text.len() && text[i] == '%' ==> i == start,
    ensures
        !has_piece(text, kind),
{
    assert forall|at: int| 0 <= at < text.len() implies piece_at(text, kind, at) is None by {
        if holds_at(text, at, kind.opening()) {
            let word = text.subrange(at, at + kind.opening().len());
            assert(word[0] == kind.opening()[0]);
            assert(text[at] == '%');
            assert(word[1] == kind.opening()[1]);
            assert(text[at + 1] == 'v');
        }
    }
    lemma_no_piece_from(text, kind, 0);
}

/// In a text whose only `%` opens `%var(`, with the first `)` after it at
/// `close` and no line feed before that, the one piece of `%var` runs from
/// the `%` to `close`.
pub proof fn lemma_lone_var_piece(text: Seq<char>, start: int, close: int)
    requires
        0 <= start,
        start + 5 <= close < text.len(),
        holds_at(text, start, Markup::Var.opening()),
        text[close] == ')',
        forall|i: int| start + 5 <= i < close ==> text[i] != ')' && text[i] != '\n',
        forall|i: int| 0 <= i < text.len() && text[i] == '%' ==> i == start,
    ensures
        next_piece(text, Markup::Var, 0) == Some(
            Piece {
                start,
                first_from: start + 5,
                first_to: close,
                second_from: close,
                second_to: close,
                end: close + 1,
            },
        ),
        next_piece(text, Markup::Var, close + 1) is None,
{
    let opening = Markup::Var.opening();
    assert(opening.len() == 5);
    lemma_first_stop_after(text, start + 5, close, ')', '\n');
    assert forall|k: int| 0 <= k < text.len() && k != start implies piece_at(text, Markup::Var, k)
        is None by {
        if holds_at(text, k, opening) {
            assert(text.subrange(k, k + 5)[0] == opening[0]);
        }
    }
    lemma_first_piece_at(text, Markup::Var, 0, start);
    lemma_no_piece_from(text, Markup::Var, close + 1);
}

/// The text that stands for a missing variable holds no `%` unless the name does.
pub proof fn lemma_missing_has_no_percent(name: Seq<char>)
    requires
        !holds_char(name, '%'),
    ensures
        !holds_char(missing("Variable '"@, name), '%'),
{
    reveal_strlit("Variable '");
    reveal_strlit("' not found.");
    let label = "Variable '"@;
    let tail = "' not found."@;
    let put = missing(label, name);
    assert forall|i: int| 0 <= i < put.len() implies put[i] != '%' by {
        if i < 10 {
            assert(put[i] == label[i]);
        } else if i < 10 + name.len() {
            assert(put[i] == name[i - 10]);
        } else {
            assert(put[i] == tail[i - 10 - name.len()]);
        }
    }
}

/// A text put together from three parts without a character does not hold it.
pub proof fn lemma_three_parts_without(a: Seq<char>, b: Seq<char>, c: Seq<char>, x: char)
    requires
        !holds_char(a, x),
        !holds_char(b, x),
        !holds_char(c, x),
    ensures
        forall|i: int| 0 <= i < (a + b + c).len() ==> (a + b + c)[i] != x,
{
    let t = a + b + c;
    assert forall|i: int| 0 <= i < t.len() implies t[i] != x by {
        if i < a.len() {
            assert(t[i] == a[i]);
        } else if i < a.len() + b.len() {
            assert(t[i] == b[i - a.len()]);
        } else {
            assert(t[i] == c[i - a.len() - b.len()]);
        }
    }
}

/// A text without `%` is settled for every kind of markup.
pub proof fn lemma_settled_without_percent(
    text: Seq<char>,
    variables: Map<Seq<char>, Seq<char>>,
    data_values: Map<Seq<char>, Seq<char>>,
)
    requires
        forall|i: int| 0 <= i < text.len() ==> text[i] != '%',
    ensures
        !has_markup(text),
        forall|kind: Markup, passes: nat| #[trigger]
            settled(text, kind, passes, variables, data_values) == Some(text),
{
    assert forall|kind: Markup| !#[trigger] has_piece(text, kind) by {
        lemma_no_percent_no_piece(text, kind, 0);
    }
}

/// An unresolved variable yields an inline error: a text whose only markup
/// is `%var(..)` with a name that is no variable resolves to the text with
/// `Variable '..' not found.` in the place of the markup.
#[verifier::rlimit(80)]
#[verifier::spinoff_prover]
pub proof fn law_unresolved_variable_yields_inline_error(
    before: Seq<char>,
    name: Seq<char>,
    after: Seq<char>,
    variables: Map<Seq<char>, Seq<char>>,
    data_values: Map<Seq<char>, Seq<char>>,
)
    requires
        !holds_char(before, '%'),
        !holds_char(after, '%'),
        !holds_char(name, '%'),
        !holds_char(name, ')'),
        !holds_char(name, '\n'),
        !variables.contains_key(name),
    ensures
        is_plain(before + Markup::Var.opening() + name + seq![')'] + after, variables, data_values),
        plain_outcome(
            before + Markup::Var.opening() + name + seq![')'] + after,
            variables,
            data_values,
        ) == Ok::<Seq<char>, ExprError>(before + missing("Variable '"@, name) + after),
{
    let opening = Markup::Var.opening();
    let text = before + opening + name + seq![')'] + after;
    let start = before.len() as int;
    let close = start + 5 + name.len();
    let put = missing("Variable '"@, name);
    let result = before + put + after;
    lemma_five_parts(before, opening, name, seq![')'], after);
    assert(opening.len() == 5);
    lemma_part_holds(text, 0, start, '%');
    lemma_part_holds(text, start + 5, close, '%');
    lemma_part_holds(text, start + 5, close, ')');
    lemma_part_holds(text, start + 5, close, '\n');
    lemma_part_holds(text, close + 1, text.len() as int, '%');
    assert(text[close] == ')') by {
        assert(text.subrange(close, close + 1)[0] == text[close]);
    }
    assert forall|i: int| start <= i < start + 5 implies text[i] == #[trigger] opening[i - start] by {
        assert(text.subrange(start, start + 5)[i - start] == text[i]);
    }
    assert(text[start + 1] == opening[1]);
    assert(text[start + 2] == opening[2]);
    assert(text[start + 3] == opening[3]);
    assert(text[start + 4] == opening[4]);
    assert forall|i: int| 0 <= i < text.len() && text[i] == '%' implies i == start by {}
    lemma_other_kinds_absent(text, start, Markup::Random);
    lemma_other_kinds_absent(text, start, Markup::Data);
    lemma_other_kinds_absent(text, start, Markup::Math);
    lemma_lone_var_piece(text, start, close);
    lemma_missing_has_no_percent(name);
    lemma_three_parts_without(before, put, after, '%');
    lemma_settled_without_percent(result, variables, data_values);
    let passed = pass_from(text, Markup::Var, 0, variables, data_values);
    assert(passed == result) by {
        let piece = next_piece(text, Markup::Var, 0)->Some_0;
        assert(piece.first(text) == name);
        assert(pass_from(text, Markup::Var, close + 1, variables, data_values) == after);
    }
    assert(settled(text, Markup::Var, MAX_PASSES as nat, variables, data_values) == settled(
        passed,
        Markup::Var,
        (MAX_PASSES - 1) as nat,
        variables,
        data_values,
    ));
    assert(settled(result, Markup::Var, (MAX_PASSES - 1) as nat, variables, data_values) == Some(
        result,
    ));
    assert(settled(result, Markup::Data, MAX_PASSES as nat, variables, data_values) == Some(result));
    assert(settled(result, Markup::Ai, MAX_PASSES as nat, variables, data_values) == Some(result));
    assert(settled(result, Markup::Mouse, MAX_PASSES as nat, variables, data_values) == Some(
        result,
    ));
    assert(settled(result, Markup::Game, MAX_PASSES as nat, variables, data_values) == Some(result));
    assert(names_settled(text, variables, data_values) == Some(result));
}

/// A bound written as an integer is one that the tables resolve to that
/// integer, whatever they hold.
pub proof fn lemma_literal_bound_is_plain(
    written: Seq<char>,
    variables: Map<Seq<char>, Seq<char>>,
    data_values: Map<Seq<char>, Seq<char>>,
)
    requires
        literal_bound(written) is Some,
    ensures
        plain_bound(written, variables, data_values) == literal_bound(written),
{
    law_text_without_markup_resolves_to_itself(written, variables, data_values);
}

/// The decimal text of a 32-bit integer is a bound written as an integer.
pub proof fn lemma_decimal_is_a_literal_bound(n: int)
    requires
        i32::MIN <= n <= i32::MAX,
    ensures
        literal_bound(decimal(n)) == Some(n),
        forall|i: int|
            0 <= i < decimal(n).len() ==> (#[trigger] decimal(n)[i]) != '%' && decimal(n)[i] != ','
                && decimal(n)[i] != ')' && decimal(n)[i] != '(',
{
    lemma_decimal_chars(n);
    lemma_decimal_round_trip(n);
    assert forall|i: int| 0 <= i < decimal(n).len() implies (#[trigger] decimal(n)[i]) != '%'
        && decimal(n)[i] != ',' && decimal(n)[i] != ')' && decimal(n)[i] != '(' by {
        assert(is_digit(decimal(n)[i]) || decimal(n)[i] == '-');
    }
    assert forall|kind: Markup| !#[trigger] has_piece(decimal(n), kind) by {
        lemma_no_percent_no_piece(decimal(n), kind, 0);
    }
}

/// The markup `%random(low,high)` for two integers.
pub open spec fn random_markup(low: int, high: int) -> Seq<char> {
    Markup::Random.opening() + decimal(low) + seq![','] + decimal(high) + seq![')']
}

/// The text `%random(low,high)` is one piece, with the decimal texts of the
/// two integers as its contents.
pub proof fn lemma_random_markup_piece(low: int, high: int)
    requires
        i32::MIN <= low <= i32::MAX,
        i32::MIN <= high <= i32::MAX,
    ensures
        ({
            let text = random_markup(low, high);
            let comma: int = 8int + decimal(low).len();
            let close: int = comma + 1 + decimal(high).len();
            let piece = Piece {
                start: 0,
                first_from: 8,
                first_to: comma,
                second_from: comma + 1,
                second_to: close,
                end: close + 1,
            };
            &&& text.len() == close + 1
            &&& next_piece(text, Markup::Random, 0) == Some(piece)
            &&& next_piece(text, Markup::Random, close + 1) is None
            &&& piece.first(text) == decimal(low)
            &&& piece.second(text) == decimal(high)
        }),
{
    let opening = Markup::Random.opening();
    let text = random_markup(low, high);
    let comma: int = 8int + decimal(low).len();
    let close: int = comma + 1 + decimal(high).len();
    assert(opening.len() == 8);
    lemma_decimal_is_a_literal_bound(low);
    lemma_decimal_is_a_literal_bound(high);
    lemma_five_parts(opening, decimal(low), seq![','], decimal(high), seq![')']);
    assert(holds_at(text, 0, opening));
    assert forall|i: int| 8 <= i < comma implies text[i] != ',' && text[i] != '(' && text[i]
        != ')' by {
        assert(text.subrange(8, comma)[i - 8] == text[i]);
    }
    assert(text[comma] == ',') by {
        assert(text.subrange(comma, comma + 1)[0] == text[comma]);
    }
    assert forall|i: int| comma + 1 <= i < close implies text[i] != ')' && text[i] != '(' by {
        assert(text.subrange(comma + 1, close)[i - comma - 1] == text[i]);
    }
    assert(text[close] == ')') by {
        assert(text.subrange(close, close + 1)[0] == text[close]);
    }
    lemma_balanced_stop_plain(text, 8, comma, ',');
    lemma_balanced_stop_plain(text, comma + 1, close, ')');
}

/// In a text that is one `%random` piece at most one draw is made, and it
/// stands for the whole text.
pub proof fn lemma_one_piece_one_draw(
    text: Seq<char>,
    piece: Piece,
    draws: Seq<int>,
    variables: Map<Seq<char>, Seq<char>>,
    data_values: Map<Seq<char>, Seq<char>>,
)
    requires
        next_piece(text, Markup::Random, 0) == Some(piece),
        piece.start == 0,
        piece.end == text.len(),
        drawn_so_far(text, draws, variables, data_values) is Some,
    ensures
        draws.len() <= 1,
        draws.len() == 1 ==> within_bounds(text, piece, draws[0], variables, data_values)
            && drawn_so_far(text, draws, variables, data_values) == Some(
            Drawn { at: text.len() as int, out: decimal(draws[0]) },
        ),
    decreases draws.len(),
{
    if draws.len() > 0 {
        let front = draws.drop_last();
        lemma_one_piece_one_draw(text, piece, front, variables, data_values);
        if front.len() == 1 {
            assert(next_piece(text, Markup::Random, text.len() as int) is None);
        } else {
            assert(front.len() == 0);
            assert(drawn_so_far(text, front, variables, data_values) == Some(
                Drawn { at: 0, out: Seq::empty() },
            ));
            assert(text.subrange(0, 0) =~= Seq::<char>::empty());
            assert(Seq::<char>::empty() + text.subrange(0, 0) + decimal(draws.last()) =~= decimal(
                draws.last(),
            ));
            assert(draws.last() == draws[0]);
        }
    }
}

/// Random bounds: `%random(low,high)` makes way for the decimal text of an
/// integer from `low` up to, not including, `high`, and that text is what
/// the markup resolves to.
pub proof fn law_random_stays_within_its_bounds(
    low: int,
    high: int,
    drawn: Seq<char>,
    variables: Map<Seq<char>, Seq<char>>,
    data_values: Map<Seq<char>, Seq<char>>,
)
    requires
        i32::MIN <= low < high <= i32::MAX,
        random_replaced(random_markup(low, high), drawn, variables, data_values),
    ensures
        random_is_simple(random_markup(low, high), 0, variables, data_values),
        exists|n: int| low <= n < high && drawn == decimal(n),
        is_plain(drawn, variables, data_values),
        plain_outcome(drawn, variables, data_values) == Ok::<Seq<char>, ExprError>(drawn),
{
    let text = random_markup(low, high);
    lemma_random_markup_piece(low, high);
    lemma_decimal_is_a_literal_bound(low);
    lemma_decimal_is_a_literal_bound(high);
    lemma_literal_bound_is_plain(decimal(low), variables, data_values);
    lemma_literal_bound_is_plain(decimal(high), variables, data_values);
    assert(random_is_simple(text, text.len() as int, variables, data_values));
    assert(random_is_simple(text, 0, variables, data_values));
    let draws = choose|draws: Seq<int>| random_drawn(text, draws, drawn, variables, data_values);
    let piece = next_piece(text, Markup::Random, 0)->Some_0;
    lemma_one_piece_one_draw(text, piece, draws, variables, data_values);
    if draws.len() == 0 {
        assert(false);
    }
    let n = draws[0];
    assert(text.subrange(text.len() as int, text.len() as int) =~= Seq::<char>::empty());
    assert(drawn =~= decimal(n));
    assert(low <= n < high && drawn == decimal(n));
    lemma_decimal_is_a_literal_bound(n);
    lemma_settled_without_percent(drawn, variables, data_values);
    law_text_without_markup_resolves_to_itself(drawn, variables, data_values);
}

/// Ten to the power `k`.
pub open spec fn power_of_ten(k: nat) -> nat
    decreases k,
{
    if k == 0 {
        1
    } else {
        10 * power_of_ten((k - 1) as nat)
    }
}

/// A number below `10^k` has at most `k` decimal digits.
pub proof fn lemma_decimal_length(n: nat, k: nat)
    requires
        k >= 1,
        n < power_of_ten(k),
    ensures
        1 <= decimal_nat(n).len() <= k,
    decreases k,
{
    if n >= 10 {
        assert(power_of_ten(1) == 10) by {
            assert(power_of_ten(0) == 1);
        }
        assert(k >= 2);
        lemma_decimal_length(n / 10, (k - 1) as nat);
    }
}

/// The decimal text of a 32-bit integer has at most 11 characters.
pub proof fn lemma_decimal_i32_length(n: int)
    requires
        i32::MIN <= n <= i32::MAX,
    ensures
        1 <= decimal(n).len() <= 11,
{
    assert(power_of_ten(10) == 10_000_000_000nat) by {
        reveal_with_fuel(power_of_ten, 11);
    }
    if n < 0 {
        lemma_decimal_length((-n) as nat, 10);
    } else {
        lemma_decimal_length(n as nat, 10);
    }
}

/// The replacement of a piece whose kind the tables decide.
fn replace(
    kind: Markup,
    content: &Vec<char>,
    variables: &StringHashMap<String>,
    data_values: &StringHashMap<String>,
) -> (r: Vec<char>)
    requires
        tables_decide(kind),
    ensures
        r@ == replacement(kind, content@, table(variables@), table(data_values@)),
{
    match kind {
        Markup::Var => {
            let name = string_of(content);
            match variables.get(name.as_str()) {
                Some(value) => chars_of(value.as_str()),
                None => {
                    let mut r = chars_of("Variable '");
                    push_all(&mut r, content);
                    push_all(&mut r, &chars_of("' not found."));
                    r
                },
            }
        },
        Markup::Data => {
            let name = string_of(content);
            match data_values.get(name.as_str()) {
                Some(value) => chars_of(value.as_str()),
                None => {
                    let mut r = chars_of("Data Value '");
                    push_all(&mut r, content);
                    push_all(&mut r, &chars_of("' not found."));
                    r
                },
            }
        },
        Markup::Ai => chars_of("0"),
        Markup::Mouse => chars_of("Mouse expressions are not implemented"),
        _ => chars_of("Game expressions are not implemented"),
    }
}

/// The text that takes the place of `%math(content)`: `MathErr` when
/// `content` has no tree, and otherwise what the engine's `number_text`
/// returned for the tree of `content`, with the engine as that call left it.
pub fn evaluate_math<C: Numbers>(content: &str, engine_data: &mut C) -> (r: String)
    ensures
        spec_evaluate(content@) is Err ==> r@ == "MathErr"@ && *final(engine_data) == *old(engine_data),
        spec_evaluate(content@) is Ok ==> exists|engine: &mut C, tree: MathExpr, text: String|
            #[trigger] call_ensures(C::number_text, (engine, &tree), text)
                && *engine == *old(engine_data) && *final(engine) == *final(engine_data)
                && tree@ == spec_evaluate(content@)->Ok_0 && text == r,
{
    match MathEvaluator::evaluate(content) {
        Ok(tree) => engine_data.number_text(&tree),
        Err(_) => String::from_str("MathErr"),
    }
}

/// One pass over the `%math` pieces of the text from position `at` on.
fn math_pass_from<C: Numbers>(text: &Vec<char>, at: usize, engine_data: &mut C) -> (r: (
    Vec<char>,
    Ghost<Seq<Told<C>>>,
))
    requires
        at <= text.len(),
    ensures
        told_contents(r.1@) == math_contents(text@, at as int),
        r.0@ == math_pass(text@, at as int, told_answers(r.1@)),
        told_chained(r.1@, *old(engine_data), *final(engine_data)),
        forall|i: int|
            0 <= i < r.1@.len() ==> (spec_evaluate((#[trigger] r.1@[i]).content) is Err ==> r.1@[i].answer
                == "MathErr"@ && r.1@[i].engine_after == r.1@[i].engine_before) && (spec_evaluate(
                r.1@[i].content,
            ) is Ok ==> exists|engine: &mut C, tree: MathExpr, text: String|
                #[trigger] call_ensures(C::number_text, (engine, &tree), text) && *engine
                    == r.1@[i].engine_before && *final(engine) == r.1@[i].engine_after && tree@
                    == spec_evaluate(r.1@[i].content)->Ok_0 && text@ == r.1@[i].answer),
    decreases text.len() - at,
{
    match find(text, Markup::Math, at) {
        Some(f) => {
            let mut out: Vec<char> = Vec::new();
            push_range(&mut out, text, at, f.start);
            let content = slice_of(text, f.first_from, f.first_to);
            let written = string_of(&content);
            let ghost before = *engine_data;
            let answer = evaluate_math(written.as_str(), engine_data);
            let put = chars_of(answer.as_str());
            let ghost here = Told {
                content: content@,
                answer: put@,
                engine_before: before,
                engine_after: *engine_data,
            };
            push_all(&mut out, &put);
            let (rest, told_rest) = math_pass_from(text, f.end, engine_data);
            push_all(&mut out, &rest);
            let ghost told = seq![here] + told_rest@;
            proof {
                lemma_told_concat(seq![here], told_rest@, before, here.engine_after, *engine_data);
                assert(told_contents(seq![here]) =~= seq![content@]);
                assert(told_answers(told)[0] == put@);
                assert(told_answers(told).drop_first() =~= told_answers(told_rest@));
                assert(told[0] == here);
                assert forall|i: int| 0 < i < told.len() implies told[i] == told_rest@[i - 1] by {}
                assert(out@ =~= text@.subrange(at as int, f.start as int) + put@ + rest@);
            }
            (out, Ghost(told))
        },
        None => {
            let out = slice_of(text, at, text.len());
            let ghost told = Seq::<Told<C>>::empty();
            proof {
                assert(told_contents(told) =~= Seq::<Seq<char>>::empty());
            }
            (out, Ghost(told))
        },
    }
}

/// Passes over the `%math` pieces until the text holds none, `passes`
/// times at most.
fn settle_math<C: Numbers>(text: Vec<char>, passes: usize, engine_data: &mut C) -> (r: (
    Result<Vec<char>, ExprError>,
    Ghost<Seq<Told<C>>>,
))
    ensures
        told_contents(r.1@) == math_asked(text@, told_answers(r.1@), passes as nat),
        match math_settled(text@, told_answers(r.1@), passes as nat) {
            Some(t) => outcome_view(r.0) == Ok::<Seq<char>, ExprError>(t),
            None => outcome_view(r.0) == Err::<Seq<char>, ExprError>(ExprError::Unsettled),
        },
        told_chained(r.1@, *old(engine_data), *final(engine_data)),
        forall|i: int|
            0 <= i < r.1@.len() ==> (spec_evaluate((#[trigger] r.1@[i]).content) is Err ==> r.1@[i].answer
                == "MathErr"@ && r.1@[i].engine_after == r.1@[i].engine_before) && (spec_evaluate(
                r.1@[i].content,
            ) is Ok ==> exists|engine: &mut C, tree: MathExpr, text: String|
                #[trigger] call_ensures(C::number_text, (engine, &tree), text) && *engine
                    == r.1@[i].engine_before && *final(engine) == r.1@[i].engine_after && tree@
                    == spec_evaluate(r.1@[i].content)->Ok_0 && text@ == r.1@[i].answer),
    decreases passes,
{
    if find(&text, Markup::Math, 0).is_none() {
        let ghost told = Seq::<Told<C>>::empty();
        proof {
            assert(told_contents(told) =~= Seq::<Seq<char>>::empty());
        }
        return (Ok(text), Ghost(told));
    }
    if passes == 0 {
        let ghost told = Seq::<Told<C>>::empty();
        proof {
            assert(told_contents(told) =~= Seq::<Seq<char>>::empty());
        }
        return (Err(ExprError::Unsettled), Ghost(told));
    }
    let ghost before = *engine_data;
    let (next, first) = math_pass_from(&text, 0, engine_data);
    let ghost between = *engine_data;
    let (r, more) = settle_math(next, passes - 1, engine_data);
    let ghost told = first@ + more@;
    proof {
        lemma_told_concat(first@, more@, before, between, *engine_data);
        let pieces = math_contents(text@, 0).len() as int;
        assert(told_contents(first@).len() == pieces);
        assert(told_answers(told).take(pieces) =~= told_answers(first@));
        assert(told_answers(told).skip(pieces) =~= told_answers(more@));
        assert forall|i: int| 0 <= i < told.len() implies told[i] == (if i < first@.len() {
            first@[i]
        } else {
            more@[i - first@.len()]
        }) by {}
    }
    (r, Ghost(told))
}

/// One pass over the pieces of `kind`.
fn pass<C: Numbers>(
    text: &Vec<char>,
    kind: Markup,
    variables: &StringHashMap<String>,
    data_values: &StringHashMap<String>,
    engine_data: &mut C,
) -> (r: Vec<char>)
    requires
        tables_decide(kind),
    ensures
        tables_decide(kind) ==> r@ == pass_from(text@, kind, 0, table(variables@), table(data_values@))
            && *final(engine_data) == *old(engine_data),
{
    let mut out: Vec<char> = Vec::new();
    let mut at: usize = 0;
    loop
        invariant_except_break
            at <= text.len(),
            tables_decide(kind),
            tables_decide(kind) ==> out@ + pass_from(text@, kind, at as int, table(variables@), table(data_values@))
                == pass_from(text@, kind, 0, table(variables@), table(data_values@)),
            tables_decide(kind) ==> *engine_data == *old(engine_data),
        ensures
            tables_decide(kind) ==> out@ == pass_from(text@, kind, 0, table(variables@), table(data_values@))
                && *engine_data == *old(engine_data),
        decreases text.len() - at,
    {
        let ghost before = out@;
        match find(text, kind, at) {
            Some(f) => {
                push_range(&mut out, text, at, f.start);
                let content = slice_of(text, f.first_from, f.first_to);
                let put = replace(kind, &content, variables, data_values);
                push_all(&mut out, &put);
                proof {
                    if tables_decide(kind) {
                        let rest = pass_from(text@, kind, f.end as int, table(variables@), table(data_values@));
                        assert(pass_from(text@, kind, at as int, table(variables@), table(data_values@))
                            == text@.subrange(at as int, f.start as int) + put@ + rest);
                        assert(out@ + rest == before + (text@.subrange(at as int, f.start as int)
                            + put@ + rest));
                    }
                }
                at = f.end;
            },
            None => {
                push_range(&mut out, text, at, text.len());
                proof {
                    if tables_decide(kind) {
                        assert(pass_from(text@, kind, at as int, table(variables@), table(data_values@))
                            == text@.subrange(at as int, text.len() as int));
                    }
                }
                break ;
            },
        }
    }
    out
}

/// Passes over the pieces of `kind` until the text holds none.
fn settle<C: Numbers>(
    text: &Vec<char>,
    kind: Markup,
    variables: &StringHashMap<String>,
    data_values: &StringHashMap<String>,
    engine_data: &mut C,
) -> (r: Result<Vec<char>, ExprError>)
    requires
        tables_decide(kind),
    ensures
        !has_piece(text@, kind) ==> outcome_view(r) == Ok::<Seq<char>, ExprError>(text@)
            && *final(engine_data) == *old(engine_data),
        tables_decide(kind) ==> *final(engine_data) == *old(engine_data) && (match settled(
            text@,
            kind,
            MAX_PASSES as nat,
            table(variables@),
            table(data_values@),
        ) {
            Some(t) => outcome_view(r) == Ok::<Seq<char>, ExprError>(t),
            None => outcome_view(r) == Err::<Seq<char>, ExprError>(ExprError::Unsettled),
        }),
{
    let ghost start = text@;
    let mut current = slice_of(text, 0, text.len());
    assert(current@ == start);
    let mut passes: usize = 0;
    loop
        invariant
            passes <= MAX_PASSES,
            tables_decide(kind),
            start == text@,
            passes == 0 ==> current@ == start && *engine_data == *old(engine_data),
            passes > 0 ==> has_piece(start, kind),
            tables_decide(kind) ==> *engine_data == *old(engine_data),
            tables_decide(kind) ==> settled(
                current@,
                kind,
                (MAX_PASSES - passes) as nat,
                table(variables@),
                table(data_values@),
            ) == settled(start, kind, MAX_PASSES as nat, table(variables@), table(data_values@)),
        decreases MAX_PASSES - passes,
    {
        if find(&current, kind, 0).is_none() {
            return Ok(current);
        }
        if passes == MAX_PASSES {
            return Err(ExprError::Unsettled);
        }
        current = pass(&current, kind, variables, data_values, engine_data);
        passes += 1;
    }
}

/// The integer that a bound of `%random` resolves to.
fn bound<C: Numbers>(
    text: &Vec<char>,
    from: usize,
    to: usize,
    variables: &StringHashMap<String>,
    data_values: &StringHashMap<String>,
    engine_data: &mut C,
) -> (r: Result<i32, ExprError>)
    requires
        from <= to <= text.len(),
        to - from < text.len(),
    ensures
        r is Err ==> r == Err::<i32, ExprError>(ExprError::InvalidBound),
        is_plain(text@.subrange(from as int, to as int), table(variables@), table(data_values@))
            ==> *final(engine_data) == *old(engine_data) && (match plain_bound(
            text@.subrange(from as int, to as int),
            table(variables@),
            table(data_values@),
        ) {
            Some(n) => r == Ok::<i32, ExprError>(n as i32),
            None => r is Err,
        }),
    decreases text.len(), 0nat,
{
    let written = slice_of(text, from, to);
    proof {
        if !has_markup(written@) {
            law_text_without_markup_resolves_to_itself(written@, table(variables@), table(data_values@));
        }
    }
    match resolve(&written, variables, data_values, engine_data).0 {
        Ok(resolved) => match parse_i32(&trim(&resolved)) {
            Some(n) => Ok(n),
            None => Err(ExprError::InvalidBound),
        },
        Err(_) => Err(ExprError::InvalidBound),
    }
}

/// The text that takes the place of `%random(A,B)` once `A` and `B` are
/// integers: the decimal text of an integer from `low` up to, not
/// including, `high`.
pub fn random_text(low: i32, high: i32) -> (r: Result<Vec<char>, ExprError>)
    ensures
        low >= high ==> r == Err::<Vec<char>, ExprError>(ExprError::EmptyRange),
        low < high ==> r is Ok && exists|n: int| low <= n < high && r->Ok_0@ == decimal(n),
        r matches Ok(v) ==> 1 <= v.len() <= 11,
{
    if low >= high {
        return Err(ExprError::EmptyRange);
    }
    let n = random_between(low, high);
    proof {
        lemma_decimal_i32_length(n as int);
    }
    Ok(decimal_of_i32(n))
}

/// One pass over the `%random` pieces.
fn random_pass<C: Numbers>(
    text: &Vec<char>,
    variables: &StringHashMap<String>,
    data_values: &StringHashMap<String>,
    engine_data: &mut C,
) -> (r: Result<Vec<char>, ExprError>)
    requires
        has_piece(text@, Markup::Random),
    ensures
        r matches Ok(v) ==> v.len() < text.len(),
        random_is_simple(text@, 0, table(variables@), table(data_values@)) ==> r is Ok
            && random_replaced(text@, r->Ok_0@, table(variables@), table(data_values@))
            && *final(engine_data) == *old(engine_data),
    decreases text.len(), 1nat,
{
    let mut out: Vec<char> = Vec::new();
    let mut at: usize = 0;
    let ghost simple = random_is_simple(text@, 0, table(variables@), table(data_values@));
    let ghost mut draws = Seq::<int>::empty();
    loop
        invariant_except_break
            at <= text.len(),
            out.len() <= at,
            at > 0 ==> out.len() < at,
            at == 0 ==> has_piece(text@, Markup::Random),
            simple == random_is_simple(text@, 0, table(variables@), table(data_values@)),
            simple ==> random_is_simple(text@, at as int, table(variables@), table(data_values@)),
            simple ==> *engine_data == *old(engine_data),
            simple ==> drawn_so_far(text@, draws, table(variables@), table(data_values@)) == Some(
                Drawn { at: at as int, out: out@ },
            ),
        ensures
            out.len() < text.len(),
            simple ==> random_drawn(text@, draws, out@, table(variables@), table(data_values@))
                && *engine_data == *old(engine_data),
        decreases text.len() - at,
    {
        let ghost before = out@;
        match find(text, Markup::Random, at) {
            Some(f) => {
                proof {
                    lemma_next_piece_within(text@, Markup::Random, at as int);
                }
                push_range(&mut out, text, at, f.start);
                let low = match bound(
                    text,
                    f.first_from,
                    f.first_to,
                    variables,
                    data_values,
                    engine_data,
                ) {
                    Ok(n) => n,
                    Err(e) => {
                        return Err(e);
                    },
                };
                let high = match bound(
                    text,
                    f.second_from,
                    f.second_to,
                    variables,
                    data_values,
                    engine_data,
                ) {
                    Ok(n) => n,
                    Err(e) => {
                        return Err(e);
                    },
                };
                let put = match random_text(low, high) {
                    Ok(v) => v,
                    Err(e) => {
                        return Err(e);
                    },
                };
                push_all(&mut out, &put);
                proof {
                    if simple {
                        let n = choose|n: int| low <= n < high && put@ == decimal(n);
                        assert(within_bounds(text@, f@, n, table(variables@), table(data_values@)));
                        let more = draws.push(n);
                        assert(more.drop_last() == draws);
                        assert(more.last() == n);
                        assert(drawn_so_far(text@, more, table(variables@), table(data_values@)) == Some(
                            Drawn { at: f.end as int, out: out@ },
                        ));
                        draws = more;
                    }
                }
                at = f.end;
            },
            None => {
                push_range(&mut out, text, at, text.len());
                break ;
            },
        }
    }
    Ok(out)
}

/// Settles, one kind after the other, the markup that is left when no
/// `%random` piece is.
fn settle_all<C: Numbers>(
    text: &Vec<char>,
    variables: &StringHashMap<String>,
    data_values: &StringHashMap<String>,
    engine_data: &mut C,
) -> (r: (Result<Vec<char>, ExprError>, Ghost<Seq<Told<C>>>))
    requires
        !has_piece(text@, Markup::Random),
    ensures
        is_plain(text@, table(variables@), table(data_values@)) ==> outcome_view(r.0)
            == plain_outcome(text@, table(variables@), table(data_values@)) && *final(engine_data)
            == *old(engine_data),
        math_resolved(
            text@,
            table(variables@),
            table(data_values@),
            r.1@,
            *old(engine_data),
            *final(engine_data),
            outcome_view(r.0),
        ),
        forall|i: int|
            0 <= i < r.1@.len() ==> (spec_evaluate((#[trigger] r.1@[i]).content) is Err ==> r.1@[i].answer
                == "MathErr"@ && r.1@[i].engine_after == r.1@[i].engine_before) && (spec_evaluate(
                r.1@[i].content,
            ) is Ok ==> exists|engine: &mut C, tree: MathExpr, text: String|
                #[trigger] call_ensures(C::number_text, (engine, &tree), text) && *engine
                    == r.1@[i].engine_before && *final(engine) == r.1@[i].engine_after && tree@
                    == spec_evaluate(r.1@[i].content)->Ok_0 && text@ == r.1@[i].answer),
{
    let ghost none = Seq::<Told<C>>::empty();
    proof {
        assert(told_contents(none) =~= Seq::<Seq<char>>::empty());
        assert(told_answers(none) =~= Seq::<Seq<char>>::empty());
    }
    let after_var = match settle(text, Markup::Var, variables, data_values, engine_data) {
        Ok(v) => v,
        Err(e) => {
            return (Err(e), Ghost(none));
        },
    };
    let after_data = match settle(&after_var, Markup::Data, variables, data_values, engine_data) {
        Ok(v) => v,
        Err(e) => {
            return (Err(e), Ghost(none));
        },
    };
    let (settled_math, told) = settle_math(after_data, MAX_PASSES, engine_data);
    let after_math = match settled_math {
        Ok(v) => v,
        Err(e) => {
            return (Err(e), told);
        },
    };
    let after_ai = match settle(&after_math, Markup::Ai, variables, data_values, engine_data) {
        Ok(v) => v,
        Err(e) => {
            return (Err(e), told);
        },
    };
    let after_mouse = match settle(&after_ai, Markup::Mouse, variables, data_values, engine_data) {
        Ok(v) => v,
        Err(e) => {
            return (Err(e), told);
        },
    };
    (settle(&after_mouse, Markup::Game, variables, data_values, engine_data), told)
}

/// Resolves every piece of markup in a text.
///
/// Where the tables alone decide the result, it is the one that
/// [`plain_outcome`] gives, and the engine is left as it was. Where the
/// tables alone decide the bounds of every `%random` piece, each such piece
/// makes way for an integer within its bounds, and the result is that of
/// the text so drawn, each `%math` piece of it replaced by what the engine's
/// `number_text` returned for the tree of its content, or by `MathErr`.
pub fn resolve<C: Numbers>(
    text: &Vec<char>,
    variables: &StringHashMap<String>,
    data_values: &StringHashMap<String>,
    engine_data: &mut C,
) -> (r: (Result<Vec<char>, ExprError>, Ghost<Resolution<C>>))
    ensures
        is_plain(text@, table(variables@), table(data_values@)) ==> outcome_view(r.0)
            == plain_outcome(text@, table(variables@), table(data_values@)) && *final(engine_data)
            == *old(engine_data),
        !has_markup(text@) ==> outcome_view(r.0) == Ok::<Seq<char>, ExprError>(text@),
        !has_piece(text@, Markup::Random) ==> r.1@.drawn == text@,
        random_is_simple(text@, 0, table(variables@), table(data_values@)) ==> resolution(
            text@,
            table(variables@),
            table(data_values@),
            r.1@.drawn,
            r.1@.told,
            *old(engine_data),
            *final(engine_data),
            outcome_view(r.0),
        ),
        forall|i: int|
            0 <= i < r.1@.told.len() ==> (spec_evaluate((#[trigger] r.1@.told[i]).content) is Err ==> r.1@.told[i].answer
                == "MathErr"@ && r.1@.told[i].engine_after == r.1@.told[i].engine_before) && (spec_evaluate(
                r.1@.told[i].content,
            ) is Ok ==> exists|engine: &mut C, tree: MathExpr, text: String|
                #[trigger] call_ensures(C::number_text, (engine, &tree), text) && *engine
                    == r.1@.told[i].engine_before && *final(engine) == r.1@.told[i].engine_after && tree@
                    == spec_evaluate(r.1@.told[i].content)->Ok_0 && text@ == r.1@.told[i].answer),
    decreases text.len(), 2nat,
{
    proof {
        if !has_markup(text@) {
            law_text_without_markup_resolves_to_itself(text@, table(variables@), table(data_values@));
        }
    }
    let ghost simple = random_is_simple(text@, 0, table(variables@), table(data_values@));
    let ghost vars = table(variables@);
    let ghost data = table(data_values@);
    let mut current = slice_of(text, 0, text.len());
    assert(current@ == text@);
    let ghost mut drawn = text@;
    let ghost mut passed = false;
    let ghost none = Seq::<Told<C>>::empty();
    proof {
        if !has_piece(text@, Markup::Random) {
            assert(Seq::<char>::empty() + text@.subrange(0, text.len() as int) =~= text@);
            assert(random_drawn(text@, Seq::<int>::empty(), text@, vars, data));
        }
    }
    loop
        invariant_except_break
            current.len() <= text.len(),
            simple == random_is_simple(text@, 0, table(variables@), table(data_values@)),
            vars == table(variables@),
            data == table(data_values@),
            none == Seq::<Told<C>>::empty(),
            !passed ==> current@ == text@ && drawn == text@ && *engine_data == *old(engine_data),
            passed ==> has_piece(text@, Markup::Random),
            passed && simple ==> random_replaced(text@, drawn, vars, data) && (!has_piece(
                drawn,
                Markup::Random,
            ) ==> current@ == drawn && *engine_data == *old(engine_data)),
        ensures
            !has_piece(current@, Markup::Random),
            !passed ==> current@ == text@ && drawn == text@ && *engine_data == *old(engine_data),
            passed ==> has_piece(text@, Markup::Random),
            passed && simple ==> random_replaced(text@, drawn, vars, data) && (!has_piece(
                drawn,
                Markup::Random,
            ) ==> current@ == drawn && *engine_data == *old(engine_data)),
        decreases current.len(),
    {
        if find(&current, Markup::Random, 0).is_none() {
            break ;
        }
        let next = match random_pass(&current, variables, data_values, engine_data) {
            Ok(v) => v,
            Err(e) => {
                proof {
                    if simple {
                        assert(passed);
                        assert(random_replaced(text@, drawn, vars, data) && has_piece(
                            drawn,
                            Markup::Random,
                        ));
                    }
                }
                return (Err(e), Ghost(Resolution { drawn, told: none }));
            },
        };
        proof {
            if !passed {
                drawn = next@;
                passed = true;
            }
        }
        current = next;
    }
    let (r, told) = settle_all(&current, variables, data_values, engine_data);
    (r, Ghost(Resolution { drawn, told: told@ }))
}

} // verus!
