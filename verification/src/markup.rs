//! The expression markup that script arguments may hold, as a grammar on
//! characters.
//!
//! A piece of markup opens with `%`, a keyword and `(`, and closes with a
//! `)`:
//!
//! * `%var(..)`, `%data(..)`, `%math(..)`, `%ai(..)`, `%mouse(..)`,
//!   `%game(..)`: the contents run up to the first `)` and hold no line feed;
//!   they may be empty.
//! * `%random(A,B)`: `A` runs up to the first `,` that stands in no
//!   parentheses of its own, and `B` from there up to the `)` that closes
//!   the piece: `A` and `B` may hold markup themselves, as in
//!   `%random(1,%var(high))`. Neither is empty.
//!
//! A text is searched from left to right, and the pieces found in one pass
//! do not overlap.

use vstd::prelude::*;
use crate::text::{holds_at, has_at};

verus! {

/// The kinds of markup.
#[derive(Clone, Copy, Debug, PartialEq, Eq, Structural)]
pub enum Markup {
    Random,
    Var,
    Data,
    Math,
    Ai,
    Mouse,
    Game,
}

impl Markup {
    /// The characters that open a piece of this kind.
    pub open spec fn opening(self) -> Seq<char> {
        match self {
            Markup::Random => seq!['%', 'r', 'a', 'n', 'd', 'o', 'm', '('],
            Markup::Var => seq!['%', 'v', 'a', 'r', '('],
            Markup::Data => seq!['%', 'd', 'a', 't', 'a', '('],
            Markup::Math => seq!['%', 'm', 'a', 't', 'h', '('],
            Markup::Ai => seq!['%', 'a', 'i', '('],
            Markup::Mouse => seq!['%', 'm', 'o', 'u', 's', 'e', '('],
            Markup::Game => seq!['%', 'g', 'a', 'm', 'e', '('],
        }
    }

    /// The characters that open a piece of this kind.
    pub fn opening_chars(self) -> (r: Vec<char>)
        ensures
            r@ == self.opening(),
    {
        let r = match self {
            Markup::Random => vec!['%', 'r', 'a', 'n', 'd', 'o', 'm', '('],
            Markup::Var => vec!['%', 'v', 'a', 'r', '('],
            Markup::Data => vec!['%', 'd', 'a', 't', 'a', '('],
            Markup::Math => vec!['%', 'm', 'a', 't', 'h', '('],
            Markup::Ai => vec!['%', 'a', 'i', '('],
            Markup::Mouse => vec!['%', 'm', 'o', 'u', 's', 'e', '('],
            Markup::Game => vec!['%', 'g', 'a', 'm', 'e', '('],
        };
        assert(r@ =~= self.opening());
        r
    }
}

/// A piece of markup found in a text, by positions. The piece is
/// `text[start..end]`; its contents are `text[first_from..first_to]` and, for
/// `%random`, also `text[second_from..second_to]`.
#[derive(Clone, Copy, Debug, PartialEq, Eq, Structural)]
pub struct Found {
    pub start: usize,
    pub first_from: usize,
    pub first_to: usize,
    pub second_from: usize,
    pub second_to: usize,
    pub end: usize,
}

/// A piece of markup in contracts.
pub struct Piece {
    pub start: int,
    pub first_from: int,
    pub first_to: int,
    pub second_from: int,
    pub second_to: int,
    pub end: int,
}

impl View for Found {
    type V = Piece;

    open spec fn view(&self) -> Piece {
        Piece {
            start: self.start as int,
            first_from: self.first_from as int,
            first_to: self.first_to as int,
            second_from: self.second_from as int,
            second_to: self.second_to as int,
            end: self.end as int,
        }
    }
}

/// The first position at or after `i` that holds `stop`, unless `bar` or the
/// end of the text comes first.
pub open spec fn first_stop(text: Seq<char>, i: int, stop: char, bar: Option<char>) -> Option<int>
    decreases text.len() - i,
{
    if i < 0 || i >= text.len() {
        None
    } else if text[i] == stop {
        Some(i)
    } else if bar == Some(text[i]) {
        None
    } else {
        first_stop(text, i + 1, stop, bar)
    }
}

pub proof fn lemma_first_stop_bounds(text: Seq<char>, i: int, stop: char, bar: Option<char>)
    requires
        0 <= i,
    ensures
        first_stop(text, i, stop, bar) matches Some(j) ==> i <= j < text.len() && text[j] == stop,
    decreases text.len() - i,
{
    if i < text.len() && text[i] != stop && bar != Some(text[i]) {
        lemma_first_stop_bounds(text, i + 1, stop, bar);
    }
}

/// The first position at or after `i` that holds `stop` outside all
/// parentheses that open at or after `i`, when `depth` of them are open at
/// `i`. There is none when a `)` that closes more than was opened comes
/// first, or the end of the text.
pub open spec fn balanced_stop(text: Seq<char>, i: int, stop: char, depth: nat) -> Option<int>
    decreases text.len() - i,
{
    if i < 0 || i >= text.len() {
        None
    } else if depth == 0 && text[i] == stop {
        Some(i)
    } else if text[i] == '(' {
        balanced_stop(text, i + 1, stop, depth + 1)
    } else if text[i] == ')' {
        if depth == 0 {
            None
        } else {
            balanced_stop(text, i + 1, stop, (depth - 1) as nat)
        }
    } else {
        balanced_stop(text, i + 1, stop, depth)
    }
}

pub proof fn lemma_balanced_stop_bounds(text: Seq<char>, i: int, stop: char, depth: nat)
    requires
        0 <= i,
    ensures
        balanced_stop(text, i, stop, depth) matches Some(j) ==> i <= j < text.len() && text[j]
            == stop,
    decreases text.len() - i,
{
    if i < text.len() && !(depth == 0 && text[i] == stop) {
        if text[i] == '(' {
            lemma_balanced_stop_bounds(text, i + 1, stop, depth + 1);
        } else if text[i] == ')' {
            if depth > 0 {
                lemma_balanced_stop_bounds(text, i + 1, stop, (depth - 1) as nat);
            }
        } else {
            lemma_balanced_stop_bounds(text, i + 1, stop, depth);
        }
    }
}

/// Where no parenthesis stands before the first `stop`, it is the stop.
pub proof fn lemma_balanced_stop_plain(text: Seq<char>, from: int, to: int, stop: char)
    requires
        0 <= from <= to < text.len(),
        text[to] == stop,
        forall|i: int| from <= i < to ==> text[i] != stop && text[i] != '(' && text[i] != ')',
    ensures
        balanced_stop(text, from, stop, 0) == Some(to),
    decreases to - from,
{
    if from < to {
        lemma_balanced_stop_plain(text, from + 1, to, stop);
    }
}

/// The piece of the given kind that starts at `at`, if one does.
pub open spec fn piece_at(text: Seq<char>, kind: Markup, at: int) -> Option<Piece> {
    let from = at + kind.opening().len();
    if !holds_at(text, at, kind.opening()) {
        None
    } else if kind == Markup::Random {
        match balanced_stop(text, from, ',', 0) {
            Some(comma) => match balanced_stop(text, comma + 1, ')', 0) {
                Some(close) => if from < comma && comma + 1 < close {
                    Some(
                        Piece {
                            start: at,
                            first_from: from,
                            first_to: comma,
                            second_from: comma + 1,
                            second_to: close,
                            end: close + 1,
                        },
                    )
                } else {
                    None
                },
                None => None,
            },
            None => None,
        }
    } else {
        match first_stop(text, from, ')', Some('\n')) {
            Some(close) => Some(
                Piece {
                    start: at,
                    first_from: from,
                    first_to: close,
                    second_from: close,
                    second_to: close,
                    end: close + 1,
                },
            ),
            None => None,
        }
    }
}

/// The leftmost piece of the given kind that starts at or after `from`.
pub open spec fn next_piece(text: Seq<char>, kind: Markup, from: int) -> Option<Piece>
    decreases text.len() - from,
{
    if from < 0 || from >= text.len() {
        None
    } else {
        match piece_at(text, kind, from) {
            Some(p) => Some(p),
            None => next_piece(text, kind, from + 1),
        }
    }
}

/// Whether the text holds a piece of the given kind.
pub open spec fn has_piece(text: Seq<char>, kind: Markup) -> bool {
    next_piece(text, kind, 0) is Some
}

/// Whether the text holds markup of any kind.
pub open spec fn has_markup(text: Seq<char>) -> bool {
    ||| has_piece(text, Markup::Random)
    ||| has_piece(text, Markup::Var)
    ||| has_piece(text, Markup::Data)
    ||| has_piece(text, Markup::Math)
    ||| has_piece(text, Markup::Ai)
    ||| has_piece(text, Markup::Mouse)
    ||| has_piece(text, Markup::Game)
}

impl Piece {
    /// The positions of a piece lie in the text, in order, and the piece is
    /// not empty.
    pub open spec fn within(self, text: Seq<char>, from: int) -> bool {
        &&& from <= self.start < self.first_from <= self.first_to <= self.second_from
        &&& self.second_from <= self.second_to < self.end <= text.len()
    }

    /// The first contents of the piece.
    pub open spec fn first(self, text: Seq<char>) -> Seq<char> {
        text.subrange(self.first_from, self.first_to)
    }

    /// The second contents of the piece.
    pub open spec fn second(self, text: Seq<char>) -> Seq<char> {
        text.subrange(self.second_from, self.second_to)
    }
}

pub proof fn lemma_piece_at_within(text: Seq<char>, kind: Markup, at: int)
    ensures
        piece_at(text, kind, at) matches Some(p) ==> p.within(text, at) && p.start == at,
        kind == Markup::Random ==> (piece_at(text, kind, at) matches Some(p) ==> p.end - p.start
            >= 12),
{
    let from = at + kind.opening().len();
    if holds_at(text, at, kind.opening()) {
        if kind == Markup::Random {
            lemma_balanced_stop_bounds(text, from, ',', 0);
            if let Some(comma) = balanced_stop(text, from, ',', 0) {
                lemma_balanced_stop_bounds(text, comma + 1, ')', 0);
            }
        } else {
            lemma_first_stop_bounds(text, from, ')', Some('\n'));
        }
    }
}

pub proof fn lemma_next_piece_within(text: Seq<char>, kind: Markup, from: int)
    requires
        0 <= from,
    ensures
        next_piece(text, kind, from) matches Some(p) ==> p.within(text, from),
        kind == Markup::Random ==> (next_piece(text, kind, from) matches Some(p) ==> p.end
            - p.start >= 12),
    decreases text.len() - from,
{
    if from < text.len() {
        lemma_piece_at_within(text, kind, from);
        if piece_at(text, kind, from) is None {
            lemma_next_piece_within(text, kind, from + 1);
        }
    }
}

/// A text without `%` holds no markup.
pub proof fn lemma_no_percent_no_piece(text: Seq<char>, kind: Markup, from: int)
    requires
        forall|i: int| 0 <= i < text.len() ==> text[i] != '%',
    ensures
        next_piece(text, kind, from) is None,
    decreases text.len() - from,
{
    if 0 <= from < text.len() {
        if holds_at(text, from, kind.opening()) {
            assert(text.subrange(from, from + kind.opening().len())[0] == kind.opening()[0]);
            assert(text[from] == '%');
        }
        lemma_no_percent_no_piece(text, kind, from + 1);
    }
}

/// Finds [`first_stop`].
fn scan_stop(text: &Vec<char>, from: usize, stop: char, bar: Option<char>) -> (r: Option<usize>)
    ensures
        match r {
            Some(j) => first_stop(text@, from as int, stop, bar) == Some(j as int),
            None => first_stop(text@, from as int, stop, bar) is None,
        },
{
    let mut i: usize = from;
    while i < text.len()
        invariant
            from <= i,
            first_stop(text@, i as int, stop, bar) == first_stop(text@, from as int, stop, bar),
        decreases text.len() - i,
    {
        let c = text[i];
        if c == stop {
            return Some(i);
        }
        match bar {
            Some(b) => {
                if b == c {
                    return None;
                }
            },
            None => {},
        }
        i += 1;
    }
    None
}

/// Finds [`balanced_stop`] from outside all parentheses.
fn scan_balanced(text: &Vec<char>, from: usize, stop: char) -> (r: Option<usize>)
    ensures
        match r {
            Some(j) => balanced_stop(text@, from as int, stop, 0) == Some(j as int),
            None => balanced_stop(text@, from as int, stop, 0) is None,
        },
{
    let mut i: usize = from;
    let mut depth: usize = 0;
    while i < text.len()
        invariant
            from <= i,
            depth <= i - from,
            balanced_stop(text@, i as int, stop, depth as nat) == balanced_stop(
                text@,
                from as int,
                stop,
                0,
            ),
        decreases text.len() - i,
    {
        let c = text[i];
        if depth == 0 && c == stop {
            return Some(i);
        }
        if c == '(' {
            depth += 1;
        } else if c == ')' {
            if depth == 0 {
                return None;
            }
            depth -= 1;
        }
        i += 1;
    }
    None
}

/// Finds [`piece_at`].
fn look_at(text: &Vec<char>, kind: Markup, opening: &Vec<char>, at: usize) -> (r: Option<Found>)
    requires
        opening@ == kind.opening(),
        at < text.len(),
    ensures
        match r {
            Some(f) => piece_at(text@, kind, at as int) == Some(f@),
            None => piece_at(text@, kind, at as int) is None,
        },
{
    if !has_at(text, at, opening) {
        return None;
    }
    let from: usize = at + opening.len();
    match kind {
        Markup::Random => {
            let comma = match scan_balanced(text, from, ',') {
                Some(c) => c,
                None => {
                    return None;
                },
            };
            proof {
                lemma_balanced_stop_bounds(text@, from as int, ',', 0);
            }
            let close = match scan_balanced(text, comma + 1, ')') {
                Some(c) => c,
                None => {
                    return None;
                },
            };
            proof {
                lemma_balanced_stop_bounds(text@, comma + 1, ')', 0);
            }
            if from < comma && comma + 1 < close {
                Some(
                    Found {
                        start: at,
                        first_from: from,
                        first_to: comma,
                        second_from: comma + 1,
                        second_to: close,
                        end: close + 1,
                    },
                )
            } else {
                None
            }
        },
        _ => {
            let close = match scan_stop(text, from, ')', Some('\n')) {
                Some(c) => c,
                None => {
                    return None;
                },
            };
            proof {
                lemma_first_stop_bounds(text@, from as int, ')', Some('\n'));
            }
            Some(
                Found {
                    start: at,
                    first_from: from,
                    first_to: close,
                    second_from: close,
                    second_to: close,
                    end: close + 1,
                },
            )
        },
    }
}

/// Finds the leftmost piece of the given kind at or after `from`.
pub fn find(text: &Vec<char>, kind: Markup, from: usize) -> (r: Option<Found>)
    ensures
        match r {
            Some(f) => next_piece(text@, kind, from as int) == Some(f@) && f@.within(
                text@,
                from as int,
            ),
            None => next_piece(text@, kind, from as int) is None,
        },
{
    let opening = kind.opening_chars();
    let mut at: usize = from;
    while at < text.len()
        invariant
            from <= at,
            opening@ == kind.opening(),
            next_piece(text@, kind, at as int) == next_piece(text@, kind, from as int),
        decreases text.len() - at,
    {
        match look_at(text, kind, &opening, at) {
            Some(f) => {
                proof {
                    lemma_next_piece_within(text@, kind, from as int);
                }
                return Some(f);
            },
            None => {},
        }
        at += 1;
    }
    None
}

/// Decides [`has_markup`].
pub fn holds_markup(text: &Vec<char>) -> (r: bool)
    ensures
        r == has_markup(text@),
{
    find(text, Markup::Random, 0).is_some() || find(text, Markup::Var, 0).is_some() || find(
        text,
        Markup::Data,
        0,
    ).is_some() || find(text, Markup::Math, 0).is_some() || find(text, Markup::Ai, 0).is_some()
        || find(text, Markup::Mouse, 0).is_some() || find(text, Markup::Game, 0).is_some()
}

} // verus!
