//! The event manager: the listeners that scripts register, the action
//! registry, the variable and data tables, and the dispatch of an event to
//! the blocks of the listeners that it fires.
//!
//! A listener fires on an event when the event has its name and exactly its
//! arguments. The blocks of a listener run in the order in which they are
//! written, each block before the blocks below it. A block whose name the
//! registry does not hold is passed over with all that is below it; so is
//! what is below a block whose gate stays shut. A block's gate is the
//! result of its action, inverted when the block is `negated`. Block names
//! are kept and looked up in lower case. A block that the registry does not
//! know is noted for the host to log.
//!
//! What a dispatch did is told step by step: each step holds the block
//! that was reached, the action that the registry held for it, what the
//! action returned, and the engine and the event manager before and after.
//! An action on the tables has the effect that its contract states; any
//! other is a call of the engine's `perform`, with the action and the
//! arguments of the block, and left what that call left.

use vstd::prelude::*;
use vstd::hash_map::StringHashMap;
use crate::expression::{
    ExprError, Numbers, Told, evaluate_math, is_plain, lemma_table_insert, outcome_view,
    plain_outcome,
    random_is_simple, resolution, resolve, shown, table,
};
use crate::game_loader::{
    Code, CodeView, Value, ValueView, clone_forest, forest_view, lemma_forest_view, value_views,
};
use crate::markup::{Markup, has_markup, has_piece};
use crate::math_evaluator::{MathExpr, spec_evaluate};
use crate::scripting_api::{
    CodeBlockFunction, ScriptingAPI, Verb, is_table_action, standard_actions, table_action_effect,
};
use crate::text::{
    chars_of, clone_strings, lowercase, lowercase_of, push_all, same_str, same_texts, string_of,
    texts,
};

verus! {

/// The engine that the event manager drives: the context that actions
/// change.
pub trait Engine: Numbers {
    /// Runs an action of the engine on the arguments of a block and says
    /// whether the block opens its gate. The action may change the
    /// engine and the event manager in any way, and may trigger events.
    fn perform(
        &mut self,
        event_manager: &mut EventManager,
        action: CodeBlockFunction,
        args: &Vec<Value>,
    ) -> bool;
}

/// A registered reaction: the blocks in `code` run when the event
/// `event_name` comes with exactly the arguments `args`.
#[derive(Debug, PartialEq)]
pub struct Listener {
    pub event_name: String,
    pub args: Vec<String>,
    pub code: Vec<Code>,
}

/// What a [`Listener`] stands for in contracts.
pub struct ListenerView {
    pub event_name: Seq<char>,
    pub args: Seq<Seq<char>>,
    pub code: Seq<CodeView>,
}

impl View for Listener {
    type V = ListenerView;

    open spec fn view(&self) -> ListenerView {
        ListenerView {
            event_name: self.event_name@,
            args: texts(self.args@),
            code: forest_view(self.code@),
        }
    }
}

impl Clone for Listener {
    fn clone(&self) -> (r: Self)
        ensures
            r@ == self@,
    {
        Listener {
            event_name: self.event_name.clone(),
            args: clone_strings(self.args.as_slice()),
            code: clone_forest(&self.code),
        }
    }
}

impl ListenerView {
    /// Whether the listener fires on the event `name` with the arguments `args`.
    pub open spec fn fires_on(self, name: Seq<char>, args: Seq<Seq<char>>) -> bool {
        self.event_name == name && self.args == args
    }
}

/// The views of a sequence of listeners.
pub open spec fn listener_views(ls: Seq<Listener>) -> Seq<ListenerView> {
    Seq::new(ls.len(), |i: int| ls[i]@)
}

/// The blocks that an event sets off: the blocks of the listeners that
/// fire on it, listener after listener in the order of registration.
pub open spec fn agenda(listeners: Seq<ListenerView>, name: Seq<char>, args: Seq<Seq<char>>) -> Seq<
    CodeView,
>
    decreases listeners.len(),
{
    if listeners.len() == 0 {
        Seq::empty()
    } else {
        agenda(listeners.drop_last(), name, args) + if listeners.last().fires_on(name, args) {
            listeners.last().code
        } else {
            Seq::empty()
        }
    }
}

/// The listeners that are left when those that fire on `name` with `args` are removed.
pub open spec fn without(listeners: Seq<ListenerView>, name: Seq<char>, args: Seq<Seq<char>>) -> Seq<
    ListenerView,
>
    decreases listeners.len(),
{
    if listeners.len() == 0 {
        Seq::empty()
    } else if listeners.last().fires_on(name, args) {
        without(listeners.drop_last(), name, args)
    } else {
        without(listeners.drop_last(), name, args).push(listeners.last())
    }
}

/// The listener that a block at the root of a script stands for: the name
/// of the block is the name of the event, its arguments are the argument
/// signature, and the blocks below it are the reaction.
pub open spec fn listener_of(root: CodeView) -> ListenerView {
    ListenerView {
        event_name: root.block,
        args: Seq::new(root.args.len(), |i: int| root.args[i].signature()),
        code: root.subcode,
    }
}

/// The listeners that a script stands for, root after root.
pub open spec fn script_listeners(script: Seq<CodeView>) -> Seq<ListenerView> {
    Seq::new(script.len(), |i: int| listener_of(script[i]))
}

/// One step of a dispatch: a block that was reached.
pub struct Visit {
    pub block: Seq<char>,
    pub args: Seq<ValueView>,
    pub negated: bool,
    /// Whether the registry held the name of the block when it was reached.
    pub known: bool,
    /// Whether the block opened its gate.
    pub opened: bool,
}

/// Whether `trace` is a dispatch of the blocks in `forest`: the blocks are
/// reached from first to last, each before the blocks below it; the blocks
/// below a block are reached when its gate opened and otherwise not at all;
/// a gate opens only for a block that the registry knows.
pub open spec fn replay(forest: Seq<CodeView>, trace: Seq<Visit>) -> bool
    decreases trace.len(),
{
    if forest.len() == 0 {
        trace.len() == 0
    } else if trace.len() == 0 {
        false
    } else {
        &&& trace[0].block == forest[0].block
        &&& trace[0].args == forest[0].args
        &&& trace[0].negated == forest[0].negated
        &&& (trace[0].opened ==> trace[0].known)
        &&& replay(
            (if trace[0].opened {
                forest[0].subcode
            } else {
                Seq::empty()
            }) + forest.drop_first(),
            trace.drop_first(),
        )
    }
}

/// Whether no step of the dispatch ran an action.
pub open spec fn no_action(trace: Seq<Visit>) -> bool {
    forall|i: int| 0 <= i < trace.len() ==> !(#[trigger] trace[i]).known
}

/// The blocks of a forest in the order in which a dispatch reaches them
/// when every gate opens.
pub open spec fn preorder(forest: Seq<CodeView>) -> Seq<CodeView>
    decreases forest,
{
    if forest.len() == 0 {
        Seq::empty()
    } else {
        seq![forest[0]] + preorder(forest[0].subcode) + preorder(forest.drop_first())
    }
}

/// The action that a registry holds under a key.
pub open spec fn action_under(
    registry: Map<Seq<char>, CodeBlockFunction>,
    key: Seq<char>,
) -> Option<CodeBlockFunction> {
    if registry.contains_key(key) {
        Some(registry[key])
    } else {
        None
    }
}

/// The line that the dispatcher notes for a block that the registry does
/// not know.
pub open spec fn unknown_block_note(block: Seq<char>) -> Seq<char> {
    "Function for code block '"@ + block + "' not found"@
}

/// Whether `after` is `before` with one more line noted for the host: the
/// listeners, the registry and the tables are the same, and `line` stands
/// after the lines that were noted.
pub open spec fn noted(before: EventManager, after: EventManager, line: Seq<char>) -> bool {
    &&& after.listeners() == before.listeners()
    &&& after.code_blocks() == before.code_blocks()
    &&& after.variables() == before.variables()
    &&& after.data_values() == before.data_values()
    &&& after.notes() == before.notes().push(line)
}

/// One step of a dispatch by the event manager: the block that was reached,
/// what the registry held for it, what its action returned, and the engine
/// and the event manager as they stood before and after the step.
pub struct Step<C> {
    pub visit: Visit,
    /// The key under which the block was looked up.
    pub key: Seq<char>,
    /// The action that the registry held under the key.
    pub action: Option<CodeBlockFunction>,
    /// What the action returned.
    pub result: bool,
    pub engine_before: C,
    pub manager_before: EventManager,
    pub engine_after: C,
    pub manager_after: EventManager,
}

impl<C> Step<C> {
    /// Whether the block was looked up under its name in lower case.
    pub open spec fn by_name(self) -> bool {
        self.key == lowercase_of(self.visit.block)
    }

    /// Whether the step went as the dispatcher has it. The action is the one
    /// that the registry held under the key when the block was reached.
    /// Without an action the block stays shut and nothing changes, but that
    /// the event manager notes for the host that the block is unknown. With an
    /// action the block opens exactly when the result of the action differs
    /// from `negated`, and an action on the tables has had its effect.
    pub open spec fn settled(self) -> bool {
        &&& self.action == action_under(self.manager_before.code_blocks(), self.key)
        &&& self.visit.known == (self.action is Some)
        &&& match self.action {
            None => !self.visit.opened && self.engine_after == self.engine_before && noted(
                self.manager_before,
                self.manager_after,
                unknown_block_note(self.visit.block),
            ),
            Some(func) => self.visit.opened == (self.result != self.visit.negated) && (
            is_table_action(func) ==> table_action_effect(
                func,
                self.engine_before,
                self.engine_after,
                self.manager_before,
                self.manager_after,
                self.visit.args,
                self.result,
            )),
        }
    }
}

/// The blocks that the steps reached.
pub open spec fn visits<C>(trace: Seq<Step<C>>) -> Seq<Visit> {
    Seq::new(trace.len(), |i: int| trace[i].visit)
}

/// Whether the steps follow one another from `(engine, manager)` to
/// `(engine_end, manager_end)`: the first step starts from the one, each
/// step starts where the step before it ended, and the last ends in the
/// other. Without a step the two are the same.
pub open spec fn chained<C>(
    trace: Seq<Step<C>>,
    engine: C,
    manager: EventManager,
    engine_end: C,
    manager_end: EventManager,
) -> bool {
    if trace.len() == 0 {
        engine_end == engine && manager_end == manager
    } else {
        &&& trace[0].engine_before == engine
        &&& trace[0].manager_before == manager
        &&& trace.last().engine_after == engine_end
        &&& trace.last().manager_after == manager_end
        &&& (forall|i: int|
            0 < i < trace.len() ==> (#[trigger] trace[i]).engine_before == trace[i
                - 1].engine_after && trace[i].manager_before == trace[i - 1].manager_after)
    }
}

/// Steps that end where other steps start make one chain with them.
pub proof fn lemma_chained_concat<C>(
    first: Seq<Step<C>>,
    second: Seq<Step<C>>,
    engine: C,
    manager: EventManager,
    engine_between: C,
    manager_between: EventManager,
    engine_end: C,
    manager_end: EventManager,
)
    requires
        chained(first, engine, manager, engine_between, manager_between),
        chained(second, engine_between, manager_between, engine_end, manager_end),
    ensures
        chained(first + second, engine, manager, engine_end, manager_end),
        visits(first + second) == visits(first) + visits(second),
{
    let joined = first + second;
    assert(visits(joined) =~= visits(first) + visits(second));
    if first.len() == 0 {
        assert(joined =~= second);
    } else if second.len() == 0 {
        assert(joined =~= first);
    } else {
        assert(joined[0] == first[0]);
        assert(joined.last() == second.last());
        assert forall|i: int| 0 < i < joined.len() implies (#[trigger] joined[i]).engine_before
            == joined[i - 1].engine_after && joined[i].manager_before == joined[i
            - 1].manager_after by {
            if i < first.len() {
                assert(joined[i] == first[i] && joined[i - 1] == first[i - 1]);
            } else if i == first.len() {
                assert(joined[i] == second[0] && joined[i - 1] == first.last());
            } else {
                assert(joined[i] == second[i - first.len()] && joined[i - 1] == second[i
                    - first.len() - 1]);
            }
        }
    }
}

/// A dispatch of one forest followed by a dispatch of another is a dispatch
/// of the two forests in a row.
pub proof fn lemma_replay_concat(
    first: Seq<CodeView>,
    first_trace: Seq<Visit>,
    second: Seq<CodeView>,
    second_trace: Seq<Visit>,
)
    requires
        replay(first, first_trace),
        replay(second, second_trace),
    ensures
        replay(first + second, first_trace + second_trace),
    decreases first_trace.len(),
{
    if first.len() == 0 {
        assert(first + second == second);
        assert(first_trace + second_trace == second_trace);
    } else {
        let below = if first_trace[0].opened {
            first[0].subcode
        } else {
            Seq::empty()
        };
        lemma_replay_concat(
            below + first.drop_first(),
            first_trace.drop_first(),
            second,
            second_trace,
        );
        assert((first + second)[0] == first[0]);
        assert((first_trace + second_trace)[0] == first_trace[0]);
        assert((first + second).drop_first() == first.drop_first() + second);
        assert((first_trace + second_trace).drop_first() == first_trace.drop_first()
            + second_trace);
        assert(below + (first.drop_first() + second) == (below + first.drop_first()) + second);
    }
}

/// [`preorder`] of two forests in a row.
pub proof fn lemma_preorder_concat(first: Seq<CodeView>, second: Seq<CodeView>)
    ensures
        preorder(first + second) == preorder(first) + preorder(second),
    decreases first.len(),
{
    if first.len() == 0 {
        assert(first + second == second);
    } else {
        lemma_preorder_concat(first.drop_first(), second);
        assert((first + second)[0] == first[0]);
        assert((first + second).drop_first() == first.drop_first() + second);
        assert(preorder(first + second) == seq![first[0]] + preorder(first[0].subcode) + (preorder(
            first.drop_first(),
        ) + preorder(second)));
        assert(seq![first[0]] + preorder(first[0].subcode) + (preorder(first.drop_first())
            + preorder(second)) == (seq![first[0]] + preorder(first[0].subcode) + preorder(
            first.drop_first(),
        )) + preorder(second));
    }
}

/// A listener fires on an event exactly when the event has the name of the
/// listener and as many arguments as the listener, each equal to the
/// argument of the listener in its place.
pub proof fn law_listener_matching_is_exact(
    listener: ListenerView,
    name: Seq<char>,
    args: Seq<Seq<char>>,
)
    ensures
        listener.fires_on(name, args) <==> (listener.event_name == name && listener.args.len()
            == args.len() && forall|i: int|
            0 <= i < args.len() ==> listener.args[i] == args[i]),
{
    if listener.event_name == name && listener.args.len() == args.len() && (forall|i: int|
        0 <= i < args.len() ==> listener.args[i] == args[i]) {
        assert(listener.args =~= args);
    }
}

/// Registering a listener adds its blocks, after all others, to what the
/// events that it fires on set off, and nothing to what any other event
/// sets off.
pub proof fn law_registered_listener_fires_on_its_events_only(
    listeners: Seq<ListenerView>,
    listener: ListenerView,
    name: Seq<char>,
    args: Seq<Seq<char>>,
)
    ensures
        listener.fires_on(name, args) ==> agenda(listeners.push(listener), name, args) == agenda(
            listeners,
            name,
            args,
        ) + listener.code,
        !listener.fires_on(name, args) ==> agenda(listeners.push(listener), name, args) == agenda(
            listeners,
            name,
            args,
        ),
{
    assert(listeners.push(listener).drop_last() == listeners);
    assert(agenda(listeners, name, args) + Seq::<CodeView>::empty() == agenda(
        listeners,
        name,
        args,
    ));
}

/// Removing the listeners of an event leaves nothing for the event to set
/// off, and leaves what every other event sets off as it was.
pub proof fn law_killed_listener_is_silent(
    listeners: Seq<ListenerView>,
    killed_name: Seq<char>,
    killed_args: Seq<Seq<char>>,
    name: Seq<char>,
    args: Seq<Seq<char>>,
)
    ensures
        agenda(without(listeners, killed_name, killed_args), killed_name, killed_args) == Seq::<
            CodeView,
        >::empty(),
        !(name == killed_name && args == killed_args) ==> agenda(
            without(listeners, killed_name, killed_args),
            name,
            args,
        ) == agenda(listeners, name, args),
    decreases listeners.len(),
{
    if listeners.len() > 0 {
        let rest = listeners.drop_last();
        let last = listeners.last();
        law_killed_listener_is_silent(rest, killed_name, killed_args, name, args);
        let kept = without(rest, killed_name, killed_args);
        if !last.fires_on(killed_name, killed_args) {
            assert(kept.push(last).drop_last() == kept);
            assert(agenda(kept, killed_name, killed_args) + Seq::<CodeView>::empty() == agenda(
                kept,
                killed_name,
                killed_args,
            ));
        } else if !(name == killed_name && args == killed_args) {
            assert(agenda(rest, name, args) + Seq::<CodeView>::empty() == agenda(rest, name, args));
        }
    }
}

/// Without listeners no event reaches any block: after `kill_all_listeners`
/// a dispatch has no step, whatever the event.
pub proof fn law_no_listener_no_dispatch(name: Seq<char>, args: Seq<Seq<char>>, trace: Seq<Visit>)
    requires
        replay(agenda(Seq::<ListenerView>::empty(), name, args), trace),
    ensures
        trace.len() == 0,
{
}

/// When every block opens, a dispatch reaches the blocks in pre-order: each
/// block before the blocks below it, these before the block that follows it.
pub proof fn law_dispatch_is_depth_first(forest: Seq<CodeView>, trace: Seq<Visit>)
    requires
        replay(forest, trace),
        forall|i: int| 0 <= i < trace.len() ==> (#[trigger] trace[i]).opened,
    ensures
        trace.len() == preorder(forest).len(),
        forall|i: int|
            0 <= i < trace.len() ==> (#[trigger] trace[i]).block == preorder(forest)[i].block
                && trace[i].args == preorder(forest)[i].args,
    decreases trace.len(),
{
    if forest.len() > 0 {
        let rest = forest[0].subcode + forest.drop_first();
        let tail = trace.drop_first();
        assert(trace[0].opened);
        assert forall|i: int| 0 <= i < tail.len() implies (#[trigger] tail[i]).opened by {
            assert(tail[i] == trace[i + 1]);
        }
        law_dispatch_is_depth_first(rest, tail);
        lemma_preorder_concat(forest[0].subcode, forest.drop_first());
        let order = preorder(forest);
        assert(order == seq![forest[0]] + preorder(rest));
        assert forall|i: int| 0 <= i < trace.len() implies (#[trigger] trace[i]).block
            == order[i].block && trace[i].args == order[i].args by {
            if i > 0 {
                assert(trace[i] == tail[i - 1]);
                assert(order[i] == preorder(rest)[i - 1]);
            }
        }
    }
}

/// Below a block that stays shut nothing runs, and the dispatch goes on
/// with the block that follows it.
pub proof fn law_shut_block_hides_what_is_below(forest: Seq<CodeView>, trace: Seq<Visit>)
    requires
        replay(forest, trace),
        forest.len() > 0,
        !trace[0].opened,
    ensures
        replay(forest.drop_first(), trace.drop_first()),
{
    assert(Seq::<CodeView>::empty() + forest.drop_first() == forest.drop_first());
}

/// A block whose name the registry does not hold stays shut: nothing below
/// it runs, and the dispatch goes on with the block that follows it.
pub proof fn law_unknown_block_is_passed_over(forest: Seq<CodeView>, trace: Seq<Visit>)
    requires
        replay(forest, trace),
        forest.len() > 0,
        !trace[0].known,
    ensures
        !trace[0].opened,
        replay(forest.drop_first(), trace.drop_first()),
{
    assert(Seq::<CodeView>::empty() + forest.drop_first() == forest.drop_first());
}

/// Whether two event managers have the same listeners, registry and
/// tables.
pub open spec fn same_tables(a: EventManager, b: EventManager) -> bool {
    &&& a.listeners() == b.listeners()
    &&& a.code_blocks() == b.code_blocks()
    &&& a.variables() == b.variables()
    &&& a.data_values() == b.data_values()
}

/// After any number of steps that found no action, the engine is as it was,
/// and so are the listeners, the registry and the tables.
pub proof fn lemma_unknown_steps_change_nothing<C>(
    trace: Seq<Step<C>>,
    engine: C,
    manager: EventManager,
    engine_end: C,
    manager_end: EventManager,
    upto: int,
)
    requires
        chained(trace, engine, manager, engine_end, manager_end),
        forall|i: int| 0 <= i < trace.len() ==> (#[trigger] trace[i]).settled(),
        no_action(visits(trace)),
        0 <= upto < trace.len(),
    ensures
        trace[upto].engine_after == engine,
        same_tables(trace[upto].manager_after, manager),
    decreases upto,
{
    assert(visits(trace)[upto] == trace[upto].visit);
    assert(trace[upto].settled());
    if upto > 0 {
        lemma_unknown_steps_change_nothing(
            trace,
            engine,
            manager,
            engine_end,
            manager_end,
            upto - 1,
        );
    }
}

/// An unknown block is a safe no-op: a dispatch that reaches no block that
/// the registry knows leaves the engine as it was, and the listeners, the
/// registry and the tables of the event manager too.
pub proof fn law_unknown_blocks_change_nothing<C>(
    trace: Seq<Step<C>>,
    engine: C,
    manager: EventManager,
    engine_end: C,
    manager_end: EventManager,
)
    requires
        chained(trace, engine, manager, engine_end, manager_end),
        forall|i: int| 0 <= i < trace.len() ==> (#[trigger] trace[i]).settled(),
        no_action(visits(trace)),
    ensures
        engine_end == engine,
        same_tables(manager_end, manager),
{
    if trace.len() > 0 {
        lemma_unknown_steps_change_nothing(
            trace,
            engine,
            manager,
            engine_end,
            manager_end,
            trace.len() - 1,
        );
    }
}

/// Below a block whose action returned false nothing runs, unless the block
/// is `negated`: the dispatch goes on with the block that follows it. What
/// the action did stays as the action left it.
pub proof fn law_false_action_hides_what_is_below<C>(forest: Seq<CodeView>, trace: Seq<Step<C>>)
    requires
        replay(forest, visits(trace)),
        forest.len() > 0,
        trace[0].settled(),
        trace[0].action is Some,
        !trace[0].result,
        !forest[0].negated,
    ensures
        !trace[0].visit.opened,
        replay(forest.drop_first(), visits(trace).drop_first()),
        visits(trace).drop_first() == visits(trace.drop_first()),
{
    assert(visits(trace)[0] == trace[0].visit);
    assert(Seq::<CodeView>::empty() + forest.drop_first() == forest.drop_first());
    assert(visits(trace).drop_first() =~= visits(trace.drop_first()));
}

/// When every block is known, none is `negated` and every action returns
/// true, the dispatch reaches the blocks in pre-order: each block before
/// the blocks below it, these before the block that follows it.
pub proof fn law_true_actions_run_depth_first<C>(forest: Seq<CodeView>, trace: Seq<Step<C>>)
    requires
        replay(forest, visits(trace)),
        forall|i: int|
            0 <= i < trace.len() ==> (#[trigger] trace[i]).settled() && trace[i].action is Some
                && trace[i].result && !trace[i].visit.negated,
    ensures
        trace.len() == preorder(forest).len(),
        forall|i: int|
            0 <= i < trace.len() ==> (#[trigger] trace[i]).visit.block == preorder(
                forest,
            )[i].block && trace[i].visit.args == preorder(forest)[i].args,
{
    let reached = visits(trace);
    assert forall|i: int| 0 <= i < reached.len() implies (#[trigger] reached[i]).opened by {
        assert(trace[i].settled());
    }
    law_dispatch_is_depth_first(forest, reached);
    assert forall|i: int| 0 <= i < trace.len() implies (#[trigger] trace[i]).visit.block
        == preorder(forest)[i].block && trace[i].visit.args == preorder(forest)[i].args by {
        assert(reached[i] == trace[i].visit);
    }
}

/// The view of a result of the resolution that is a string.
pub open spec fn text_outcome(r: Result<String, ExprError>) -> Result<Seq<char>, ExprError> {
    match r {
        Ok(s) => Ok(s@),
        Err(e) => Err(e),
    }
}

/// The event manager.
pub struct EventManager {
    listeners: Vec<Listener>,
    code_blocks: StringHashMap<CodeBlockFunction>,
    variables: StringHashMap<String>,
    data_values: StringHashMap<String>,
    notes: Vec<String>,
}

impl EventManager {
    /// The registered listeners, in the order of registration.
    pub closed spec fn listeners(&self) -> Seq<ListenerView> {
        listener_views(self.listeners@)
    }

    /// The action registry.
    pub closed spec fn code_blocks(&self) -> Map<Seq<char>, CodeBlockFunction> {
        self.code_blocks@
    }

    /// The variables and their values.
    pub closed spec fn variables(&self) -> Map<Seq<char>, Seq<char>> {
        table(self.variables@)
    }

    /// The data values.
    pub closed spec fn data_values(&self) -> Map<Seq<char>, Seq<char>> {
        table(self.data_values@)
    }

    /// What the dispatcher has noted for the host to log and the host has
    /// not taken yet, oldest first.
    pub closed spec fn notes(&self) -> Seq<Seq<char>> {
        texts(self.notes@)
    }

    /// The action that the registry holds for a block name, looked up in lower case.
    pub open spec fn action_of(&self, block: Seq<char>) -> Option<CodeBlockFunction> {
        action_under(self.code_blocks(), lowercase_of(block))
    }

    /// Whether the registry holds an action for a block name.
    pub open spec fn knows(&self, block: Seq<char>) -> bool {
        self.action_of(block) is Some
    }

    /// An event manager without listeners, variables and data values, with
    /// the engine's own actions in its registry.
    pub fn new() -> (r: Self)
        ensures
            r.listeners() == Seq::<ListenerView>::empty(),
            r.code_blocks() == standard_actions(),
            r.variables() == Map::<Seq<char>, Seq<char>>::empty(),
            r.data_values() == Map::<Seq<char>, Seq<char>>::empty(),
            r.notes() == Seq::<Seq<char>>::empty(),
    {
        let r = EventManager {
            listeners: Vec::new(),
            code_blocks: ScriptingAPI::init_api().actions,
            variables: StringHashMap::new(),
            data_values: StringHashMap::new(),
            notes: Vec::new(),
        };
        assert(r.notes() =~= Seq::<Seq<char>>::empty());
        assert(r.listeners() =~= Seq::<ListenerView>::empty());
        assert(r.variables() =~= Map::<Seq<char>, Seq<char>>::empty());
        assert(r.data_values() =~= Map::<Seq<char>, Seq<char>>::empty());
        r
    }

    /// Registers a listener after those that are registered. A listener with
    /// the name and arguments of an earlier one is registered all the same.
    pub fn register_listener(&mut self, event_name: String, args: Vec<String>, subcode: Vec<Code>)
        ensures
            final(self).listeners() == old(self).listeners().push(
                ListenerView {
                    event_name: event_name@,
                    args: texts(args@),
                    code: forest_view(subcode@),
                },
            ),
            final(self).code_blocks() == old(self).code_blocks(),
            final(self).variables() == old(self).variables(),
            final(self).data_values() == old(self).data_values(),
            final(self).notes() == old(self).notes(),
    {
        let listener = Listener { event_name, args, code: subcode };
        self.listeners.push(listener);
        assert(self.listeners() =~= old(self).listeners().push(listener@));
    }

    /// Registers one listener for each block at the root of a script.
    pub fn run_script(&mut self, script: &Vec<Code>)
        ensures
            final(self).listeners() == old(self).listeners() + script_listeners(
                forest_view(script@),
            ),
            final(self).code_blocks() == old(self).code_blocks(),
            final(self).variables() == old(self).variables(),
            final(self).data_values() == old(self).data_values(),
            final(self).notes() == old(self).notes(),
    {
        let mut i: usize = 0;
        proof {
            lemma_forest_view(script@);
        }
        assert(old(self).listeners() + script_listeners(forest_view(script@)).take(0) =~= old(self).listeners());
        while i < script.len()
            invariant
                i <= script.len(),
                forest_view(script@).len() == script.len(),
                forall|k: int| 0 <= k < script.len() ==> (#[trigger] forest_view(script@)[k])
                    == script@[k]@,
                self.listeners() == old(self).listeners() + script_listeners(
                    forest_view(script@),
                ).take(i as int),
                self.code_blocks() == old(self).code_blocks(),
                self.variables() == old(self).variables(),
                self.data_values() == old(self).data_values(),
                self.notes() == old(self).notes(),
            decreases script.len() - i,
        {
            let event = &script[i];
            let ghost root = forest_view(script@)[i as int];
            assert(root == event@);
            let mut args: Vec<String> = Vec::new();
            let mut k: usize = 0;
            while k < event.args.len()
                invariant
                    k <= event.args.len(),
                    args.len() == k,
                    forall|j: int| 0 <= j < k ==> (#[trigger] args@[j])@ == event.args@[j]@.signature(),
                decreases event.args.len() - k,
            {
                args.push(event.args[k].to_signature());
                k += 1;
            }
            assert(texts(args@) =~= listener_of(root).args);
            let ghost before = self.listeners();
            self.register_listener(event.block.clone(), args, clone_forest(&event.subcode));
            assert(self.listeners() == before.push(listener_of(root)));
            assert(script_listeners(forest_view(script@)).take(i + 1) =~= script_listeners(
                forest_view(script@),
            ).take(i as int).push(listener_of(root)));
            assert(self.listeners() =~= old(self).listeners() + script_listeners(
                forest_view(script@),
            ).take(i + 1));
            i += 1;
        }
        assert(script_listeners(forest_view(script@)).take(script.len() as int)
            =~= script_listeners(forest_view(script@)));
    }

    /// Removes every listener that has this name and exactly these arguments.
    pub fn kill_listener(&mut self, event_name: &str, args: &[String])
        ensures
            final(self).listeners() == without(old(self).listeners(), event_name@, texts(args@)),
            final(self).code_blocks() == old(self).code_blocks(),
            final(self).variables() == old(self).variables(),
            final(self).data_values() == old(self).data_values(),
            final(self).notes() == old(self).notes(),
    {
        let mut kept: Vec<Listener> = Vec::new();
        let mut i: usize = 0;
        assert(listener_views(kept@) =~= Seq::<ListenerView>::empty());
        assert(listener_views(self.listeners@).take(0) =~= Seq::<ListenerView>::empty());
        while i < self.listeners.len()
            invariant
                i <= self.listeners.len(),
                *self == *old(self),
                listener_views(kept@) == without(
                    listener_views(self.listeners@).take(i as int),
                    event_name@,
                    texts(args@),
                ),
            decreases self.listeners.len() - i,
        {
            let listener = &self.listeners[i];
            let ghost all = listener_views(self.listeners@);
            let ghost before = listener_views(kept@);
            assert(all.take(i + 1).drop_last() == all.take(i as int));
            assert(all.take(i + 1).last() == listener@);
            let fires = same_str(listener.event_name.as_str(), event_name) && same_texts(
                listener.args.as_slice(),
                args,
            );
            if !fires {
                kept.push(listener.clone());
                assert(listener_views(kept@) =~= before.push(listener@));
            }
            i += 1;
        }
        assert(listener_views(self.listeners@).take(self.listeners.len() as int)
            == listener_views(self.listeners@));
        self.listeners = kept;
    }

    /// Removes every listener.
    pub fn kill_all_listeners(&mut self)
        ensures
            final(self).listeners() == Seq::<ListenerView>::empty(),
            final(self).code_blocks() == old(self).code_blocks(),
            final(self).variables() == old(self).variables(),
            final(self).data_values() == old(self).data_values(),
            final(self).notes() == old(self).notes(),
    {
        self.listeners.clear();
        assert(self.listeners() =~= Seq::<ListenerView>::empty());
    }

    /// Puts an action in the registry under a block name in lower case, in
    /// the place of the action that the name had, if it had one. The
    /// dispatcher then finds it for the name in any case.
    pub fn register_code_block(&mut self, block_name: &str, func: CodeBlockFunction)
        ensures
            final(self).code_blocks() == old(self).code_blocks().insert(
                lowercase_of(block_name@),
                func,
            ),
            final(self).action_of(block_name@) == Some(func),
            final(self).listeners() == old(self).listeners(),
            final(self).variables() == old(self).variables(),
            final(self).data_values() == old(self).data_values(),
            final(self).notes() == old(self).notes(),
    {
        self.register_under_key(lowercase(block_name), func);
    }

    /// Puts an action in the registry under a key, in the place of the
    /// action that the key had, if it had one.
    pub fn register_under_key(&mut self, key: String, func: CodeBlockFunction)
        ensures
            final(self).code_blocks() == old(self).code_blocks().insert(key@, func),
            final(self).listeners() == old(self).listeners(),
            final(self).variables() == old(self).variables(),
            final(self).data_values() == old(self).data_values(),
            final(self).notes() == old(self).notes(),
    {
        self.code_blocks.insert(key, func);
    }

    /// Sets a variable.
    pub fn set_variable_value(&mut self, name: String, data: String)
        ensures
            final(self).variables() == old(self).variables().insert(name@, data@),
            final(self).listeners() == old(self).listeners(),
            final(self).code_blocks() == old(self).code_blocks(),
            final(self).data_values() == old(self).data_values(),
            final(self).notes() == old(self).notes(),
    {
        proof {
            lemma_table_insert(self.variables@, name@, data);
        }
        self.variables.insert(name, data);
    }

    /// Sets a data value.
    pub fn set_data_value(&mut self, name: String, data: String)
        ensures
            final(self).data_values() == old(self).data_values().insert(name@, data@),
            final(self).listeners() == old(self).listeners(),
            final(self).code_blocks() == old(self).code_blocks(),
            final(self).variables() == old(self).variables(),
            final(self).notes() == old(self).notes(),
    {
        proof {
            lemma_table_insert(self.data_values@, name@, data);
        }
        self.data_values.insert(name, data);
    }

    /// Resolves the markup of an expression. Where the tables alone decide
    /// the result, it is the one that [`plain_outcome`] gives, and the engine
    /// is left as it was. Where the tables alone decide the bounds of every
    /// `%random` piece, each such piece makes way for an integer within its
    /// bounds, and the result is that of the text so drawn, each `%math`
    /// piece of it replaced by what the engine's `number_text` returned for
    /// the tree of its content, or by `MathErr` where the content has none.
    pub fn parse_expression<C: Numbers>(&self, expression: &str, engine_data: &mut C) -> (r: Result<
        String,
        ExprError,
    >)
        ensures
            is_plain(expression@, self.variables(), self.data_values()) ==> *final(engine_data)
                == *old(engine_data) && text_outcome(r) == plain_outcome(
                expression@,
                self.variables(),
                self.data_values(),
            ),
            !has_markup(expression@) ==> r is Ok && r->Ok_0@ == expression@,
            random_is_simple(
                expression@,
                0,
                self.variables(),
                self.data_values(),
            ) ==> exists|
                drawn: Seq<char>,
                told: Seq<Told<C>>,
            |
                #[trigger] resolution(
                    expression@,
                    self.variables(),
                    self.data_values(),
                    drawn,
                    told,
                    *old(engine_data),
                    *final(engine_data),
                    text_outcome(r),
                ) && (!has_piece(expression@, Markup::Random) ==> drawn == expression@) && (
                forall|i: int|
                    0 <= i < told.len() ==> (spec_evaluate((#[trigger] told[i]).content) is Err ==> told[i].answer
                        == "MathErr"@ && told[i].engine_after == told[i].engine_before) && (spec_evaluate(
                        told[i].content,
                    ) is Ok ==> exists|engine: &mut C, tree: MathExpr, text: String|
                        #[trigger] call_ensures(C::number_text, (engine, &tree), text) && *engine
                            == told[i].engine_before && *final(engine) == told[i].engine_after && tree@
                            == spec_evaluate(told[i].content)->Ok_0 && text@ == told[i].answer)),
    {
        let text = chars_of(expression);
        let (resolved, how) = resolve(&text, &self.variables, &self.data_values, engine_data);
        let r = match resolved {
            Ok(resolved) => Ok(string_of(&resolved)),
            Err(e) => Err(e),
        };
        proof {
            assert(text_outcome(r) == outcome_view(resolved));
            if random_is_simple(expression@, 0, self.variables(), self.data_values()) {
                assert(resolution(
                    expression@,
                    self.variables(),
                    self.data_values(),
                    how@.drawn,
                    how@.told,
                    *old(engine_data),
                    *engine_data,
                    text_outcome(r),
                ));
            }
        }
        r
    }

    /// The text that an expression resolves to, or `Error: ` and the
    /// message of the error that ended the resolution.
    pub fn get_expr<C: Numbers>(&self, expression: &str, engine_data: &mut C) -> (r: String)
        ensures
            is_plain(expression@, self.variables(), self.data_values()) ==> *final(engine_data)
                == *old(engine_data) && r@ == shown(
                plain_outcome(expression@, self.variables(), self.data_values()),
            ),
            !has_markup(expression@) ==> r@ == expression@,
            random_is_simple(
                expression@,
                0,
                self.variables(),
                self.data_values(),
            ) ==> exists|
                drawn: Seq<char>,
                told: Seq<Told<C>>,
                outcome: Result<Seq<char>, ExprError>,
            |
                #[trigger] resolution(
                    expression@,
                    self.variables(),
                    self.data_values(),
                    drawn,
                    told,
                    *old(engine_data),
                    *final(engine_data),
                    outcome,
                ) && r@ == shown(outcome) && (!has_piece(expression@, Markup::Random) ==> drawn
                    == expression@) && (
                forall|i: int|
                    0 <= i < told.len() ==> (spec_evaluate((#[trigger] told[i]).content) is Err ==> told[i].answer
                        == "MathErr"@ && told[i].engine_after == told[i].engine_before) && (spec_evaluate(
                        told[i].content,
                    ) is Ok ==> exists|engine: &mut C, tree: MathExpr, text: String|
                        #[trigger] call_ensures(C::number_text, (engine, &tree), text) && *engine
                            == told[i].engine_before && *final(engine) == told[i].engine_after && tree@
                            == spec_evaluate(told[i].content)->Ok_0 && text@ == told[i].answer)),
    {
        match self.parse_expression(expression, engine_data) {
            Ok(result) => result,
            Err(e) => {
                let mut shown_error = chars_of("Error: ");
                push_all(&mut shown_error, &chars_of(e.message().as_str()));
                string_of(&shown_error)
            },
        }
    }

    /// The text that takes the place of `%math(expression)`: what the engine
    /// makes of the tree of the expression, or `MathErr` when the expression
    /// has no tree. The result is always `Ok`.
    pub fn evaluate_math_expression<C: Numbers>(
        &self,
        expression: &str,
        engine_data: &mut C,
    ) -> (r: Result<String, ExprError>)
        ensures
            r is Ok,
            spec_evaluate(expression@) is Err ==> r->Ok_0@ == "MathErr"@ && *final(engine_data)
                == *old(engine_data),
            spec_evaluate(expression@) is Ok ==> exists|
                engine: &mut C,
                tree: MathExpr,
                text: String,
            |
                #[trigger] call_ensures(C::number_text, (engine, &tree), text)
                    && *engine == *old(engine_data) && *final(engine) == *final(engine_data)
                    && tree@ == spec_evaluate(expression@)->Ok_0 && text == r->Ok_0,
    {
        Ok(evaluate_math(expression, engine_data))
    }

    /// Runs the action `func` on the arguments of a block. An action on the
    /// tables is run here, with the effect that the action has; any other
    /// is handed to the engine, and the result and the states are those
    /// that the engine's `perform` left.
    fn call<C: Engine>(
        &mut self,
        func: CodeBlockFunction,
        engine_data: &mut C,
        args: &Vec<Value>,
    ) -> (gate: bool)
        ensures
            is_table_action(func) ==> table_action_effect(
                func,
                *old(engine_data),
                *final(engine_data),
                *old(self),
                *final(self),
                value_views(args@),
                gate,
            ),
            !is_table_action(func) ==> exists|engine: &mut C, manager: &mut EventManager|
                *engine == *old(engine_data) && *final(engine) == *final(engine_data) && *manager
                    == *old(self) && *final(manager) == *final(self) && #[trigger] call_ensures(
                    C::perform,
                    (engine, manager, func, args),
                    gate,
                ),
    {
        match func {
            CodeBlockFunction::Standard(Verb::Comment) => ScriptingAPI::comment(
                engine_data,
                self,
                args,
            ),
            CodeBlockFunction::Standard(Verb::SetVar) => ScriptingAPI::set_var(
                engine_data,
                self,
                args,
            ),
            CodeBlockFunction::Standard(Verb::SetData) => ScriptingAPI::set_datavalue(
                engine_data,
                self,
                args,
            ),
            CodeBlockFunction::Standard(Verb::CompareValues) => ScriptingAPI::compare_values(
                engine_data,
                self,
                args,
            ),
            _ => engine_data.perform(self, func, args),
        }
    }

    /// Notes for the host that the registry does not know a block.
    fn note_unknown_block(&mut self, block: &str)
        ensures
            noted(*old(self), *final(self), unknown_block_note(block@)),
    {
        let mut line = chars_of("Function for code block '");
        push_all(&mut line, &chars_of(block));
        push_all(&mut line, &chars_of("' not found"));
        let line = string_of(&line);
        self.notes.push(line);
        assert(self.notes() =~= old(self).notes().push(line@));
    }

    /// Hands the host what the dispatcher has noted, oldest first, and
    /// starts anew.
    pub fn take_notes(&mut self) -> (r: Vec<String>)
        ensures
            texts(r@) == old(self).notes(),
            final(self).notes() == Seq::<Seq<char>>::empty(),
            final(self).listeners() == old(self).listeners(),
            final(self).code_blocks() == old(self).code_blocks(),
            final(self).variables() == old(self).variables(),
            final(self).data_values() == old(self).data_values(),
    {
        let mut r: Vec<String> = Vec::new();
        core::mem::swap(&mut r, &mut self.notes);
        assert(self.notes() =~= Seq::<Seq<char>>::empty());
        r
    }

    /// The action that the registry holds under a key.
    pub fn action_under_key(&self, key: &str) -> (r: Option<CodeBlockFunction>)
        ensures
            r == action_under(self.code_blocks(), key@),
    {
        match self.code_blocks.get(key) {
            Some(func) => Some(*func),
            None => None,
        }
    }

    /// Runs one block and, when it opens, the blocks below it. The name of
    /// the block is looked up in lower case.
    pub fn run_block<C: Engine>(&mut self, engine_data: &mut C, code: &Code) -> (trace: Ghost<
        Seq<Step<C>>,
    >)
        ensures
            replay(seq![code@], visits(trace@)),
            chained(trace@, *old(engine_data), *old(self), *final(engine_data), *final(self)),
            forall|i: int| 0 <= i < trace@.len() ==> (#[trigger] trace@[i]).by_name(),
            forall|i: int|
                0 <= i < trace@.len() ==> (#[trigger] trace@[i]).settled() && (trace@[i].action is Some && !is_table_action(
                    trace@[i].action->Some_0,
                ) ==> exists|
                    engine: &mut C,
                    manager: &mut EventManager,
                    handed: CodeBlockFunction,
                    args: Vec<Value>,
                    result: bool,
                |
                    #[trigger] call_ensures(C::perform, (engine, manager, handed, &args), result)
                        && *engine == trace@[i].engine_before && *final(engine) == trace@[i].engine_after
                        && *manager == trace@[i].manager_before && *final(manager) == trace@[i].manager_after
                        && handed == trace@[i].action->Some_0 && value_views(args@) == trace@[i].visit.args
                        && result == trace@[i].result),
        decreases code, 2nat,
    {
        let key = lowercase(code.block.as_str());
        self.run_keyed_block(engine_data, code, key.as_str())
    }

    /// Runs one block that is looked up under `key`, and, when it opens, the
    /// blocks below it, each under its name in lower case.
    pub fn run_keyed_block<C: Engine>(&mut self, engine_data: &mut C, code: &Code, key: &str) -> (trace:
        Ghost<Seq<Step<C>>>)
        ensures
            replay(seq![code@], visits(trace@)),
            chained(trace@, *old(engine_data), *old(self), *final(engine_data), *final(self)),
            trace@[0].key == key@,
            forall|i: int| 0 < i < trace@.len() ==> (#[trigger] trace@[i]).by_name(),
            forall|i: int|
                0 <= i < trace@.len() ==> (#[trigger] trace@[i]).settled() && (trace@[i].action is Some && !is_table_action(
                    trace@[i].action->Some_0,
                ) ==> exists|
                    engine: &mut C,
                    manager: &mut EventManager,
                    handed: CodeBlockFunction,
                    args: Vec<Value>,
                    result: bool,
                |
                    #[trigger] call_ensures(C::perform, (engine, manager, handed, &args), result)
                        && *engine == trace@[i].engine_before && *final(engine) == trace@[i].engine_after
                        && *manager == trace@[i].manager_before && *final(manager) == trace@[i].manager_after
                        && handed == trace@[i].action->Some_0 && value_views(args@) == trace@[i].visit.args
                        && result == trace@[i].result),
        decreases code, 1nat,
    {
        let ghost engine_before = *engine_data;
        let ghost manager_before = *self;
        let ghost shut = Seq::<CodeView>::empty();
        proof {
            assert(shut + seq![code@].drop_first() =~= shut);
            assert(code@.subcode + seq![code@].drop_first() =~= code@.subcode);
            assert(code@.subcode == forest_view(code.subcode@));
            assert(code@.args == value_views(code.args@));
        }
        match self.action_under_key(key) {
            Some(func) => {
                let result = self.call(func, engine_data, &code.args);
                let opens = code.opens(result);
                let ghost here = Step {
                    visit: Visit {
                        block: code@.block,
                        args: code@.args,
                        negated: code@.negated,
                        known: true,
                        opened: opens,
                    },
                    key: key@,
                    action: Some(func),
                    result,
                    engine_before,
                    manager_before,
                    engine_after: *engine_data,
                    manager_after: *self,
                };
                assert(here.settled());
                if opens {
                    let below = self.run_blocks(engine_data, &code.subcode);
                    let ghost trace = seq![here] + below@;
                    proof {
                        lemma_chained_concat(
                            seq![here],
                            below@,
                            engine_before,
                            manager_before,
                            here.engine_after,
                            here.manager_after,
                            *engine_data,
                            *self,
                        );
                        assert(trace[0] == here);
                        assert forall|i: int| 0 < i < trace.len() implies trace[i] == below@[i
                            - 1] by {}
                        assert(visits(trace)[0] == here.visit);
                        assert(visits(trace).drop_first() =~= visits(below@));
                    }
                    Ghost(trace)
                } else {
                    let ghost trace = seq![here];
                    proof {
                        assert(trace[0] == here);
                        assert(visits(trace)[0] == here.visit);
                        assert(visits(trace).drop_first() =~= Seq::<Visit>::empty());
                        assert(replay(shut, Seq::<Visit>::empty()));
                    }
                    Ghost(trace)
                }
            },
            None => {
                self.note_unknown_block(code.block.as_str());
                let ghost here = Step {
                    visit: Visit {
                        block: code@.block,
                        args: code@.args,
                        negated: code@.negated,
                        known: false,
                        opened: false,
                    },
                    key: key@,
                    action: None,
                    result: false,
                    engine_before,
                    manager_before,
                    engine_after: engine_before,
                    manager_after: *self,
                };
                let ghost trace = seq![here];
                proof {
                    assert(trace[0] == here);
                    assert(visits(trace)[0] == here.visit);
                    assert(visits(trace).drop_first() =~= Seq::<Visit>::empty());
                    assert(replay(shut, Seq::<Visit>::empty()));
                }
                Ghost(trace)
            },
        }
    }

    /// Runs blocks one after the other, each with the blocks below it.
    pub fn run_blocks<C: Engine>(&mut self, engine_data: &mut C, codes: &Vec<Code>) -> (trace:
        Ghost<Seq<Step<C>>>)
        ensures
            replay(forest_view(codes@), visits(trace@)),
            chained(trace@, *old(engine_data), *old(self), *final(engine_data), *final(self)),
            forall|i: int| 0 <= i < trace@.len() ==> (#[trigger] trace@[i]).by_name(),
            forall|i: int|
                0 <= i < trace@.len() ==> (#[trigger] trace@[i]).settled() && (trace@[i].action is Some && !is_table_action(
                    trace@[i].action->Some_0,
                ) ==> exists|
                    engine: &mut C,
                    manager: &mut EventManager,
                    handed: CodeBlockFunction,
                    args: Vec<Value>,
                    result: bool,
                |
                    #[trigger] call_ensures(C::perform, (engine, manager, handed, &args), result)
                        && *engine == trace@[i].engine_before && *final(engine) == trace@[i].engine_after
                        && *manager == trace@[i].manager_before && *final(manager) == trace@[i].manager_after
                        && handed == trace@[i].action->Some_0 && value_views(args@) == trace@[i].visit.args
                        && result == trace@[i].result),
        decreases codes, 0nat,
    {
        let ghost mut trace = Seq::<Step<C>>::empty();
        let mut i: usize = 0;
        proof {
            lemma_forest_view(codes@);
            assert(forest_view(codes@).take(0) =~= Seq::<CodeView>::empty());
            assert(visits(trace) =~= Seq::<Visit>::empty());
        }
        while i < codes.len()
            invariant
                i <= codes.len(),
                forest_view(codes@).len() == codes.len(),
                forall|k: int| 0 <= k < codes.len() ==> (#[trigger] forest_view(codes@)[k])
                    == codes@[k]@,
                replay(forest_view(codes@).take(i as int), visits(trace)),
                chained(trace, *old(engine_data), *old(self), *engine_data, *self),
                forall|k: int| 0 <= k < trace.len() ==> (#[trigger] trace[k]).by_name(),
                forall|k: int|
                    0 <= k < trace.len() ==> (#[trigger] trace[k]).settled() && (trace[k].action is Some && !is_table_action(
                        trace[k].action->Some_0,
                    ) ==> exists|
                        engine: &mut C,
                        manager: &mut EventManager,
                        handed: CodeBlockFunction,
                        args: Vec<Value>,
                        result: bool,
                    |
                        #[trigger] call_ensures(C::perform, (engine, manager, handed, &args), result)
                            && *engine == trace[k].engine_before && *final(engine) == trace[k].engine_after
                            && *manager == trace[k].manager_before && *final(manager) == trace[k].manager_after
                            && handed == trace[k].action->Some_0 && value_views(args@) == trace[k].visit.args
                            && result == trace[k].result),
            decreases codes.len() - i,
        {
            let ghost done = forest_view(codes@).take(i as int);
            let ghost engine_between = *engine_data;
            let ghost manager_between = *self;
            let step = self.run_block(engine_data, &codes[i]);
            proof {
                lemma_replay_concat(done, visits(trace), seq![codes@[i as int]@], visits(step@));
                assert(forest_view(codes@).take(i + 1) =~= done + seq![codes@[i as int]@]);
                lemma_chained_concat(
                    trace,
                    step@,
                    *old(engine_data),
                    *old(self),
                    engine_between,
                    manager_between,
                    *engine_data,
                    *self,
                );
                let joined = trace + step@;
                assert forall|k: int| 0 <= k < joined.len() implies joined[k] == (if k
                    < trace.len() {
                    trace[k]
                } else {
                    step@[k - trace.len()]
                }) by {}
                trace = joined;
            }
            i += 1;
        }
        assert(forest_view(codes@).take(codes.len() as int) =~= forest_view(codes@));
        Ghost(trace)
    }

    /// Dispatches an event: runs the blocks of every listener that fires on
    /// it, as the listeners stand when the event comes.
    pub fn trigger_event<C: Engine>(
        &mut self,
        event_name: &str,
        args: &[String],
        engine_data: &mut C,
    ) -> (trace: Ghost<Seq<Step<C>>>)
        ensures
            replay(agenda(old(self).listeners(), event_name@, texts(args@)), visits(trace@)),
            chained(trace@, *old(engine_data), *old(self), *final(engine_data), *final(self)),
            forall|i: int| 0 <= i < trace@.len() ==> (#[trigger] trace@[i]).by_name(),
            forall|i: int|
                0 <= i < trace@.len() ==> (#[trigger] trace@[i]).settled() && (trace@[i].action is Some && !is_table_action(
                    trace@[i].action->Some_0,
                ) ==> exists|
                    engine: &mut C,
                    manager: &mut EventManager,
                    handed: CodeBlockFunction,
                    args: Vec<Value>,
                    result: bool,
                |
                    #[trigger] call_ensures(C::perform, (engine, manager, handed, &args), result)
                        && *engine == trace@[i].engine_before && *final(engine) == trace@[i].engine_after
                        && *manager == trace@[i].manager_before && *final(manager) == trace@[i].manager_after
                        && handed == trace@[i].action->Some_0 && value_views(args@) == trace@[i].visit.args
                        && result == trace@[i].result),
    {
        let listeners = self.snapshot();
        let ghost all = listener_views(listeners@);
        let ghost mut trace = Seq::<Step<C>>::empty();
        let mut i: usize = 0;
        assert(all.take(0) =~= Seq::<ListenerView>::empty());
        assert(visits(trace) =~= Seq::<Visit>::empty());
        while i < listeners.len()
            invariant
                i <= listeners.len(),
                all == listener_views(listeners@),
                all == old(self).listeners(),
                replay(agenda(all.take(i as int), event_name@, texts(args@)), visits(trace)),
                chained(trace, *old(engine_data), *old(self), *engine_data, *self),
                forall|k: int| 0 <= k < trace.len() ==> (#[trigger] trace[k]).by_name(),
                forall|k: int|
                    0 <= k < trace.len() ==> (#[trigger] trace[k]).settled() && (trace[k].action is Some && !is_table_action(
                        trace[k].action->Some_0,
                    ) ==> exists|
                        engine: &mut C,
                        manager: &mut EventManager,
                        handed: CodeBlockFunction,
                        args: Vec<Value>,
                        result: bool,
                    |
                        #[trigger] call_ensures(C::perform, (engine, manager, handed, &args), result)
                            && *engine == trace[k].engine_before && *final(engine) == trace[k].engine_after
                            && *manager == trace[k].manager_before && *final(manager) == trace[k].manager_after
                            && handed == trace[k].action->Some_0 && value_views(args@) == trace[k].visit.args
                            && result == trace[k].result),
            decreases listeners.len() - i,
        {
            let listener = &listeners[i];
            let ghost done = agenda(all.take(i as int), event_name@, texts(args@));
            assert(all.take(i + 1).drop_last() == all.take(i as int));
            assert(all.take(i + 1).last() == listener@);
            if same_str(listener.event_name.as_str(), event_name) && same_texts(
                listener.args.as_slice(),
                args,
            ) {
                let ghost engine_between = *engine_data;
                let ghost manager_between = *self;
                let step = self.run_blocks(engine_data, &listener.code);
                proof {
                    lemma_replay_concat(done, visits(trace), listener@.code, visits(step@));
                    lemma_chained_concat(
                        trace,
                        step@,
                        *old(engine_data),
                        *old(self),
                        engine_between,
                        manager_between,
                        *engine_data,
                        *self,
                    );
                    let joined = trace + step@;
                    assert forall|k: int| 0 <= k < joined.len() implies joined[k] == (if k
                        < trace.len() {
                        trace[k]
                    } else {
                        step@[k - trace.len()]
                    }) by {}
                    trace = joined;
                }
            } else {
                assert(done + Seq::<CodeView>::empty() == done);
            }
            i += 1;
        }
        assert(all.take(listeners.len() as int) == all);
        Ghost(trace)
    }

    /// A copy of the listeners as they stand.
    fn snapshot(&self) -> (r: Vec<Listener>)
        ensures
            listener_views(r@) == self.listeners(),
    {
        let mut r: Vec<Listener> = Vec::new();
        let mut i: usize = 0;
        while i < self.listeners.len()
            invariant
                i <= self.listeners.len(),
                r.len() == i,
                forall|k: int| 0 <= k < i ==> (#[trigger] r@[k])@ == self.listeners@[k]@,
            decreases self.listeners.len() - i,
        {
            r.push(self.listeners[i].clone());
            i += 1;
        }
        assert(listener_views(r@) =~= listener_views(self.listeners@));
        r
    }
}

} // verus!
