//! The scheduler: a second way to dispatch events, in which every event has
//! a worker of its own that waits for the arguments of the event. The
//! threads and channels belong to the program around the library; what a
//! worker does with the arguments it receives is decided here.
//!
//! A worker runs the blocks of its event when the arguments it receives are
//! the arguments that the event was registered with, each a string. It runs
//! every block whose name the commands hold and, whatever the command
//! returns, the blocks below it; names are looked up as they are written.

use vstd::prelude::*;
use crate::event_manager::{Visit, lemma_replay_concat, replay};
use crate::game_loader::{
    Code, CodeView, Value, ValueView, clone_forest, clone_values, forest_view, lemma_forest_view,
    value_views,
};
use crate::table::Table;
use crate::text::{same_str, texts};

verus! {

/// A command of the scheduler: an action on a state that it cannot change.
pub trait Command<S> {
    /// Runs the command on the arguments of a block.
    fn run(&self, args: Vec<Value>, game_state: &S) -> bool;
}

/// An event with a worker: the arguments that the worker waits for, and the
/// blocks that it runs when they come.
#[derive(Debug, PartialEq)]
pub struct ScheduledEvent {
    pub args: Vec<Value>,
    pub subcode: Vec<Code>,
}

/// Whether the arguments `args` are the arguments `event_args` of an event:
/// as many, and each argument of the event a string with the same text.
pub open spec fn accepted(event_args: Seq<ValueView>, args: Seq<Seq<char>>) -> bool {
    &&& event_args.len() == args.len()
    &&& forall|i: int| 0 <= i < args.len() ==> (#[trigger] event_args[i]) == ValueView::Text(args[i])
}

/// Decides [`accepted`].
pub fn accepts(event_args: &Vec<Value>, args: &[String]) -> (r: bool)
    ensures
        r == accepted(value_views(event_args@), texts(args@)),
{
    if event_args.len() != args.len() {
        return false;
    }
    let mut i: usize = 0;
    while i < args.len()
        invariant
            i <= args.len(),
            event_args.len() == args.len(),
            forall|k: int|
                0 <= k < i ==> (#[trigger] value_views(event_args@)[k]) == ValueView::Text(
                    texts(args@)[k],
                ),
        decreases args.len() - i,
    {
        let same = match event_args[i].as_str() {
            Some(written) => same_str(written, args[i].as_str()),
            None => false,
        };
        if !same {
            assert(value_views(event_args@)[i as int] != ValueView::Text(texts(args@)[i as int]));
            return false;
        }
        i += 1;
    }
    true
}

/// The scheduler: the commands and the events that have a worker.
pub struct Scheduler<F> {
    commands: Table<F>,
    events: Table<ScheduledEvent>,
}

impl<F> Scheduler<F> {
    /// The commands, by name.
    pub closed spec fn commands(&self) -> Map<Seq<char>, F> {
        self.commands@
    }

    /// The events that have a worker, by name.
    pub closed spec fn events(&self) -> Map<Seq<char>, ScheduledEvent> {
        self.events@
    }

    /// A scheduler with the given commands and no event.
    pub fn new(commands: Table<F>) -> (r: Self)
        ensures
            r.commands() == commands@,
            r.events() == Map::<Seq<char>, ScheduledEvent>::empty(),
    {
        Scheduler { commands, events: Table::new() }
    }

    /// Puts a command under a name, in the place of the command that the
    /// name had, if it had one.
    pub fn register_command(&mut self, command: &str, func: F)
        ensures
            final(self).commands() == old(self).commands().insert(command@, func),
            final(self).events() == old(self).events(),
    {
        self.commands.insert(String::from_str(command), func);
    }

    /// Puts each command of a list under its name, one after the other: a
    /// later command takes the place of an earlier one with its name.
    pub fn register_commands(&mut self, new_commands: Vec<(String, F)>)
        ensures
            final(self).commands() == with_commands(
                old(self).commands(),
                new_commands@,
                new_commands.len() as int,
            ),
            final(self).events() == old(self).events(),
    {
        let mut rest = new_commands;
        let ghost all = rest@;
        let ghost mut done: int = 0;
        assert(rest@ =~= all.subrange(0, all.len() as int));
        while rest.len() > 0
            invariant
                0 <= done <= all.len(),
                rest@ == all.subrange(done, all.len() as int),
                self.commands() == with_commands(old(self).commands(), all, done),
                self.events() == old(self).events(),
            decreases rest.len(),
        {
            let (name, func) = rest.remove(0);
            assert(all[done] == (name, func));
            self.commands.insert(name, func);
            proof {
                done = done + 1;
                assert(rest@ =~= all.subrange(done, all.len() as int));
            }
        }
    }

    /// The commands, to look names up in.
    pub fn command_table(&self) -> (r: &Table<F>)
        ensures
            r@ == self.commands(),
    {
        &self.commands
    }

    /// Gives an event a worker that waits for the arguments `event_args`, in
    /// the place of the worker that the event had, if it had one.
    pub fn register_event(&mut self, event_name: &str, event_args: Vec<Value>, subcode: Vec<Code>)
        ensures
            final(self).events() == old(self).events().insert(
                event_name@,
                ScheduledEvent { args: event_args, subcode },
            ),
            final(self).commands() == old(self).commands(),
    {
        self.events.insert(String::from_str(event_name), ScheduledEvent { args: event_args, subcode });
    }

    /// The blocks that the worker of an event runs when the event is
    /// triggered with `args`: those of the event when it has a worker that
    /// waits for these arguments, none otherwise.
    pub fn trigger_event(&self, event_name: &str, args: Vec<String>) -> (r: Option<Vec<Code>>)
        ensures
            match r {
                Some(blocks) => self.events().contains_key(event_name@) && accepted(
                    value_views(self.events()[event_name@].args@),
                    texts(args@),
                ) && forest_view(blocks@) == forest_view(self.events()[event_name@].subcode@),
                None => !self.events().contains_key(event_name@) || !accepted(
                    value_views(self.events()[event_name@].args@),
                    texts(args@),
                ),
            },
    {
        match self.events.get(event_name) {
            Some(event) => {
                if accepts(&event.args, args.as_slice()) {
                    Some(clone_forest(&event.subcode))
                } else {
                    None
                }
            },
            None => None,
        }
    }

    /// Whether the event has a worker to wake.
    pub fn stop_event(&mut self, event_name: &str) -> (r: bool)
        ensures
            r == old(self).events().contains_key(event_name@),
            *final(self) == *old(self),
    {
        self.events.contains_key(event_name)
    }

    /// Gives each block at the root of a script a worker: the name of the
    /// block is the name of the event, its arguments are the arguments that
    /// the worker waits for, the blocks below it are what the worker runs. Of
    /// two roots with one name the second takes the place of the first.
    pub fn run_script(&mut self, script: Vec<Code>)
        ensures
            final(self).commands() == old(self).commands(),
            forall|name: Seq<char>| #[trigger]
                final(self).events().contains_key(name) <==> old(self).events().contains_key(name)
                    || last_root(script@, name, script.len() as int) >= 0,
            forall|name: Seq<char>|
                last_root(script@, name, script.len() as int) < 0 && old(self).events().contains_key(name) ==> #[trigger] final(self).events()[name] == old(self).events()[name],
            forall|name: Seq<char>|
                last_root(script@, name, script.len() as int) >= 0 ==> is_worker_of(
                    #[trigger] final(self).events()[name],
                    script@[last_root(script@, name, script.len() as int)],
                ),
    {
        let mut i: usize = 0;
        while i < script.len()
            invariant
                i <= script.len(),
                self.commands() == old(self).commands(),
                forall|name: Seq<char>| #[trigger]
                    self.events().contains_key(name) <==> old(self).events().contains_key(name)
                        || last_root(script@, name, i as int) >= 0,
                forall|name: Seq<char>|
                    last_root(script@, name, i as int) < 0 && old(self).events().contains_key(name)
                        ==> #[trigger] self.events()[name] == old(self).events()[name],
                forall|name: Seq<char>|
                    last_root(script@, name, i as int) >= 0 ==> is_worker_of(
                        #[trigger] self.events()[name],
                        script@[last_root(script@, name, i as int)],
                    ),
            decreases script.len() - i,
        {
            let event = &script[i];
            proof {
                assert forall|name: Seq<char>|
                    -1 <= #[trigger] last_root(script@, name, i as int) < i by {
                    lemma_last_root(script@, name, i as int);
                }
            }
            self.register_event(
                event.block.as_str(),
                clone_values(&event.args),
                clone_forest(&event.subcode),
            );
            i += 1;
        }
    }
}

/// The commands after the first `k` commands of a list have been put under
/// their names, one after the other.
pub open spec fn with_commands<F>(
    commands: Map<Seq<char>, F>,
    added: Seq<(String, F)>,
    k: int,
) -> Map<Seq<char>, F>
    decreases k,
{
    if k <= 0 || k > added.len() {
        commands
    } else {
        with_commands(commands, added, k - 1).insert(added[k - 1].0@, added[k - 1].1)
    }
}

/// The place of the last of the first `k` roots of a script that has the
/// name; -1 when none has it.
pub open spec fn last_root(script: Seq<Code>, name: Seq<char>, k: int) -> int
    decreases k,
{
    if k <= 0 || k > script.len() {
        -1
    } else if script[k - 1].block@ == name {
        k - 1
    } else {
        last_root(script, name, k - 1)
    }
}

/// [`last_root`] is -1 or the place of a root.
pub proof fn lemma_last_root(script: Seq<Code>, name: Seq<char>, k: int)
    requires
        0 <= k <= script.len(),
    ensures
        -1 <= last_root(script, name, k) < k,
    decreases k,
{
    if k > 0 && script[k - 1].block@ != name {
        lemma_last_root(script, name, k - 1);
    }
}

/// Whether an event is the one that a root of a script stands for: the
/// worker waits for the arguments of the root and runs the blocks below it.
pub open spec fn is_worker_of(event: ScheduledEvent, root: Code) -> bool {
    value_views(event.args@) == value_views(root.args@) && forest_view(event.subcode@)
        == forest_view(root.subcode@)
}

/// Whether every step of a dispatch went as the scheduler has it: a block is
/// known exactly when the commands hold its name, and a known block opens.
pub open spec fn scheduled<F>(commands: Map<Seq<char>, F>, trace: Seq<Visit>) -> bool {
    forall|i: int|
        0 <= i < trace.len() ==> (#[trigger] trace[i]).known == commands.contains_key(
            trace[i].block,
        ) && trace[i].opened == trace[i].known
}

/// Whether each known block of a dispatch had its command run: for every
/// step with a known block there is a call of the command that the
/// commands hold under the name of the block, on the arguments of the block
/// and on `game_state`.
pub open spec fn commands_ran<S, F: Command<S>>(
    commands: Map<Seq<char>, F>,
    trace: Seq<Visit>,
    game_state: S,
) -> bool {
    forall|i: int|
        0 <= i < trace.len() && (#[trigger] trace[i]).known ==> exists|
            command: F,
            args: Vec<Value>,
            state: S,
            result: bool,
        |
            #[trigger] call_ensures(F::run, (&command, args, &state), result) && command
                == commands[trace[i].block] && value_views(args@) == trace[i].args && state
                == game_state
}

/// Runs one block as a worker does: its command, if the commands hold its
/// name, and then the blocks below it, whatever the command returned.
pub fn run_block<S, F: Command<S>>(commands: &Table<F>, code: &Code, game_state: &S) -> (trace:
    Ghost<Seq<Visit>>)
    ensures
        replay(seq![code@], trace@),
        scheduled(commands@, trace@),
        commands_ran(commands@, trace@, *game_state),
    decreases code, 1nat,
{
    let ghost here = Visit {
        block: code@.block,
        args: code@.args,
        negated: code@.negated,
        known: commands@.contains_key(code.block@),
        opened: commands@.contains_key(code.block@),
    };
    match commands.get(code.block.as_str()) {
        Some(command) => {
            let _ = command.run(clone_values(&code.args), game_state);
            let below = run_blocks(commands, &code.subcode, game_state);
            let ghost trace = seq![here] + below@;
            proof {
                assert(trace[0] == here);
                assert(trace.drop_first() =~= below@);
                assert(code@.subcode + seq![code@].drop_first() =~= code@.subcode);
                assert(code@.subcode == forest_view(code.subcode@));
                assert(replay(seq![code@], trace));
                assert forall|i: int| 0 <= i < trace.len() implies (#[trigger] trace[i]).known
                    == commands@.contains_key(trace[i].block) && trace[i].opened
                    == trace[i].known by {
                    if i > 0 {
                        assert(trace[i] == below@[i - 1]);
                    }
                }
            }
            Ghost(trace)
        },
        None => {
            let ghost trace = seq![here];
            proof {
                assert(trace.drop_first() =~= Seq::<Visit>::empty());
                assert(Seq::<CodeView>::empty() + seq![code@].drop_first() =~= Seq::<
                    CodeView,
                >::empty());
                assert(replay(Seq::<CodeView>::empty(), Seq::<Visit>::empty()));
                assert(replay(seq![code@], trace));
            }
            Ghost(trace)
        },
    }
}

/// Runs blocks one after the other as a worker does.
pub fn run_blocks<S, F: Command<S>>(commands: &Table<F>, codes: &Vec<Code>, game_state: &S) -> (trace:
    Ghost<Seq<Visit>>)
    ensures
        replay(forest_view(codes@), trace@),
        scheduled(commands@, trace@),
        commands_ran(commands@, trace@, *game_state),
    decreases codes, 0nat,
{
    let ghost mut trace = Seq::<Visit>::empty();
    let mut i: usize = 0;
    proof {
        lemma_forest_view(codes@);
        assert(forest_view(codes@).take(0) =~= Seq::<CodeView>::empty());
    }
    while i < codes.len()
        invariant
            i <= codes.len(),
            forest_view(codes@).len() == codes.len(),
            forall|k: int| 0 <= k < codes.len() ==> (#[trigger] forest_view(codes@)[k])
                == codes@[k]@,
            replay(forest_view(codes@).take(i as int), trace),
            scheduled(commands@, trace),
            commands_ran(commands@, trace, *game_state),
        decreases codes.len() - i,
    {
        let ghost done = forest_view(codes@).take(i as int);
        let step = run_block(commands, &codes[i], game_state);
        proof {
            lemma_replay_concat(done, trace, seq![codes@[i as int]@], step@);
            assert(forest_view(codes@).take(i + 1) =~= done + seq![codes@[i as int]@]);
            let joined = trace + step@;
            assert forall|k: int| 0 <= k < joined.len() implies (#[trigger] joined[k]).known
                == commands@.contains_key(joined[k].block) && joined[k].opened
                == joined[k].known by {
                if k < trace.len() {
                    assert(joined[k] == trace[k]);
                } else {
                    assert(joined[k] == step@[k - trace.len()]);
                }
            }
            trace = joined;
        }
        i += 1;
    }
    assert(forest_view(codes@).take(codes.len() as int) =~= forest_view(codes@));
    Ghost(trace)
}

} // verus!
