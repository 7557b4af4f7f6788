use fnaf_engine::game_loader::{Code, Value};
use fnaf_engine::scheduler::{accepts, run_block, run_blocks, Command, ScheduledEvent, Scheduler};
use fnaf_engine::table::Table;
use std::cell::RefCell;

/// A command that writes its number down in the state and returns what it is told to.
struct Mark {
    number: usize,
    answer: bool,
}

impl Command<RefCell<Vec<usize>>> for Mark {
    fn run(&self, _args: Vec<Value>, game_state: &RefCell<Vec<usize>>) -> bool {
        game_state.borrow_mut().push(self.number);
        self.answer
    }
}

fn commands() -> Table<Mark> {
    let mut commands = Table::new();
    commands.insert("a".to_string(), Mark { number: 1, answer: true });
    commands.insert("b".to_string(), Mark { number: 2, answer: false });
    commands.insert("c".to_string(), Mark { number: 3, answer: true });
    commands
}

fn block(name: &str, subcode: Vec<Code>) -> Code {
    Code { negated: false, args: vec![], block: name.to_string(), subcode }
}

fn strings(items: &[&str]) -> Vec<String> {
    items.iter().map(|s| s.to_string()).collect()
}

fn texts(items: &[&str]) -> Vec<Value> {
    items.iter().map(|s| Value::Text(s.to_string())).collect()
}

#[test]
fn worker_runs_blocks_whatever_the_commands_return() {
    let state = RefCell::new(vec![]);
    let tree = block("a", vec![block("b", vec![block("c", vec![])]), block("c", vec![])]);
    run_block(&commands(), &tree, &state);
    assert_eq!(*state.borrow(), vec![1, 2, 3, 3]);
}

#[test]
fn worker_passes_over_unknown_blocks_and_what_is_below() {
    let state = RefCell::new(vec![]);
    let forest = vec![block("x", vec![block("a", vec![])]), block("A", vec![]), block("c", vec![])];
    run_blocks(&commands(), &forest, &state);
    assert_eq!(*state.borrow(), vec![3]);
}

#[test]
fn worker_accepts_its_arguments_only() {
    assert!(accepts(&texts(&["1", "2"]), &strings(&["1", "2"])));
    assert!(accepts(&vec![], &[]));
    assert!(!accepts(&texts(&["1", "2"]), &strings(&["1"])));
    assert!(!accepts(&texts(&["1"]), &strings(&["1", "2"])));
    assert!(!accepts(&texts(&["1", "2"]), &strings(&["2", "1"])));
    assert!(!accepts(&vec![Value::Number("1".to_string())], &strings(&["1"])));
    assert!(!accepts(&vec![Value::Bool(true)], &strings(&["true"])));
}

#[test]
fn scheduler_hands_the_blocks_of_an_event_to_its_worker() {
    let mut scheduler = Scheduler::new(commands());
    scheduler.register_event("go", texts(&["1"]), vec![block("a", vec![])]);
    scheduler.register_event("run", vec![], vec![block("b", vec![])]);
    assert_eq!(scheduler.trigger_event("go", strings(&["1"])), Some(vec![block("a", vec![])]));
    assert_eq!(scheduler.trigger_event("go", strings(&["2"])), None);
    assert_eq!(scheduler.trigger_event("go", vec![]), None);
    assert_eq!(scheduler.trigger_event("run", vec![]), Some(vec![block("b", vec![])]));
    assert_eq!(scheduler.trigger_event("stop", vec![]), None);
    scheduler.register_event("go", texts(&["2"]), vec![block("c", vec![])]);
    assert_eq!(scheduler.trigger_event("go", strings(&["1"])), None);
    assert_eq!(scheduler.trigger_event("go", strings(&["2"])), Some(vec![block("c", vec![])]));
    assert!(scheduler.stop_event("go"));
    assert!(!scheduler.stop_event("stop"));
}

#[test]
fn scheduler_gives_each_root_of_a_script_a_worker() {
    let mut scheduler = Scheduler::new(commands());
    scheduler.run_script(vec![
        Code { negated: false, args: texts(&["x"]), block: "go".to_string(), subcode: vec![block("a", vec![])] },
        block("run", vec![block("b", vec![])]),
        block("go", vec![block("c", vec![])]),
    ]);
    assert_eq!(scheduler.trigger_event("go", strings(&["x"])), None);
    assert_eq!(scheduler.trigger_event("go", vec![]), Some(vec![block("c", vec![])]));
    assert_eq!(scheduler.trigger_event("run", vec![]), Some(vec![block("b", vec![])]));
}

#[test]
fn scheduler_takes_new_commands() {
    let mut scheduler = Scheduler::new(Table::new());
    let state = RefCell::new(vec![]);
    run_block(scheduler.command_table(), &block("a", vec![]), &state);
    scheduler.register_command("a", Mark { number: 9, answer: true });
    run_block(scheduler.command_table(), &block("a", vec![]), &state);
    assert_eq!(*state.borrow(), vec![9]);
    let event = ScheduledEvent { args: vec![], subcode: vec![] };
    assert_eq!(event, ScheduledEvent { args: vec![], subcode: vec![] });
}

#[test]
fn scheduler_takes_a_list_of_commands_in_its_order() {
    let mut scheduler = Scheduler::new(commands());
    scheduler.register_commands(vec![
        ("a".to_string(), Mark { number: 7, answer: true }),
        ("d".to_string(), Mark { number: 8, answer: true }),
        ("a".to_string(), Mark { number: 9, answer: true }),
    ]);
    let state = RefCell::new(vec![]);
    run_blocks(scheduler.command_table(), &vec![block("a", vec![]), block("b", vec![]), block("d", vec![])], &state);
    assert_eq!(*state.borrow(), vec![9, 2, 8]);
}
