use fnaf_engine::event_manager::{Engine, EventManager};
use fnaf_engine::expression::{random_text, ExprError, Numbers, MAX_PASSES};
use fnaf_engine::game_loader::{Code, Value};
use fnaf_engine::markup::{find, holds_markup, Found, Markup};
use fnaf_engine::math_evaluator::{Function, MathExpr, Operation};
use fnaf_engine::scripting_api::{CodeBlockFunction, ScriptingAPI, Verb};
use fnaf_engine::text::{chars_of, string_of};

fn fold(tree: &MathExpr) -> f64 {
    match tree {
        MathExpr::Number(text) => text.parse().unwrap(),
        MathExpr::Binary(op, left, right) => {
            let a = fold(left);
            let b = fold(right);
            match op {
                Operation::Add => a + b,
                Operation::Subtract => a - b,
                Operation::Multiply => a * b,
                Operation::Divide => a / b,
            }
        }
        MathExpr::Apply(f, argument) => {
            let radians = fold(argument) * std::f64::consts::PI / 180.0;
            match f {
                Function::Sine => radians.sin(),
                Function::Cosine => radians.cos(),
            }
        }
    }
}

/// An engine that writes down the actions it is asked for.
struct Recorder {
    calls: Vec<(usize, Vec<Value>)>,
    shut: Vec<usize>,
    trees: usize,
}

impl Recorder {
    fn new() -> Recorder {
        Recorder { calls: Vec::new(), shut: Vec::new(), trees: 0 }
    }

    fn order(&self) -> Vec<usize> {
        self.calls.iter().map(|call| call.0).collect()
    }
}

impl Numbers for Recorder {
    fn number_text(&mut self, tree: &MathExpr) -> String {
        self.trees += 1;
        fold(tree).to_string()
    }
}

impl Engine for Recorder {
    fn perform(
        &mut self,
        event_manager: &mut EventManager,
        action: CodeBlockFunction,
        args: &Vec<Value>,
    ) -> bool {
        match action {
            CodeBlockFunction::Custom(99) => {
                event_manager.kill_all_listeners();
                self.calls.push((99, args.clone()));
                true
            }
            CodeBlockFunction::Custom(98) => {
                self.calls.push((98, args.clone()));
                event_manager.trigger_event("inner", &[], self);
                true
            }
            CodeBlockFunction::Custom(id) => {
                self.calls.push((id, args.clone()));
                !self.shut.contains(&id)
            }
            CodeBlockFunction::Standard(_) => {
                self.calls.push((1000, args.clone()));
                true
            }
        }
    }
}

fn block(name: &str, subcode: Vec<Code>) -> Code {
    Code { negated: false, args: Vec::new(), block: name.to_string(), subcode }
}

fn block_with(name: &str, args: Vec<Value>, subcode: Vec<Code>) -> Code {
    Code { negated: false, args, block: name.to_string(), subcode }
}

fn text(s: &str) -> Value {
    Value::Text(s.to_string())
}

fn strings(items: &[&str]) -> Vec<String> {
    items.iter().map(|s| s.to_string()).collect()
}

/// A manager that knows the blocks `a` to `e` as the custom actions 1 to 5.
fn manager() -> EventManager {
    let mut em = EventManager::new();
    em.register_code_block("a", CodeBlockFunction::Custom(1));
    em.register_code_block("b", CodeBlockFunction::Custom(2));
    em.register_code_block("c", CodeBlockFunction::Custom(3));
    em.register_code_block("d", CodeBlockFunction::Custom(4));
    em.register_code_block("e", CodeBlockFunction::Custom(5));
    em.register_code_block("clear", CodeBlockFunction::Custom(99));
    em.register_code_block("nest", CodeBlockFunction::Custom(98));
    em
}

fn resolve(em: &EventManager, expression: &str) -> String {
    em.get_expr(expression, &mut Recorder::new())
}

// Listeners

#[test]
fn listener_does_not_fire_on_other_arguments() {
    let mut em = manager();
    let mut engine = Recorder::new();
    em.register_listener("on_menu_start".to_string(), vec![], vec![block("a", vec![])]);
    em.trigger_event("on_menu_start", &strings(&["x"]), &mut engine);
    assert_eq!(engine.order(), Vec::<usize>::new());
    em.trigger_event("on_menu_start", &[], &mut engine);
    assert_eq!(engine.order(), vec![1]);
}

#[test]
fn listener_does_not_fire_on_another_name() {
    let mut em = manager();
    let mut engine = Recorder::new();
    em.register_listener("on_menu_start".to_string(), vec![], vec![block("a", vec![])]);
    em.trigger_event("on_menu_end", &[], &mut engine);
    em.trigger_event("On_menu_start", &[], &mut engine);
    em.trigger_event("", &[], &mut engine);
    assert_eq!(engine.order(), Vec::<usize>::new());
}

#[test]
fn arguments_match_in_number_order_and_content() {
    let mut em = manager();
    let mut engine = Recorder::new();
    em.register_listener("pick".to_string(), strings(&["1", "2"]), vec![block("a", vec![])]);
    em.trigger_event("pick", &strings(&["1"]), &mut engine);
    em.trigger_event("pick", &strings(&["2", "1"]), &mut engine);
    em.trigger_event("pick", &strings(&["1", "2", "3"]), &mut engine);
    em.trigger_event("pick", &strings(&["1", "3"]), &mut engine);
    em.trigger_event("pick", &strings(&["1", "2 "]), &mut engine);
    assert_eq!(engine.order(), Vec::<usize>::new());
    em.trigger_event("pick", &strings(&["1", "2"]), &mut engine);
    assert_eq!(engine.order(), vec![1]);
}

#[test]
fn listeners_fire_in_the_order_of_registration() {
    let mut em = manager();
    let mut engine = Recorder::new();
    em.register_listener("go".to_string(), vec![], vec![block("b", vec![])]);
    em.register_listener("stay".to_string(), vec![], vec![block("c", vec![])]);
    em.register_listener("go".to_string(), vec![], vec![block("a", vec![])]);
    em.trigger_event("go", &[], &mut engine);
    assert_eq!(engine.order(), vec![2, 1]);
}

#[test]
fn a_listener_registered_twice_fires_twice() {
    let mut em = manager();
    let mut engine = Recorder::new();
    em.register_listener("go".to_string(), vec![], vec![block("a", vec![])]);
    em.register_listener("go".to_string(), vec![], vec![block("a", vec![])]);
    em.trigger_event("go", &[], &mut engine);
    assert_eq!(engine.order(), vec![1, 1]);
}

#[test]
fn kill_listener_removes_what_matches_exactly() {
    let mut em = manager();
    let mut engine = Recorder::new();
    em.register_listener("go".to_string(), strings(&["1"]), vec![block("a", vec![])]);
    em.register_listener("go".to_string(), strings(&["2"]), vec![block("b", vec![])]);
    em.register_listener("go".to_string(), strings(&["1"]), vec![block("c", vec![])]);
    em.register_listener("run".to_string(), strings(&["1"]), vec![block("d", vec![])]);
    em.kill_listener("go", &strings(&["1"]));
    em.trigger_event("go", &strings(&["1"]), &mut engine);
    assert_eq!(engine.order(), Vec::<usize>::new());
    em.trigger_event("go", &strings(&["2"]), &mut engine);
    em.trigger_event("run", &strings(&["1"]), &mut engine);
    assert_eq!(engine.order(), vec![2, 4]);
}

#[test]
fn kill_listener_without_a_match_removes_nothing() {
    let mut em = manager();
    let mut engine = Recorder::new();
    em.register_listener("go".to_string(), strings(&["1"]), vec![block("a", vec![])]);
    em.kill_listener("go", &[]);
    em.kill_listener("gone", &strings(&["1"]));
    em.trigger_event("go", &strings(&["1"]), &mut engine);
    assert_eq!(engine.order(), vec![1]);
}

#[test]
fn kill_all_listeners_silences_every_event() {
    let mut em = manager();
    let mut engine = Recorder::new();
    em.register_listener("go".to_string(), vec![], vec![block("a", vec![])]);
    em.register_listener("run".to_string(), strings(&["1"]), vec![block("b", vec![])]);
    em.kill_all_listeners();
    em.trigger_event("go", &[], &mut engine);
    em.trigger_event("run", &strings(&["1"]), &mut engine);
    assert_eq!(engine.order(), Vec::<usize>::new());
    em.register_listener("go".to_string(), vec![], vec![block("c", vec![])]);
    em.trigger_event("go", &[], &mut engine);
    assert_eq!(engine.order(), vec![3]);
}

#[test]
fn dispatch_works_on_the_listeners_as_they_stood() {
    let mut em = manager();
    let mut engine = Recorder::new();
    em.register_listener("go".to_string(), vec![], vec![block("clear", vec![])]);
    em.register_listener("go".to_string(), vec![], vec![block("a", vec![])]);
    em.trigger_event("go", &[], &mut engine);
    assert_eq!(engine.order(), vec![99, 1]);
    em.trigger_event("go", &[], &mut engine);
    assert_eq!(engine.order(), vec![99, 1]);
}

#[test]
fn an_event_triggered_by_an_action_runs_before_the_next_block() {
    let mut em = manager();
    let mut engine = Recorder::new();
    em.register_listener("inner".to_string(), vec![], vec![block("b", vec![])]);
    em.register_listener("go".to_string(), vec![], vec![block("nest", vec![block("c", vec![])]), block("a", vec![])]);
    em.trigger_event("go", &[], &mut engine);
    assert_eq!(engine.order(), vec![98, 2, 3, 1]);
}

// Dispatch

fn family() -> Vec<Code> {
    vec![block("a", vec![block("b", vec![]), block("c", vec![block("d", vec![])])])]
}

#[test]
fn blocks_run_depth_first() {
    let mut em = manager();
    let mut engine = Recorder::new();
    em.register_listener("go".to_string(), vec![], family());
    em.trigger_event("go", &[], &mut engine);
    assert_eq!(engine.order(), vec![1, 2, 3, 4]);
}

#[test]
fn a_shut_block_hides_what_is_below_it() {
    let mut em = manager();
    let mut engine = Recorder::new();
    engine.shut = vec![3];
    em.register_listener("go".to_string(), vec![], family());
    em.trigger_event("go", &[], &mut engine);
    assert_eq!(engine.order(), vec![1, 2, 3]);
}

#[test]
fn a_shut_block_does_not_stop_the_blocks_after_it() {
    let mut em = manager();
    let mut engine = Recorder::new();
    engine.shut = vec![2];
    em.register_listener(
        "go".to_string(),
        vec![],
        vec![block("a", vec![block("b", vec![block("e", vec![])]), block("c", vec![])]), block("d", vec![])],
    );
    em.trigger_event("go", &[], &mut engine);
    assert_eq!(engine.order(), vec![1, 2, 3, 4]);
}

#[test]
fn an_unknown_block_is_passed_over() {
    let mut em = manager();
    let mut engine = Recorder::new();
    em.register_listener(
        "go".to_string(),
        vec![],
        vec![block("a", vec![]), block("nonexistent", vec![block("b", vec![])]), block("c", vec![])],
    );
    em.trigger_event("go", &[], &mut engine);
    assert_eq!(engine.order(), vec![1, 3]);
}

#[test]
fn run_block_of_an_unknown_block_does_nothing() {
    let mut em = manager();
    let mut engine = Recorder::new();
    em.run_block(&mut engine, &block("nonexistent", vec![block("a", vec![])]));
    assert_eq!(engine.order(), Vec::<usize>::new());
}

#[test]
fn run_block_runs_the_block_and_what_is_below() {
    let mut em = manager();
    let mut engine = Recorder::new();
    em.run_block(&mut engine, &family()[0]);
    assert_eq!(engine.order(), vec![1, 2, 3, 4]);
}

#[test]
fn run_blocks_runs_one_block_after_the_other() {
    let mut em = manager();
    let mut engine = Recorder::new();
    em.run_blocks(&mut engine, &vec![block("d", vec![]), block("a", vec![block("b", vec![])])]);
    assert_eq!(engine.order(), vec![4, 1, 2]);
}

#[test]
fn negated_inverts_the_result() {
    let mut em = manager();
    let mut engine = Recorder::new();
    engine.shut = vec![2];
    let open_but_negated =
        Code { negated: true, args: vec![], block: "a".to_string(), subcode: vec![block("d", vec![])] };
    let shut_but_negated =
        Code { negated: true, args: vec![], block: "b".to_string(), subcode: vec![block("e", vec![])] };
    em.run_blocks(&mut engine, &vec![open_but_negated, shut_but_negated]);
    assert_eq!(engine.order(), vec![1, 2, 5]);
}

#[test]
fn negated_does_not_open_an_unknown_block() {
    let mut em = manager();
    let mut engine = Recorder::new();
    let unknown =
        Code { negated: true, args: vec![], block: "nonexistent".to_string(), subcode: vec![block("a", vec![])] };
    em.run_block(&mut engine, &unknown);
    assert_eq!(engine.order(), Vec::<usize>::new());
}

#[test]
fn block_names_are_looked_up_in_lower_case() {
    let mut em = manager();
    let mut engine = Recorder::new();
    em.run_blocks(&mut engine, &vec![block("A", vec![]), block("\u{c9}", vec![])]);
    assert_eq!(engine.order(), vec![1]);
    em.register_code_block("\u{e9}", CodeBlockFunction::Custom(7));
    em.run_block(&mut engine, &block("\u{c9}", vec![]));
    assert_eq!(engine.order(), vec![1, 7]);
}

#[test]
fn a_name_registered_with_capitals_is_found_in_any_case() {
    let mut em = EventManager::new();
    let mut engine = Recorder::new();
    em.register_code_block("Shout", CodeBlockFunction::Custom(1));
    em.run_blocks(&mut engine, &vec![block("Shout", vec![]), block("shout", vec![]), block("SHOUT", vec![])]);
    assert_eq!(engine.order(), vec![1, 1, 1]);
    assert_eq!(em.action_under_key("shout"), Some(CodeBlockFunction::Custom(1)));
    assert_eq!(em.action_under_key("Shout"), None);
}

#[test]
fn a_key_with_capitals_is_never_found_by_name() {
    let mut em = EventManager::new();
    let mut engine = Recorder::new();
    em.register_under_key("Shout".to_string(), CodeBlockFunction::Custom(1));
    em.run_blocks(&mut engine, &vec![block("Shout", vec![]), block("shout", vec![])]);
    assert_eq!(engine.order(), Vec::<usize>::new());
    assert_eq!(em.action_under_key("Shout"), Some(CodeBlockFunction::Custom(1)));
    em.run_keyed_block(&mut engine, &block("anything", vec![block("a", vec![])]), "Shout");
    assert_eq!(engine.order(), vec![1]);
}

#[test]
fn run_keyed_block_looks_up_the_key_and_not_the_name() {
    let mut em = manager();
    let mut engine = Recorder::new();
    em.run_keyed_block(&mut engine, &block("nonexistent", vec![block("b", vec![])]), "a");
    assert_eq!(engine.order(), vec![1, 2]);
    em.run_keyed_block(&mut engine, &block("a", vec![block("b", vec![])]), "A");
    assert_eq!(engine.order(), vec![1, 2]);
    assert_eq!(em.take_notes(), vec!["Function for code block 'a' not found".to_string()]);
}

#[test]
fn an_unknown_block_is_noted_for_the_host() {
    let mut em = manager();
    let mut engine = Recorder::new();
    assert_eq!(em.take_notes(), Vec::<String>::new());
    em.register_listener(
        "go".to_string(),
        vec![],
        vec![block("a", vec![]), block("Nonexistent", vec![block("b", vec![])]), block("gone", vec![])],
    );
    em.trigger_event("go", &[], &mut engine);
    em.trigger_event("other", &[], &mut engine);
    assert_eq!(
        em.take_notes(),
        vec![
            "Function for code block 'Nonexistent' not found".to_string(),
            "Function for code block 'gone' not found".to_string(),
        ]
    );
    assert_eq!(em.take_notes(), Vec::<String>::new());
    em.trigger_event("go", &[], &mut engine);
    assert_eq!(em.take_notes().len(), 2);
}

#[test]
fn a_block_opens_when_the_result_differs_from_negated() {
    let plain = block("a", vec![]);
    let negated = Code { negated: true, args: vec![], block: "a".to_string(), subcode: vec![] };
    assert!(plain.opens(true) && !plain.opens(false));
    assert!(!negated.opens(true) && negated.opens(false));
}

#[test]
fn a_handler_that_clears_and_registers_leaves_its_listener() {
    let mut em = manager();
    let mut engine = Recorder::new();
    em.register_code_block("again", CodeBlockFunction::Custom(97));
    em.register_listener("go".to_string(), vec![], vec![block("clear", vec![]), block("a", vec![])]);
    em.register_listener("go".to_string(), vec![], vec![block("b", vec![])]);
    em.trigger_event("go", &[], &mut engine);
    assert_eq!(engine.order(), vec![99, 1, 2]);
    em.trigger_event("go", &[], &mut engine);
    assert_eq!(engine.order(), vec![99, 1, 2]);
}

#[test]
fn listeners_that_set_a_variable_run_in_the_order_of_registration() {
    let mut em = EventManager::new();
    let mut engine = Recorder::new();
    em.set_variable_value("t".to_string(), "".to_string());
    for s in ["1", "2"] {
        em.register_listener(
            "e".to_string(),
            vec![],
            vec![block_with("SET_VAR", vec![text("t"), text(&format!("%var(t){}", s))], vec![])],
        );
    }
    em.trigger_event("e", &[], &mut engine);
    assert_eq!(em.get_expr("%var(t)", &mut engine), "12");
    assert_eq!(engine.order(), Vec::<usize>::new());
}

#[test]
fn register_code_block_replaces_the_action_of_a_name() {
    let mut em = manager();
    let mut engine = Recorder::new();
    em.register_code_block("a", CodeBlockFunction::Custom(42));
    em.run_block(&mut engine, &block("a", vec![]));
    assert_eq!(engine.order(), vec![42]);
}

#[test]
fn actions_get_the_arguments_of_their_block() {
    let mut em = manager();
    let mut engine = Recorder::new();
    let args = vec![text("%var(x)"), Value::Number("3".to_string()), Value::Bool(true)];
    em.run_block(&mut engine, &block_with("a", args.clone(), vec![]));
    assert_eq!(engine.calls, vec![(1, args)]);
}

#[test]
fn the_standard_names_are_known_from_the_start() {
    let mut em = EventManager::new();
    let mut engine = Recorder::new();
    let names = [
        "start_night", "set_background", "hide_element", "show_element", "setoff", "set_text",
        "set_sprite", "is_button_selected", "is_image_selected", "ebutton_arrows", "dbutton_arrows",
        "windowed", "fullscreen", "hide_mouse", "show_mouse", "office", "hide_office_object",
        "show_office_object", "is_mouse_over_object", "is_mouse_over_sprite", "goto_menu",
        "play_sound", "stop_channel", "quit", "line",
    ];
    for name in names {
        em.run_block(&mut engine, &block(name, vec![]));
    }
    assert_eq!(engine.order(), vec![1000; 25]);
}

#[test]
fn init_api_names_each_action() {
    let api = ScriptingAPI::init_api();
    assert_eq!(api.actions.len(), 29);
    assert_eq!(api.actions.get("set_var"), Some(&CodeBlockFunction::Standard(Verb::SetVar)));
    assert_eq!(api.actions.get("set_data"), Some(&CodeBlockFunction::Standard(Verb::SetData)));
    assert_eq!(
        api.actions.get("is_image_selected"),
        Some(&CodeBlockFunction::Standard(Verb::IsButtonSelected))
    );
    assert_eq!(
        api.actions.get("is_mouse_over_sprite"),
        Some(&CodeBlockFunction::Standard(Verb::IsMouseOverObject))
    );
    assert_eq!(api.actions.get("ebutton_arrows"), Some(&CodeBlockFunction::Standard(Verb::EnableArrows)));
    assert_eq!(api.actions.get("play_sound"), Some(&CodeBlockFunction::Standard(Verb::PlaySound)));
    assert_eq!(api.actions.get("nonexistent"), None);
}

// Scripts

#[test]
fn run_script_registers_a_listener_for_each_root() {
    let mut em = manager();
    let mut engine = Recorder::new();
    let script = vec![
        block_with("on_menu_start", vec![], vec![block("a", vec![])]),
        block_with("button_clicked", vec![text("play")], vec![block("b", vec![]), block("c", vec![])]),
    ];
    em.run_script(&script);
    em.trigger_event("button_clicked", &strings(&["play"]), &mut engine);
    assert_eq!(engine.order(), vec![2, 3]);
    em.trigger_event("on_menu_start", &[], &mut engine);
    assert_eq!(engine.order(), vec![2, 3, 1]);
    em.trigger_event("button_clicked", &[], &mut engine);
    em.trigger_event("a", &[], &mut engine);
    assert_eq!(engine.order(), vec![2, 3, 1]);
}

#[test]
fn run_script_turns_arguments_into_their_signature() {
    let mut em = manager();
    let mut engine = Recorder::new();
    let args = vec![
        text("play"),
        Value::Number("12".to_string()),
        Value::Number("-1.5".to_string()),
        Value::Bool(true),
        Value::Bool(false),
        Value::Raw("null".to_string()),
        Value::Raw("[1,\"x\"]".to_string()),
    ];
    em.run_script(&vec![block_with("go", args, vec![block("a", vec![])])]);
    em.trigger_event("go", &strings(&["play", "12", "-1.5", "true", "false", "null", "[1,\"x\"]"]), &mut engine);
    assert_eq!(engine.order(), vec![1]);
}

fn signature_by_serde(s: &str) -> String {
    serde_json::Value::String(s.to_string()).to_string().trim_matches('"').to_string()
}

#[test]
fn signature_of_a_text_is_its_json_without_the_outer_quotes() {
    assert_eq!(text("play").to_signature(), "play");
    assert_eq!(text("").to_signature(), "");
    assert_eq!(text("two words").to_signature(), "two words");
    assert_eq!(text("a\"b").to_signature(), "a\\\"b");
    assert_eq!(text("back\\slash").to_signature(), "back\\\\slash");
    assert_eq!(text("line\nfeed\ttab").to_signature(), "line\\nfeed\\ttab");
    assert_eq!(text("\u{1}\u{1f}").to_signature(), "\\u0001\\u001f");
    assert_eq!(text("\u{8}\u{c}\r").to_signature(), "\\b\\f\\r");
    assert_eq!(text("\u{7f}\u{e9}\u{20ac}").to_signature(), "\u{7f}\u{e9}\u{20ac}");
    assert_eq!(text("\"quoted\"").to_signature(), "\\\"quoted\\");
    assert_eq!(text("\"").to_signature(), "\\");
}

#[test]
fn signature_of_a_text_is_what_serde_json_writes() {
    let samples = [
        "", "play", "a\"b", "\"", "\"\"", "\\", "\\\"", "x\\", "tab\t", "\u{0}\u{1}\u{2}\u{1e}\u{1f} ",
        "\u{8}\u{9}\u{a}\u{b}\u{c}\u{d}\u{e}", "/", "\u{7f}", "\u{80}\u{e9}\u{2028}\u{1f600}",
    ];
    for s in samples {
        assert_eq!(text(s).to_signature(), signature_by_serde(s));
        assert_eq!(text(s).to_json(), serde_json::Value::String(s.to_string()).to_string());
    }
}

#[test]
fn every_character_is_escaped_as_serde_json_escapes_it() {
    for n in 0..0x2100u32 {
        if let Some(c) = char::from_u32(n) {
            let s = format!("a{}b", c);
            assert_eq!(text(&s).to_json(), serde_json::Value::String(s.clone()).to_string(), "{:x}", n);
        }
    }
}

#[test]
fn json_of_the_other_values_is_their_text() {
    assert_eq!(Value::Number("12".to_string()).to_json(), "12");
    assert_eq!(Value::Bool(true).to_json(), "true");
    assert_eq!(Value::Bool(false).to_json(), "false");
    assert_eq!(Value::Raw("{\"a\":1}".to_string()).to_json(), "{\"a\":1}");
    assert_eq!(Value::Raw("\"x\"".to_string()).to_signature(), "x");
}

#[test]
fn values_show_what_they_hold() {
    assert_eq!(text("x").as_str(), Some("x"));
    assert_eq!(Value::Number("1".to_string()).as_str(), None);
    assert_eq!(Value::Bool(true).as_str(), None);
    assert_eq!(Value::Raw("null".to_string()).as_str(), None);
    assert_eq!(Value::Bool(true).as_bool(), Some(true));
    assert_eq!(Value::Bool(false).as_bool(), Some(false));
    assert_eq!(text("true").as_bool(), None);
}

#[test]
fn clone_of_a_block_is_the_block() {
    let code = block_with("a", vec![text("x"), Value::Bool(true)], family());
    assert_eq!(code.clone(), code);
}

// Expressions

#[test]
fn unresolved_variable_yields_inline_error() {
    let em = EventManager::new();
    assert_eq!(resolve(&em, "Hello %var(ghost)"), "Hello Variable 'ghost' not found.");
}

#[test]
fn unresolved_data_value_yields_inline_error() {
    let em = EventManager::new();
    assert_eq!(resolve(&em, "%data(ghost)!"), "Data Value 'ghost' not found.!");
}

#[test]
fn text_without_markup_is_unchanged() {
    let em = EventManager::new();
    for s in ["", "Hello", "100% sure", "%var", "%var(", "var(x)", "%VAR(x)", "%random(1)", "%random(,2)", "%random(1,)", "%var(a\nb)"] {
        assert_eq!(resolve(&em, s), s);
        assert_eq!(em.parse_expression(s, &mut Recorder::new()), Ok(s.to_string()));
    }
}

#[test]
fn resolved_text_resolves_to_itself() {
    let mut em = EventManager::new();
    em.set_variable_value("name".to_string(), "Mike".to_string());
    let once = resolve(&em, "Hello %var(name), %var(ghost)");
    assert_eq!(once, "Hello Mike, Variable 'ghost' not found.");
    assert_eq!(resolve(&em, &once), once);
}

#[test]
fn variables_and_data_values_are_looked_up() {
    let mut em = EventManager::new();
    em.set_variable_value("name".to_string(), "Mike".to_string());
    em.set_data_value("name".to_string(), "Schmidt".to_string());
    em.set_data_value("".to_string(), "nothing".to_string());
    assert_eq!(resolve(&em, "%var(name) %data(name)"), "Mike Schmidt");
    assert_eq!(resolve(&em, "%var(name)%var(name)"), "MikeMike");
    assert_eq!(resolve(&em, "%data()"), "nothing");
    assert_eq!(resolve(&em, "%var()"), "Variable '' not found.");
    assert_eq!(resolve(&em, "%var( name)"), "Variable ' name' not found.");
}

#[test]
fn setting_a_variable_again_replaces_its_value() {
    let mut em = EventManager::new();
    em.set_variable_value("n".to_string(), "1".to_string());
    em.set_variable_value("n".to_string(), "2".to_string());
    assert_eq!(resolve(&em, "%var(n)"), "2");
    assert_eq!(resolve(&em, "%data(n)"), "Data Value 'n' not found.");
}

#[test]
fn a_value_that_holds_markup_is_resolved_in_the_next_pass() {
    let mut em = EventManager::new();
    em.set_variable_value("a".to_string(), "%var(b)".to_string());
    em.set_variable_value("b".to_string(), "done".to_string());
    em.set_variable_value("d".to_string(), "%data(b)".to_string());
    em.set_data_value("b".to_string(), "data".to_string());
    em.set_data_value("v".to_string(), "%var(b)".to_string());
    assert_eq!(resolve(&em, "%var(a)"), "done");
    assert_eq!(resolve(&em, "%var(d)"), "data");
    assert_eq!(resolve(&em, "%data(v)"), "%var(b)");
}

#[test]
fn a_piece_ends_at_the_first_closing_parenthesis() {
    let mut em = EventManager::new();
    em.set_variable_value("x".to_string(), "y".to_string());
    assert_eq!(resolve(&em, "%var(x))"), "y)");
    assert_eq!(resolve(&em, "%var(%var(x))"), "Variable 'Variable 'x' not found.' not found.");
}

#[test]
fn a_value_that_names_itself_does_not_settle() {
    let mut em = EventManager::new();
    em.set_variable_value("x".to_string(), "%var(x)".to_string());
    assert_eq!(em.parse_expression("%var(x)", &mut Recorder::new()), Err(ExprError::Unsettled));
    assert_eq!(resolve(&em, "%var(x)"), "Error: Expression does not settle");
}

#[test]
fn markup_settles_within_the_passes_it_is_given() {
    let mut em = EventManager::new();
    em.set_variable_value("0".to_string(), "end".to_string());
    for i in 1..=MAX_PASSES {
        em.set_variable_value(i.to_string(), format!("%var({})", i - 1));
    }
    assert_eq!(resolve(&em, &format!("%var({})", MAX_PASSES - 1)), "end");
    assert_eq!(
        em.parse_expression(&format!("%var({})", MAX_PASSES), &mut Recorder::new()),
        Err(ExprError::Unsettled)
    );
}

#[test]
fn reserved_markup_resolves_to_a_visible_text() {
    let em = EventManager::new();
    assert_eq!(resolve(&em, "%ai(Freddy)"), "0");
    assert_eq!(resolve(&em, "<%mouse(x)>"), "<Mouse expressions are not implemented>");
    assert_eq!(resolve(&em, "<%game(x)>"), "<Game expressions are not implemented>");
}

#[test]
fn math_is_handed_to_the_engine_as_a_tree() {
    let em = EventManager::new();
    let mut engine = Recorder::new();
    assert_eq!(em.get_expr("%math(2+3*4) and %math(10/4)", &mut engine), "14 and 2.5");
    assert_eq!(engine.trees, 2);
    assert_eq!(em.get_expr("%math(1/0)", &mut engine), "inf");
    assert_eq!(em.get_expr("%math(-5+3)", &mut engine), "-2");
}

#[test]
fn math_that_cannot_be_read_resolves_to_matherr() {
    let em = EventManager::new();
    let mut engine = Recorder::new();
    assert_eq!(em.get_expr("%math(2+)", &mut engine), "MathErr");
    assert_eq!(em.get_expr("%math(two)", &mut engine), "MathErr");
    assert_eq!(em.get_expr("%math()", &mut engine), "MathErr");
    assert_eq!(em.get_expr("%math((1+2)*3)", &mut engine), "MathErr*3)");
    assert_eq!(engine.trees, 0);
}

#[test]
fn math_sees_variables_resolved() {
    let mut em = EventManager::new();
    em.set_variable_value("n".to_string(), "6".to_string());
    assert_eq!(resolve(&em, "%math(%var(n)*7)"), "42");
}

#[test]
fn evaluate_math_expression_is_always_ok() {
    let em = EventManager::new();
    let mut engine = Recorder::new();
    assert_eq!(em.evaluate_math_expression("2+3*4", &mut engine), Ok("14".to_string()));
    assert_eq!(em.evaluate_math_expression("sin(", &mut engine), Ok("MathErr".to_string()));
    assert_eq!(em.evaluate_math_expression("", &mut engine), Ok("MathErr".to_string()));
}

#[test]
fn random_stays_within_its_bounds() {
    let em = EventManager::new();
    let mut seen = [0usize; 6];
    for _ in 0..1000 {
        let n: usize = resolve(&em, "%random(1,5)").parse().unwrap();
        assert!((1..5).contains(&n));
        seen[n] += 1;
    }
    assert_eq!(seen[0] + seen[5], 0);
    for n in 1..5 {
        assert!(seen[n] > 150, "{:?}", seen);
    }
}

#[test]
fn random_of_one_value_is_that_value() {
    let em = EventManager::new();
    assert_eq!(resolve(&em, "a%random(7,8)b%random( -3 , -2 )c"), "a7b-3c");
    assert_eq!(resolve(&em, "%random(+4,5)"), "4");
    assert_eq!(resolve(&em, "%random(-2147483648,-2147483647)"), "-2147483648");
}

#[test]
fn random_resolves_its_first_bound() {
    let mut em = EventManager::new();
    em.set_variable_value("lo".to_string(), "7".to_string());
    assert_eq!(resolve(&em, "%random(%var(lo),8)"), "7");
    assert_eq!(resolve(&em, "%random(%math(3+4),8)"), "7");
}

#[test]
fn random_resolves_its_second_bound() {
    let mut em = EventManager::new();
    em.set_variable_value("hi".to_string(), "8".to_string());
    assert_eq!(em.parse_expression("%random(7,%var(hi))", &mut Recorder::new()), Ok("7".to_string()));
    assert_eq!(resolve(&em, "%random(7,%math(4+4))"), "7");
    assert_eq!(resolve(&em, "a%random(%var(hi),%math(4+4+1))b"), "a8b");
    em.set_variable_value("hi".to_string(), "3".to_string());
    for _ in 0..50 {
        let drawn = resolve(&em, "%random(1,%var(hi))");
        assert!(drawn == "1" || drawn == "2", "{}", drawn);
    }
}

#[test]
fn random_in_a_bound_of_random_is_resolved_first() {
    let em = EventManager::new();
    assert_eq!(resolve(&em, "%random(%random(4,5),%random(5,6))"), "4");
    assert_eq!(resolve(&em, "%random(1,2))"), "1)");
    assert_eq!(
        em.parse_expression("%random(1,(2)", &mut Recorder::new()),
        Ok("%random(1,(2)".to_string())
    );
}

#[test]
fn random_with_an_empty_range_is_an_error() {
    let em = EventManager::new();
    assert_eq!(em.parse_expression("%random(5,1)", &mut Recorder::new()), Err(ExprError::EmptyRange));
    assert_eq!(em.parse_expression("%random(5,5)", &mut Recorder::new()), Err(ExprError::EmptyRange));
    assert_eq!(resolve(&em, "%random(5,5)"), "Error: Random range is empty");
}

#[test]
fn random_with_a_bound_that_is_no_integer_is_an_error() {
    let em = EventManager::new();
    for s in ["%random(a,5)", "%random(1,b)", "%random(1.5,5)", "%random(1,2147483648)", "%random(-2147483649,0)", "%random( ,5)", "%random(1 2,5)", "%random(%var(ghost),5)"] {
        assert_eq!(em.parse_expression(s, &mut Recorder::new()), Err(ExprError::InvalidBound), "{}", s);
    }
    assert_eq!(resolve(&em, "%random(a,5)"), "Error: Random bound is not an integer");
}

#[test]
fn random_text_draws_from_the_range() {
    for _ in 0..200 {
        let drawn: i32 = string_of(&random_text(-2, 2).unwrap()).parse().unwrap();
        assert!((-2..2).contains(&drawn));
    }
    assert_eq!(random_text(3, 3), Err(ExprError::EmptyRange));
    assert_eq!(random_text(4, 3), Err(ExprError::EmptyRange));
    assert_eq!(random_text(i32::MAX - 1, i32::MAX), Ok(chars_of("2147483646")));
}

#[test]
fn random_is_resolved_before_variables() {
    let mut em = EventManager::new();
    em.set_variable_value("r".to_string(), "%random(1,2)".to_string());
    assert_eq!(resolve(&em, "%var(r)"), "%random(1,2)");
}

#[test]
fn messages_of_the_expression_errors() {
    assert_eq!(ExprError::InvalidBound.message(), "Random bound is not an integer");
    assert_eq!(ExprError::EmptyRange.message(), "Random range is empty");
    assert_eq!(ExprError::Unsettled.message(), "Expression does not settle");
}

// The markup grammar

fn pattern(kind: Markup) -> regex::Regex {
    regex::Regex::new(match kind {
        Markup::Random => r"%random\(([^,]+),([^)]+)\)",
        Markup::Var => r"%var\((.*?)\)",
        Markup::Data => r"%data\((.*?)\)",
        Markup::Math => r"%math\((.*?)\)",
        Markup::Ai => r"%ai\((.*?)\)",
        Markup::Mouse => r"%mouse\((.*?)\)",
        Markup::Game => r"%game\((.*?)\)",
    })
    .unwrap()
}

const KINDS: [Markup; 7] =
    [Markup::Random, Markup::Var, Markup::Data, Markup::Math, Markup::Ai, Markup::Mouse, Markup::Game];

const SAMPLES: [&str; 40] = [
    "", "plain", "%var(x)", "a%var(x)b%var(y)c", "%var()", "%var(", "%var(x", "%var(a\nb)", "%var(a\rb)",
    "%var(%var(x))", "%var(\n)%var(y)", "%%var(x)", "%var%var(x)", "%va%var(x)r(y)", "%var(x))%var(",
    "%random(1,5)", "%random(1,5", "%random(1)", "%random(,5)", "%random(1,)", "%random(1,2,3)",
    "%random(a)b,c)", "%random(\n,\n)", "%random(%random(1,2),5)", "%random(1,%random(2,3))",
    "%random(1,5)%random(2,6)", "x%random(1,5)y%random(,)z%random(7,8)", "%random(1,5))", "%random((1),5)",
    "%data(a)%math(1+2)%ai(f)%mouse(x)%game(y)", "%math((1+2)*3)", "%ai()", "%mouse(\n)", "%game(a", "%data",
    "%Var(x)", "% var(x)", "%var (x)", "%random (1,2)", "%random(1,2)%var(x)%random(3,4)",
];

/// The samples in which a bound of `%random` holds parentheses of its own.
const NESTED: [&str; 3] = ["%random(a)b,c)", "%random(%random(1,2),5)", "%random(1,%random(2,3))"];

#[test]
fn a_random_piece_closes_with_its_own_parenthesis() {
    assert_eq!(find(&chars_of("%random(a)b,c)"), Markup::Random, 0), None);
    assert_eq!(
        find(&chars_of("%random(%random(1,2),5)"), Markup::Random, 0),
        Some(Found { start: 0, first_from: 8, first_to: 20, second_from: 21, second_to: 22, end: 23 })
    );
    assert_eq!(
        find(&chars_of("%random(1,%random(2,3))"), Markup::Random, 0),
        Some(Found { start: 0, first_from: 8, first_to: 9, second_from: 10, second_to: 22, end: 23 })
    );
    assert_eq!(
        find(&chars_of("x%random(1,%var(hi))y"), Markup::Random, 0),
        Some(Found { start: 1, first_from: 9, first_to: 10, second_from: 11, second_to: 19, end: 20 })
    );
    assert_eq!(find(&chars_of("%random(1,%var(hi)"), Markup::Random, 0), None);
}

#[test]
fn pieces_are_found_where_the_patterns_match() {
    for kind in KINDS {
        let pattern = pattern(kind);
        for sample in SAMPLES {
            if kind == Markup::Random && NESTED.contains(&sample) {
                continue;
            }
            let text = chars_of(sample);
            let mut from = 0;
            for caps in pattern.captures_iter(sample) {
                let whole = caps.get(0).unwrap();
                let first = caps.get(1).unwrap();
                let found = find(&text, kind, from).unwrap_or_else(|| panic!("{:?} {:?}", kind, sample));
                assert_eq!((found.start, found.end), (whole.start(), whole.end()), "{:?} {:?}", kind, sample);
                assert_eq!((found.first_from, found.first_to), (first.start(), first.end()));
                match caps.get(2) {
                    Some(second) => {
                        assert_eq!((found.second_from, found.second_to), (second.start(), second.end()))
                    }
                    None => assert_eq!(found.second_from, found.second_to),
                }
                from = found.end;
            }
            assert_eq!(find(&text, kind, from), None, "{:?} {:?}", kind, sample);
        }
    }
}

#[test]
fn holds_markup_says_whether_any_pattern_matches() {
    for sample in SAMPLES {
        if NESTED.contains(&sample) {
            continue;
        }
        let expected = KINDS.iter().any(|kind| pattern(*kind).is_match(sample));
        assert_eq!(holds_markup(&chars_of(sample)), expected, "{:?}", sample);
    }
    assert!(!holds_markup(&chars_of("%random(a)b,c)")));
    assert!(holds_markup(&chars_of("%random(%random(1,2),5)")));
    assert!(holds_markup(&chars_of("%random(1,%random(2,3))")));
}

#[test]
fn positions_count_characters() {
    let text = chars_of("\u{e9}\u{20ac}%var(\u{1f600})!");
    assert_eq!(
        find(&text, Markup::Var, 0),
        Some(Found { start: 2, first_from: 7, first_to: 8, second_from: 8, second_to: 8, end: 9 })
    );
    let em = EventManager::new();
    assert_eq!(resolve(&em, "\u{e9}%var(\u{1f600})!"), "\u{e9}Variable '\u{1f600}' not found.!");
}

#[test]
fn find_starts_where_it_is_told() {
    let text = chars_of("%var(a)%var(b)");
    assert_eq!(find(&text, Markup::Var, 1).map(|f| f.start), Some(7));
    assert_eq!(find(&text, Markup::Var, 8), None);
    assert_eq!(find(&text, Markup::Var, 100), None);
}

// The actions of the event manager

fn run(em: &mut EventManager, engine: &mut Recorder, name: &str, args: Vec<Value>) -> Vec<usize> {
    let before = engine.calls.len();
    em.run_block(engine, &block_with(name, args, vec![block("a", vec![])]));
    engine.calls[before..].iter().map(|call| call.0).collect()
}

#[test]
fn set_var_sets_a_variable_and_opens() {
    let mut em = manager();
    let mut engine = Recorder::new();
    em.set_variable_value("who".to_string(), "name".to_string());
    assert_eq!(run(&mut em, &mut engine, "set_var", vec![text("%var(who)"), text("Mike %math(1+1)")]), vec![1]);
    assert_eq!(resolve(&em, "%var(name)"), "Mike 2");
    assert_eq!(resolve(&em, "%data(name)"), "Data Value 'name' not found.");
}

#[test]
fn set_data_sets_a_data_value_and_opens() {
    let mut em = manager();
    let mut engine = Recorder::new();
    assert_eq!(run(&mut em, &mut engine, "SET_DATA", vec![text("night"), text("3")]), vec![1]);
    assert_eq!(resolve(&em, "%data(night)"), "3");
    assert_eq!(resolve(&em, "%var(night)"), "Variable 'night' not found.");
}

#[test]
fn set_var_without_two_texts_stays_shut() {
    let mut em = manager();
    let mut engine = Recorder::new();
    assert_eq!(run(&mut em, &mut engine, "set_var", vec![text("n")]), Vec::<usize>::new());
    assert_eq!(run(&mut em, &mut engine, "set_var", vec![]), Vec::<usize>::new());
    assert_eq!(run(&mut em, &mut engine, "set_var", vec![text("n"), Value::Number("1".to_string())]), Vec::<usize>::new());
    assert_eq!(run(&mut em, &mut engine, "set_data", vec![Value::Bool(true), text("1")]), Vec::<usize>::new());
    assert_eq!(resolve(&em, "%var(n)"), "Variable 'n' not found.");
}

#[test]
fn comment_opens() {
    let mut em = manager();
    let mut engine = Recorder::new();
    assert_eq!(run(&mut em, &mut engine, "comment", vec![text("anything")]), vec![1]);
    assert_eq!(run(&mut em, &mut engine, "comment", vec![]), vec![1]);
}

fn compares(left: &str, operator: &str, right: &str) -> bool {
    let mut em = manager();
    em.set_variable_value("five".to_string(), "5".to_string());
    let mut engine = Recorder::new();
    run(&mut em, &mut engine, "compare_values", vec![text(left), text(operator), text(right)]) == vec![1]
}

#[test]
fn compare_values_compares_texts() {
    assert!(compares("5", "==", "5"));
    assert!(!compares("5", "==", "5.0"));
    assert!(compares("%var(five)", "==", "%math(2+3)"));
    assert!(compares("5", "<>", "6"));
    assert!(!compares("5", "<>", "5"));
    assert!(compares("b", ">", "a"));
    assert!(!compares("a", ">", "a"));
    assert!(compares("a", "<", "b"));
    assert!(!compares("b", "<", "a"));
    assert!(compares("a", ">=", "a"));
    assert!(compares("b", ">=", "a"));
    assert!(!compares("a", ">=", "b"));
    assert!(compares("a", "<=", "a"));
    assert!(compares("a", "<=", "b"));
    assert!(!compares("b", "<=", "a"));
}

#[test]
fn compare_values_orders_as_strings_do() {
    assert!(compares("10", "<", "9"));
    assert!(compares("", "<", "a"));
    assert!(compares("ab", "<", "abc"));
    assert!(compares("Z", "<", "a"));
    assert!(compares("z", "<", "\u{e9}"));
    assert!(compares("\u{ffff}", "<", "\u{10000}"));
    for (a, b) in [("", ""), ("a", "A"), ("abc", "abd"), ("abc", "ab"), ("\u{e9}", "z"), ("10", "9"), ("\u{ff}", "\u{100}")] {
        assert_eq!(compares(a, "<", b), a < b);
        assert_eq!(compares(a, ">", b), a > b);
        assert_eq!(compares(a, "<=", b), a <= b);
        assert_eq!(compares(a, ">=", b), a >= b);
    }
}

#[test]
fn compare_values_with_an_unknown_operator_stays_shut() {
    assert!(!compares("5", "=", "5"));
    assert!(!compares("5", "!=", "6"));
    assert!(!compares("5", "", "5"));
}

#[test]
fn compare_values_without_three_texts_stays_shut() {
    let mut em = manager();
    let mut engine = Recorder::new();
    assert_eq!(run(&mut em, &mut engine, "compare_values", vec![text("5"), text("==")]), Vec::<usize>::new());
    assert_eq!(
        run(&mut em, &mut engine, "compare_values", vec![text("true"), text("=="), Value::Bool(true)]),
        Vec::<usize>::new()
    );
}
