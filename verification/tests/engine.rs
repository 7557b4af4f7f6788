use fnaf_engine::button::Button2D;
use fnaf_engine::engine::{EngineData, Platform, MENU_SCENE, OFFICE_SCENE};
use fnaf_engine::event_manager::{Engine, EventManager};
use fnaf_engine::expression::Numbers;
use fnaf_engine::game_loader::{
    Animations, CameraPanel, Code, Element, Game, GameInfo, MaskPanel, Menu, Office, OfficeObject, Power,
    Properties, Sounds, Uibuttons, Value,
};
use fnaf_engine::math_evaluator::MathExpr;
use fnaf_engine::menu_manager::{ElementChange, MenuManager};
use fnaf_engine::office_data::{Animation, Button, Door, Light, Sprite};
use fnaf_engine::office_manager::{OfficeError, OfficeManager};
use fnaf_engine::scripting_api::{CodeBlockFunction, ScriptingAPI, Verb};
use fnaf_engine::table::Table;
use fnaf_engine::tick_events::{Event, MouseButton, MouseButton_to_i32, Pointer};

/// A platform that writes down what it is asked for.
#[derive(Debug, PartialEq)]
struct Desk {
    asked: Vec<CodeBlockFunction>,
}

impl Platform for Desk {
    fn number_text(&mut self, _tree: &MathExpr) -> String {
        "42".to_string()
    }

    fn perform(
        engine_data: &mut EngineData<Desk>,
        _event_manager: &mut EventManager,
        action: CodeBlockFunction,
        _args: &Vec<Value>,
    ) -> bool {
        engine_data.platform.asked.push(action);
        true
    }
}

fn element(kind: &str, id: &str) -> Element {
    Element {
        Blue: 0,
        Red: 0,
        Green: 0,
        fontname: String::new(),
        fontsize: 12,
        hidden: false,
        id: id.to_string(),
        animation: String::new(),
        text: id.to_uppercase(),
        kind: kind.to_string(),
        sprite: String::new(),
        animatronic: String::new(),
        x: 0,
        y: 0,
    }
}

fn image(id: &str, sprite: &str) -> Element {
    Element { sprite: sprite.to_string(), ..element("Image", id) }
}

fn block(name: &str, args: &[&str], subcode: Vec<Code>) -> Code {
    Code {
        negated: false,
        args: args.iter().map(|s| Value::Text(s.to_string())).collect(),
        block: name.to_string(),
        subcode,
    }
}

fn menu(music: &str, elements: Vec<Element>, code: Vec<Code>) -> Menu {
    Menu {
        code,
        elements,
        properties: Properties {
            BackgroundImage: "bg.png".to_string(),
            BackgroundColor: String::new(),
            BackgroundMusic: music.to_string(),
            ButtonArrows: true,
            FadeIn: false,
            MenuScroll: false,
            FadeOut: false,
            FadeSpeed: 0,
            Panorama: false,
            ButtonArrowStr: String::new(),
            ButtonArrowColor: String::new(),
            ButtonArrowFont: String::new(),
        },
    }
}

fn object(kind: &str, id: &str, animation: &str) -> OfficeObject {
    OfficeObject {
        clickstyle: false,
        id: id.to_string(),
        on_sprite: String::new(),
        position: vec![0, 0],
        close_sound: String::new(),
        open_sound: String::new(),
        animation: animation.to_string(),
        sound: String::new(),
        sprite: format!("{}.png", id),
        trigger: vec![],
        kind: kind.to_string(),
    }
}

fn office(objects: Vec<OfficeObject>) -> Office {
    let mut states = Table::new();
    states.insert("Default".to_string(), "office.png".to_string());
    states.insert("Dark".to_string(), "dark.png".to_string());
    Office {
        animations: Animations { camera: String::new(), mask: String::new(), powerout: String::new() },
        flashlight: true,
        mask: true,
        objects,
        panorama: true,
        power: Power { animatronic: String::new(), enabled: true, starting_level: 100, ucn: false },
        states,
        toxic: false,
        uibuttons: Uibuttons {
            camera: CameraPanel { image: String::new(), position: vec![] },
            mask: MaskPanel { image: String::new(), position: vec![] },
        },
    }
}

fn game() -> Game {
    let mut menus = Table::new();
    menus.insert(
        "Main".to_string(),
        menu(
            "theme",
            vec![
                element("Button", "play"),
                element("StaticText", "title"),
                image("logo", "logo.png"),
                image("blank", ""),
                Element { hidden: true, ..element("Button", "secret") },
                element("Button", "play"),
            ],
            vec![block("on_menu_start", &[], vec![block("hide_mouse", &[], vec![])])],
        ),
    );
    menus.insert("Extras".to_string(), menu("unknown", vec![element("Button", "back")], vec![]));
    let mut offices = Table::new();
    offices.insert(
        "Office".to_string(),
        office(vec![
            object("sprite", "desk", ""),
            object("door_button", "left_button", ""),
            object("animation", "fan", "fan_spin"),
            object("door", "left_door", "left_close"),
            object("light_button", "left_light", ""),
            object("poster", "poster", ""),
            object("sprite", "plush", ""),
        ]),
    );
    let mut office_scripts = Table::new();
    office_scripts.insert(
        "night.fescript".to_string(),
        vec![block("on_night_start", &[], vec![]), block("current_tick_equals", &["5"], vec![])],
    );
    office_scripts.insert("power.fescript".to_string(), vec![block("on_engine_start", &[], vec![])]);
    Game {
        animatronics: Table::new(),
        cameras: Table::new(),
        game_info: GameInfo { id: "test".to_string(), title: "Test".to_string(), style: 0 },
        menus,
        offices,
        sounds: Sounds {
            ambience: String::new(),
            animatronic_move: vec![],
            blip: String::new(),
            camdown: String::new(),
            camup: String::new(),
            flashlight: String::new(),
            maskbreathing: String::new(),
            maskoff: String::new(),
            maskon: String::new(),
            masktoxic: String::new(),
            music_box_run_out: String::new(),
            phone_calls: vec![],
            powerout: String::new(),
            signal_interrupted: String::new(),
            stare: String::new(),
        },
        loaded_extensions: vec![],
        office_scripts,
        animations: Table::new(),
    }
}

fn engine() -> EngineData<Desk> {
    let mut engine = EngineData::new(Desk { asked: vec![] }, game());
    engine.menumgr.curmenu = "Main".to_string();
    engine.audio.load_audio("theme", "theme.ogg");
    engine.audio.load_audio("blip", "blip.ogg");
    engine
}

fn main_menu(engine: &EngineData<Desk>) -> &Menu {
    engine.game.menus.get("Main").unwrap()
}

fn texts(args: &[&str]) -> Vec<Value> {
    args.iter().map(|s| Value::Text(s.to_string())).collect()
}

fn event(name: &str, args: &[&str]) -> Event {
    Event { name: name.to_string(), args: args.iter().map(|s| s.to_string()).collect() }
}

fn pointer(inside: &[bool]) -> Pointer {
    Pointer {
        inside: inside.to_vec(),
        left_down: false,
        left_up: true,
        middle_down: false,
        middle_up: true,
        right_down: false,
        right_up: true,
    }
}

// The engine

#[test]
fn new_engine_shows_no_menu_yet() {
    let engine = EngineData::new(Desk { asked: vec![] }, game());
    assert_eq!(engine.game, game());
    assert_eq!(engine.scene, MENU_SCENE);
    assert_eq!(engine.menumgr, MenuManager::new());
    assert_eq!(engine.officemgr, OfficeManager::new());
    assert_eq!(engine.buttons.len(), 0);
    assert_eq!(engine.clock.get_current_tick(), 0);
    assert!(!engine.fullscreen && engine.show_mouse && !engine.update_context && !engine.hovered);
    assert_eq!(engine.disabled_clicks, vec![false; 4]);
    assert!(!engine.needs_recache);
}

#[test]
fn new_managers_are_at_rest() {
    let menus = MenuManager::new();
    assert_eq!(menus.curmenu, "");
    assert!(menus.arrows_enabled);
    assert_eq!(menus.selected_button_id, "");
    let offices = OfficeManager::new();
    assert_eq!(offices.curoffice, "");
    assert_eq!(offices.game_data.night, 0);
    assert!(!offices.Loading_Lock && !offices.Loaded);
    assert_eq!(offices.hovered_id, "");
}

// Menus

#[test]
fn menu_buttons_are_made_for_what_can_be_clicked() {
    let mut engine = engine();
    engine.buttons.insert("stale".to_string(), Button2D::new("x".to_string(), vec![], false));
    MenuManager::recache_buttons(&mut engine);
    assert_eq!(engine.buttons.len(), 2);
    assert_eq!(
        engine.buttons.get("play"),
        Some(&Button2D::new("button_clicked".to_string(), vec!["play".to_string()], false))
    );
    assert_eq!(
        engine.buttons.get("logo"),
        Some(&Button2D::new("image_clicked".to_string(), vec!["logo".to_string()], true))
    );
    assert_eq!(engine.buttons.name_at(0), "play");
}

#[test]
fn menu_without_a_name_has_no_buttons() {
    let mut engine = engine();
    engine.menumgr.curmenu = "Nowhere".to_string();
    engine.buttons.insert("stale".to_string(), Button2D::new("x".to_string(), vec![], false));
    MenuManager::recache_buttons(&mut engine);
    assert_eq!(engine.buttons.len(), 0);
}

#[test]
fn recache_is_done_when_it_is_due() {
    let mut engine = engine();
    assert!(!engine.recache());
    assert_eq!(engine.buttons.len(), 0);
    engine.needs_recache = true;
    assert!(engine.recache());
    assert!(!engine.needs_recache);
    assert_eq!(engine.buttons.len(), 2);
    engine.scene = OFFICE_SCENE;
    engine.officemgr.curoffice = "Office".to_string();
    engine.needs_recache = true;
    assert!(engine.recache());
    assert_eq!(engine.buttons.len(), 4);
    engine.scene = 7;
    engine.needs_recache = true;
    assert!(engine.recache());
    assert_eq!(engine.buttons.len(), 4);
}

#[test]
fn elements_change_in_the_menu_that_is_shown() {
    let mut engine = engine();
    assert!(MenuManager::set_element_text("title", "Five Nights".to_string(), &mut engine));
    assert!(MenuManager::set_element_sprite("logo", "new.png".to_string(), &mut engine));
    assert!(MenuManager::hide_element("play", &mut engine));
    assert!(MenuManager::show_element("secret", &mut engine));
    let elements = &main_menu(&engine).elements;
    assert_eq!(elements[1].text, "Five Nights");
    assert_eq!(elements[2].sprite, "new.png");
    assert!(elements[0].hidden);
    assert!(!elements[5].hidden);
    assert!(!elements[4].hidden);
    assert_eq!(engine.game.menus.get("Extras"), game().menus.get("Extras"));
    assert!(MenuManager::change_element("play", ElementChange::Hidden(false), &mut engine));
    assert!(!main_menu(&engine).elements[0].hidden);
}

#[test]
fn unknown_elements_and_menus_change_nothing() {
    let mut engine = engine();
    assert!(!MenuManager::set_element_text("nothing", "x".to_string(), &mut engine));
    assert!(!MenuManager::hide_element("back", &mut engine));
    engine.menumgr.curmenu = "Nowhere".to_string();
    assert!(!MenuManager::hide_element("play", &mut engine));
    assert!(!MenuManager::set_background("x.png", &mut engine));
    assert_eq!(engine.game, game());
}

#[test]
fn background_changes_in_the_menu_that_is_shown() {
    let mut engine = engine();
    assert!(MenuManager::set_background("night.png", &mut engine));
    assert_eq!(main_menu(&engine).properties.BackgroundImage, "night.png");
    assert_eq!(main_menu(&engine).elements, game().menus.get("Main").unwrap().elements);
    assert_eq!(engine.game.menus.get("Extras").unwrap().properties.BackgroundImage, "bg.png");
}

#[test]
fn find_element_gives_the_first_with_the_id() {
    let elements = &game().menus.get("Main").unwrap().elements.clone();
    assert_eq!(MenuManager::find_element(elements, "play"), Some(0));
    assert_eq!(MenuManager::find_element(elements, "secret"), Some(4));
    assert_eq!(MenuManager::find_element(elements, "Play"), None);
}

#[test]
fn button_is_selected_when_the_pointer_is_on_it() {
    let mut engine = engine();
    MenuManager::recache_buttons(&mut engine);
    assert!(!MenuManager::is_button_selected("play".to_string(), &mut engine));
    engine.buttons.get_mut("play").unwrap().is_hovered = true;
    assert!(MenuManager::is_button_selected("play".to_string(), &mut engine));
    assert!(!MenuManager::is_button_selected("logo".to_string(), &mut engine));
    assert!(!MenuManager::is_button_selected("title".to_string(), &mut engine));
    assert!(!MenuManager::is_button_selected("nothing".to_string(), &mut engine));
    engine.buttons.insert("stray".to_string(), Button2D { is_hovered: true, ..Button2D::new(String::new(), vec![], false) });
    assert!(!MenuManager::is_button_selected("stray".to_string(), &mut engine));
}

#[test]
fn goto_menu_makes_way_for_the_script_of_the_menu() {
    let mut engine = engine();
    let mut em = EventManager::new();
    em.register_listener("old".to_string(), vec![], vec![block("show_mouse", &[], vec![])]);
    em.set_variable_value("kept".to_string(), "yes".to_string());
    engine.audio.play("blip", false);
    engine.scene = OFFICE_SCENE;
    engine.clock.increment();
    let asked = MenuManager::goto_menu("Main", &mut engine, &mut em);
    assert_eq!(asked, Some((vec!["blip".to_string()], Some("theme".to_string()))));
    assert_eq!(engine.menumgr.curmenu, "Main");
    assert_eq!(engine.scene, MENU_SCENE);
    assert!(engine.needs_recache);
    assert_eq!(engine.clock.get_current_tick(), 0);
    assert_eq!(engine.audio.sound_on_channel(0), Some("theme"));
    em.trigger_event("old", &[], &mut engine);
    assert!(engine.show_mouse);
    em.trigger_event("on_menu_start", &[], &mut engine);
    assert!(!engine.show_mouse);
    assert_eq!(em.get_expr("%var(kept)", &mut engine), "yes");
}

#[test]
fn goto_menu_without_music_starts_none() {
    let mut engine = engine();
    let mut em = EventManager::new();
    assert_eq!(MenuManager::goto_menu("Extras", &mut engine, &mut em), Some((vec![], None)));
    assert_eq!(engine.menumgr.curmenu, "Extras");
}

#[test]
fn goto_menu_to_nowhere_changes_nothing() {
    let mut engine = engine();
    let mut em = EventManager::new();
    em.register_listener("old".to_string(), vec![], vec![block("hide_mouse", &[], vec![])]);
    engine.audio.play("blip", false);
    assert_eq!(MenuManager::goto_menu("Nowhere", &mut engine, &mut em), None);
    assert_eq!(engine.menumgr.curmenu, "Main");
    assert!(!engine.needs_recache);
    assert_eq!(engine.audio.sound_on_channel(0), Some("blip"));
    em.trigger_event("old", &[], &mut engine);
    assert!(!engine.show_mouse);
}

// The office

fn fresh() -> Sprite {
    Sprite { visible: true, above_panorama: false, hovered: false }
}

#[test]
fn fill_office_fills_the_office() {
    let mut engine = engine();
    let mut em = EventManager::new();
    em.register_listener("old".to_string(), vec![], vec![block("hide_mouse", &[], vec![])]);
    engine.officemgr.curoffice = "Office".to_string();
    engine.officemgr.hovered_id = "desk".to_string();
    engine.audio.play("blip", false);
    engine.clock.increment();
    let stopped = OfficeManager::fill_office("Office".to_string(), 3, &mut engine, &mut em);
    assert_eq!(stopped, Ok(vec!["blip".to_string()]));
    let manager = &engine.officemgr;
    assert!(manager.Loading_Lock);
    assert_eq!(manager.hovered_id, "");
    assert_eq!(manager.curoffice, "Office");
    assert_eq!(manager.game_data.night, 3);
    let office = &manager.game_data.office;
    assert_eq!(office.states, game().offices.get("Office").unwrap().states);
    assert_eq!(office.state, "Default");
    assert_eq!(office.objects.len(), 6);
    for id in ["desk", "left_button", "fan", "left_door", "left_light", "plush"] {
        assert_eq!(office.objects.get(id), Some(&fresh()), "{}", id);
    }
    assert_eq!(office.objects.get("poster"), None);
    assert_eq!(office.sprites.len(), 2);
    assert_eq!(office.sprites.get("desk"), Some(&fresh()));
    assert_eq!(office.sprites.get("plush"), Some(&fresh()));
    assert_eq!(office.animations.len(), 1);
    assert_eq!(
        office.animations.get("fan"),
        Some(&Animation { id: "fan_spin".to_string(), is_playing: true, is_reversed: false })
    );
    assert_eq!(office.doors.len(), 1);
    assert_eq!(
        office.doors.get("left_door"),
        Some(&Door {
            is_closed: false,
            button: Button { is_on: false, clickable: true },
            animation: "left_close".to_string()
        })
    );
    assert_eq!(office.lights.len(), 1);
    assert_eq!(office.lights.get("left_light"), Some(&Light { is_on: false, clickable: false }));
    assert_eq!(engine.clock.get_current_tick(), 0);
    assert_eq!(engine.scene, MENU_SCENE);
    assert!(!engine.needs_recache);
    assert_eq!(engine.audio.sound_on_channel(0), None);
    em.trigger_event("old", &[], &mut engine);
    assert!(engine.show_mouse);
}

#[test]
fn fill_office_registers_the_office_scripts() {
    let mut engine = engine();
    let mut em = EventManager::new();
    em.register_code_block("mark", CodeBlockFunction::Custom(1));
    let mut scripts = Table::new();
    scripts.insert("a".to_string(), vec![block("go", &[], vec![block("mark", &[], vec![]), block("windowed", &[], vec![])])]);
    scripts.insert("b".to_string(), vec![block("go", &[], vec![block("fullscreen", &[], vec![])])]);
    engine.game.office_scripts = scripts;
    engine.officemgr.curoffice = "Office".to_string();
    assert!(OfficeManager::fill_office("Office".to_string(), 1, &mut engine, &mut em).is_ok());
    em.trigger_event("go", &[], &mut engine);
    assert_eq!(engine.platform.asked, vec![CodeBlockFunction::Custom(1)]);
    assert!(engine.fullscreen);
}

#[test]
fn fill_office_refuses_what_it_cannot_set_up() {
    let mut em = EventManager::new();
    em.register_listener("old".to_string(), vec![], vec![]);
    let mut engine = engine();
    assert_eq!(
        OfficeManager::fill_office("Office".to_string(), 1, &mut engine, &mut em),
        Err(OfficeError::NoCurrentOffice)
    );
    engine.officemgr.curoffice = "Office".to_string();
    engine.officemgr.Loading_Lock = true;
    assert_eq!(
        OfficeManager::fill_office("Office".to_string(), 1, &mut engine, &mut em),
        Err(OfficeError::AlreadyLoading)
    );
    engine.officemgr.Loading_Lock = false;
    assert_eq!(
        OfficeManager::fill_office("Cellar".to_string(), 1, &mut engine, &mut em),
        Err(OfficeError::UnknownOffice)
    );
    assert_eq!(engine.officemgr.game_data.office.objects.len(), 0);
    assert_eq!(engine.officemgr.game_data.night, 0);
}

#[test]
fn init_office_ends_in_the_office_scene() {
    let mut engine = engine();
    let mut em = EventManager::new();
    em.register_listener("old".to_string(), vec![], vec![block("hide_mouse", &[], vec![])]);
    em.set_variable_value("order".to_string(), "".to_string());
    let mut scripts = Table::new();
    scripts.insert(
        "a".to_string(),
        vec![
            block("on_night_start", &[], vec![block("set_var", &["order", "%var(order)n"], vec![])]),
            block("on_engine_start", &[], vec![block("set_var", &["order", "%var(order)e"], vec![]), block("quit", &[], vec![])]),
            block("old", &[], vec![block("fullscreen", &[], vec![])]),
        ],
    );
    engine.game.office_scripts = scripts;
    engine.officemgr.curoffice = "Office".to_string();
    engine.officemgr.hovered_id = "desk".to_string();
    engine.audio.play("blip", false);
    engine.clock.increment();
    let (stopped, _) = OfficeManager::init_office("Office".to_string(), 3, &mut engine, &mut em);
    assert_eq!(stopped, Ok(vec!["blip".to_string()]));
    assert_eq!(engine.scene, OFFICE_SCENE);
    assert!(engine.needs_recache);
    assert!(!engine.officemgr.Loading_Lock);
    assert_eq!(engine.officemgr.game_data.night, 3);
    assert_eq!(engine.officemgr.curoffice, "Office");
    assert_eq!(engine.officemgr.hovered_id, "");
    assert_eq!(engine.clock.get_current_tick(), 0);
    assert_eq!(engine.officemgr.game_data.office.objects.len(), 6);
    assert_eq!(em.get_expr("%var(order)", &mut engine), "en");
    assert_eq!(engine.platform.asked, vec![CodeBlockFunction::Standard(Verb::Quit)]);
    em.trigger_event("old", &[], &mut engine);
    assert!(engine.show_mouse && engine.fullscreen);
    assert!(OfficeManager::init_office("Office".to_string(), 4, &mut engine, &mut em).0.is_ok());
    assert_eq!(engine.officemgr.game_data.night, 4);
}

#[test]
fn init_office_refuses_what_it_cannot_set_up() {
    let mut em = EventManager::new();
    em.register_listener("on_engine_start".to_string(), vec![], vec![block("fullscreen", &[], vec![])]);
    let mut engine = engine();
    assert_eq!(
        OfficeManager::init_office("Office".to_string(), 1, &mut engine, &mut em).0,
        Err(OfficeError::NoCurrentOffice)
    );
    engine.officemgr.curoffice = "Office".to_string();
    engine.officemgr.Loading_Lock = true;
    assert_eq!(
        OfficeManager::init_office("Office".to_string(), 1, &mut engine, &mut em).0,
        Err(OfficeError::AlreadyLoading)
    );
    engine.officemgr.Loading_Lock = false;
    assert_eq!(
        OfficeManager::init_office("Cellar".to_string(), 1, &mut engine, &mut em).0,
        Err(OfficeError::UnknownOffice)
    );
    assert_eq!(engine.scene, MENU_SCENE);
    assert!(!engine.fullscreen && !engine.needs_recache);
    assert_eq!(engine.officemgr.game_data.night, 0);
}

#[test]
fn office_is_entered_and_finished() {
    let mut engine = engine();
    let mut em = EventManager::new();
    engine.officemgr.curoffice = "Office".to_string();
    OfficeManager::fill_office("Office".to_string(), 1, &mut engine, &mut em).unwrap();
    OfficeManager::enter_office(&mut engine);
    assert_eq!(engine.scene, OFFICE_SCENE);
    assert!(engine.needs_recache);
    assert!(engine.officemgr.Loading_Lock);
    OfficeManager::finish_office(&mut engine);
    assert!(!engine.officemgr.Loading_Lock);
    assert!(OfficeManager::fill_office("Office".to_string(), 2, &mut engine, &mut em).is_ok());
}

#[test]
fn office_buttons_are_made_for_what_can_be_clicked() {
    let mut engine = engine();
    engine.officemgr.curoffice = "Office".to_string();
    engine.buttons.insert("stale".to_string(), Button2D::new("x".to_string(), vec![], false));
    OfficeManager::recache_buttons(&mut engine);
    assert_eq!(engine.buttons.len(), 4);
    for id in ["desk", "left_button", "left_light", "plush"] {
        assert_eq!(
            engine.buttons.get(id),
            Some(&Button2D::new("on_sprite_clicked".to_string(), vec![id.to_string()], true)),
            "{}",
            id
        );
    }
    engine.officemgr.curoffice = "Cellar".to_string();
    OfficeManager::recache_buttons(&mut engine);
    assert_eq!(engine.buttons.len(), 0);
}

// The actions of the engine

fn run(engine: &mut EngineData<Desk>, em: &mut EventManager, name: &str, args: &[&str]) -> bool {
    let before = engine.show_mouse;
    engine.show_mouse = true;
    em.run_block(engine, &block(name, args, vec![block("hide_mouse", &[], vec![])]));
    let opened = !engine.show_mouse;
    engine.show_mouse = before;
    opened
}

#[test]
fn window_and_pointer_actions_ask_for_an_update() {
    let mut engine = engine();
    let mut em = EventManager::new();
    em.run_block(&mut engine, &block("fullscreen", &[], vec![]));
    assert!(engine.fullscreen && engine.update_context);
    engine.update_context = false;
    em.run_block(&mut engine, &block("windowed", &[], vec![]));
    assert!(!engine.fullscreen && engine.update_context);
    engine.update_context = false;
    em.run_block(&mut engine, &block("hide_mouse", &[], vec![]));
    assert!(!engine.show_mouse && engine.update_context);
    engine.update_context = false;
    em.run_block(&mut engine, &block("show_mouse", &[], vec![]));
    assert!(engine.show_mouse && engine.update_context);
}

#[test]
fn arrow_actions_switch_the_arrows() {
    let mut engine = engine();
    let mut em = EventManager::new();
    assert!(run(&mut engine, &mut em, "dbutton_arrows", &[]));
    assert!(!engine.menumgr.arrows_enabled);
    assert!(run(&mut engine, &mut em, "ebutton_arrows", &[]));
    assert!(engine.menumgr.arrows_enabled);
}

#[test]
fn element_actions_resolve_their_arguments() {
    let mut engine = engine();
    let mut em = EventManager::new();
    em.set_variable_value("which".to_string(), "title".to_string());
    assert!(run(&mut engine, &mut em, "set_text", &["%var(which)", "Night %math(1+1)"]));
    assert_eq!(main_menu(&engine).elements[1].text, "Night 42");
    assert!(run(&mut engine, &mut em, "set_sprite", &["logo", "%var(which).png"]));
    assert_eq!(main_menu(&engine).elements[2].sprite, "title.png");
    assert!(run(&mut engine, &mut em, "hide_element", &["%var(which)"]));
    assert!(main_menu(&engine).elements[1].hidden);
    assert!(run(&mut engine, &mut em, "show_element", &["%var(which)"]));
    assert!(!main_menu(&engine).elements[1].hidden);
    assert!(run(&mut engine, &mut em, "show_element", &["nothing"]));
    assert!(run(&mut engine, &mut em, "set_background", &["%var(which)"]));
    assert_eq!(main_menu(&engine).properties.BackgroundImage, "%var(which)");
}

#[test]
fn actions_without_their_arguments_stay_shut() {
    let mut engine = engine();
    let mut em = EventManager::new();
    for name in [
        "set_text", "set_sprite", "hide_element", "show_element", "set_background", "setoff",
        "is_button_selected", "is_mouse_over_object", "hide_office_object", "show_office_object",
    ] {
        assert!(!run(&mut engine, &mut em, name, &[]), "{}", name);
    }
    assert!(!run(&mut engine, &mut em, "set_text", &["title"]));
    assert!(!run(&mut engine, &mut em, "set_sprite", &["logo"]));
    assert_eq!(engine.game, game());
    assert_eq!(engine.officemgr, OfficeManager::new());
}

#[test]
fn setoff_chooses_the_office() {
    let mut engine = engine();
    let mut em = EventManager::new();
    em.set_data_value("office".to_string(), "Office".to_string());
    assert!(run(&mut engine, &mut em, "setoff", &["%data(office)"]));
    assert_eq!(engine.officemgr.curoffice, "Office");
}

#[test]
fn selection_actions_look_at_the_pointer() {
    let mut engine = engine();
    let mut em = EventManager::new();
    em.set_variable_value("b".to_string(), "play".to_string());
    MenuManager::recache_buttons(&mut engine);
    assert!(!run(&mut engine, &mut em, "is_button_selected", &["%var(b)"]));
    engine.buttons.get_mut("play").unwrap().is_hovered = true;
    assert!(run(&mut engine, &mut em, "is_button_selected", &["%var(b)"]));
    assert!(run(&mut engine, &mut em, "is_image_selected", &["play"]));
    assert!(!run(&mut engine, &mut em, "is_image_selected", &["logo"]));
}

#[test]
fn object_actions_show_hide_and_look() {
    let mut engine = engine();
    let mut em = EventManager::new();
    engine.officemgr.curoffice = "Office".to_string();
    OfficeManager::fill_office("Office".to_string(), 1, &mut engine, &mut em).unwrap();
    assert!(run(&mut engine, &mut em, "hide_office_object", &["desk"]));
    assert_eq!(engine.officemgr.game_data.office.objects.get("desk"), Some(&Sprite { visible: false, ..fresh() }));
    assert_eq!(engine.officemgr.game_data.office.objects.get("plush"), Some(&fresh()));
    assert!(run(&mut engine, &mut em, "show_office_object", &["desk"]));
    assert_eq!(engine.officemgr.game_data.office.objects.get("desk"), Some(&fresh()));
    assert!(!run(&mut engine, &mut em, "hide_office_object", &["poster"]));
    assert!(!run(&mut engine, &mut em, "show_office_object", &["poster"]));
    assert!(!run(&mut engine, &mut em, "is_mouse_over_object", &["desk"]));
    engine.officemgr.game_data.office.objects.get_mut("desk").unwrap().hovered = true;
    assert!(run(&mut engine, &mut em, "is_mouse_over_object", &["desk"]));
    assert!(run(&mut engine, &mut em, "is_mouse_over_sprite", &["desk"]));
    assert!(!run(&mut engine, &mut em, "is_mouse_over_sprite", &["poster"]));
}

#[test]
fn actions_beyond_the_engine_are_left_to_the_platform() {
    let mut engine = engine();
    let mut em = EventManager::new();
    em.register_code_block("mine", CodeBlockFunction::Custom(7));
    let names = ["start_night", "office", "goto_menu", "play_sound", "stop_channel", "quit", "line", "mine"];
    for name in names {
        assert!(run(&mut engine, &mut em, name, &[]), "{}", name);
    }
    assert_eq!(
        engine.platform.asked,
        vec![
            CodeBlockFunction::Standard(Verb::StartNight),
            CodeBlockFunction::Standard(Verb::Office),
            CodeBlockFunction::Standard(Verb::GotoMenu),
            CodeBlockFunction::Standard(Verb::PlaySound),
            CodeBlockFunction::Standard(Verb::StopChannel),
            CodeBlockFunction::Standard(Verb::Quit),
            CodeBlockFunction::Standard(Verb::Line),
            CodeBlockFunction::Custom(7),
        ]
    );
}

#[test]
fn run_standard_runs_what_the_engine_runs_itself() {
    let mut engine = engine();
    let mut em = EventManager::new();
    let args = texts(&["n", "1"]);
    assert_eq!(
        ScriptingAPI::run_standard(&mut engine, &mut em, CodeBlockFunction::Standard(Verb::SetVar), &args),
        Some(true)
    );
    assert_eq!(em.get_expr("%var(n)", &mut engine), "1");
    assert_eq!(
        ScriptingAPI::run_standard(&mut engine, &mut em, CodeBlockFunction::Standard(Verb::CompareValues), &args),
        Some(false)
    );
    assert_eq!(
        ScriptingAPI::run_standard(&mut engine, &mut em, CodeBlockFunction::Standard(Verb::Comment), &args),
        Some(true)
    );
    assert_eq!(
        ScriptingAPI::run_standard(&mut engine, &mut em, CodeBlockFunction::Standard(Verb::Quit), &args),
        None
    );
    assert_eq!(ScriptingAPI::run_standard(&mut engine, &mut em, CodeBlockFunction::Custom(0), &args), None);
    assert_eq!(engine.platform.asked, vec![]);
}

#[test]
fn perform_runs_its_own_actions_and_hands_on_the_rest() {
    let mut engine = engine();
    let mut em = EventManager::new();
    engine.update_context = false;
    let none: Vec<Value> = vec![];
    assert!(Engine::perform(&mut engine, &mut em, CodeBlockFunction::Standard(Verb::HideMouse), &none));
    assert!(!engine.show_mouse && engine.update_context);
    assert_eq!(engine.platform.asked, vec![]);
    assert!(!Engine::perform(&mut engine, &mut em, CodeBlockFunction::Standard(Verb::SetVar), &none));
    assert!(Engine::perform(&mut engine, &mut em, CodeBlockFunction::Standard(Verb::SetVar), &texts(&["n", "1"])));
    assert_eq!(em.get_expr("%var(n)", &mut engine), "1");
    assert_eq!(engine.platform.asked, vec![]);
    assert!(Engine::perform(&mut engine, &mut em, CodeBlockFunction::Standard(Verb::Quit), &none));
    assert!(Engine::perform(&mut engine, &mut em, CodeBlockFunction::Custom(3), &none));
    assert_eq!(
        engine.platform.asked,
        vec![CodeBlockFunction::Standard(Verb::Quit), CodeBlockFunction::Custom(3)]
    );
}

#[test]
fn the_engine_has_its_numbers_from_the_platform() {
    let mut engine = engine();
    engine.update_context = false;
    let tree = MathExpr::Number("7".to_string());
    assert_eq!(Numbers::number_text(&mut engine, &tree), "42");
    assert_eq!(engine.scene, MENU_SCENE);
    assert!(engine.show_mouse && !engine.fullscreen && !engine.update_context);
    assert_eq!(engine.platform.asked, vec![]);
}

// Ticks

#[test]
fn mouse_buttons_have_their_places() {
    assert_eq!(MouseButton_to_i32(MouseButton::Left), 0);
    assert_eq!(MouseButton_to_i32(MouseButton::Middle), 1);
    assert_eq!(MouseButton_to_i32(MouseButton::Right), 2);
}

#[test]
fn the_game_loop_has_two_events() {
    assert_eq!(
        ScriptingAPI::loop_events(120),
        vec![event("on_game_loop", &[""]), event("current_tick_equals", &["120"])]
    );
    assert_eq!(ScriptingAPI::loop_events(0)[1], event("current_tick_equals", &["0"]));
    assert_eq!(ScriptingAPI::loop_events(u64::MAX)[1], event("current_tick_equals", &["18446744073709551615"]));
}

#[test]
fn nothing_under_the_pointer_sets_nothing_off() {
    let mut engine = engine();
    MenuManager::recache_buttons(&mut engine);
    engine.hovered = true;
    engine.menumgr.selected_button_id = "play".to_string();
    assert_eq!(ScriptingAPI::TickEvents(&mut engine, &pointer(&[false, false])), vec![]);
    assert!(!engine.hovered);
    assert_eq!(engine.menumgr.selected_button_id, "");
    assert_eq!(engine.disabled_clicks, vec![false; 4]);
}

#[test]
fn a_button_under_the_pointer_is_selected_once() {
    let mut engine = engine();
    MenuManager::recache_buttons(&mut engine);
    assert_eq!(
        ScriptingAPI::TickEvents(&mut engine, &pointer(&[true, false])),
        vec![event("button_selected", &["play"]), event("any_button_selected", &[])]
    );
    assert!(engine.hovered);
    assert_eq!(engine.menumgr.selected_button_id, "play");
    assert!(engine.buttons.get("play").unwrap().is_hovered);
    assert_eq!(ScriptingAPI::TickEvents(&mut engine, &pointer(&[true, false])), vec![]);
    assert_eq!(ScriptingAPI::TickEvents(&mut engine, &pointer(&[])), vec![]);
    assert!(!engine.hovered);
    assert_eq!(
        ScriptingAPI::TickEvents(&mut engine, &pointer(&[false, true])),
        vec![event("image_selected", &["logo"]), event("any_button_selected", &[])]
    );
    assert_eq!(engine.menumgr.selected_button_id, "logo");
}

#[test]
fn the_last_button_under_the_pointer_is_the_selected_one() {
    let mut engine = engine();
    MenuManager::recache_buttons(&mut engine);
    assert_eq!(
        ScriptingAPI::TickEvents(&mut engine, &pointer(&[true, true, true])),
        vec![event("image_selected", &["logo"]), event("any_button_selected", &[])]
    );
    assert_eq!(engine.menumgr.selected_button_id, "logo");
}

#[test]
fn a_click_on_a_button_triggers_its_event_once() {
    let mut engine = engine();
    MenuManager::recache_buttons(&mut engine);
    engine.hovered = true;
    let pressed = Pointer { left_down: true, left_up: false, ..pointer(&[true]) };
    assert_eq!(
        ScriptingAPI::TickEvents(&mut engine, &pressed),
        vec![event("button_clicked", &["play"]), event("user_left_clicked", &[])]
    );
    assert_eq!(engine.disabled_clicks, vec![true, false, false, true]);
    assert_eq!(ScriptingAPI::TickEvents(&mut engine, &pressed), vec![]);
    assert_eq!(engine.disabled_clicks, vec![true, false, false, false]);
    assert_eq!(ScriptingAPI::TickEvents(&mut engine, &pointer(&[true])), vec![]);
    assert_eq!(engine.disabled_clicks, vec![false; 4]);
    assert_eq!(
        ScriptingAPI::TickEvents(&mut engine, &pressed),
        vec![event("button_clicked", &["play"]), event("user_left_clicked", &[])]
    );
}

#[test]
fn a_button_without_an_event_triggers_none() {
    let mut engine = engine();
    engine.buttons.insert("mute".to_string(), Button2D::new(String::new(), vec![], false));
    engine.hovered = true;
    let pressed = Pointer { left_down: true, left_up: false, ..pointer(&[true]) };
    assert_eq!(ScriptingAPI::TickEvents(&mut engine, &pressed), vec![event("user_left_clicked", &[])]);
    assert_eq!(engine.disabled_clicks, vec![true, false, false, false]);
}

#[test]
fn mouse_buttons_click_once_per_press() {
    let mut engine = engine();
    let all_down = Pointer {
        inside: vec![],
        left_down: true,
        left_up: false,
        middle_down: true,
        middle_up: false,
        right_down: true,
        right_up: false,
    };
    assert_eq!(
        ScriptingAPI::TickEvents(&mut engine, &all_down),
        vec![event("user_left_clicked", &[]), event("user_right_clicked", &[]), event("user_middle_clicked", &[])]
    );
    assert_eq!(engine.disabled_clicks, vec![true, true, true, false]);
    assert_eq!(ScriptingAPI::TickEvents(&mut engine, &all_down), vec![]);
    let right_held = Pointer { right_down: true, right_up: false, ..pointer(&[]) };
    assert_eq!(ScriptingAPI::TickEvents(&mut engine, &right_held), vec![]);
    assert_eq!(engine.disabled_clicks, vec![false, false, true, false]);
    assert_eq!(ScriptingAPI::TickEvents(&mut engine, &all_down).len(), 2);
}

#[test]
fn in_the_office_the_pointer_comes_to_objects() {
    let mut engine = engine();
    let mut em = EventManager::new();
    engine.officemgr.curoffice = "Office".to_string();
    OfficeManager::fill_office("Office".to_string(), 1, &mut engine, &mut em).unwrap();
    OfficeManager::enter_office(&mut engine);
    engine.recache();
    engine.menumgr.selected_button_id = "kept".to_string();
    assert_eq!(
        ScriptingAPI::TickEvents(&mut engine, &pointer(&[true, true])),
        vec![event("image_selected", &["left_button"]), event("any_button_selected", &[])]
    );
    let objects = &engine.officemgr.game_data.office.objects;
    assert_eq!(engine.officemgr.hovered_id, "left_button");
    assert!(objects.get("left_button").unwrap().hovered);
    assert!(!objects.get("desk").unwrap().hovered);
    assert_eq!(engine.menumgr.selected_button_id, "kept");
    ScriptingAPI::TickEvents(&mut engine, &pointer(&[false, false, false, true]));
    let objects = &engine.officemgr.game_data.office.objects;
    assert_eq!(engine.officemgr.hovered_id, "plush");
    assert!(objects.get("plush").unwrap().hovered);
    assert!(!objects.get("left_button").unwrap().hovered);
    ScriptingAPI::TickEvents(&mut engine, &pointer(&[]));
    assert_eq!(engine.officemgr.hovered_id, "plush");
    assert!(engine.officemgr.game_data.office.objects.get("plush").unwrap().hovered);
    assert_eq!(engine.menumgr.selected_button_id, "");
}

#[test]
fn track_pointer_says_what_is_under_it_and_what_is_clicked() {
    let mut engine = engine();
    MenuManager::recache_buttons(&mut engine);
    let pressed = Pointer { left_down: true, left_up: false, ..pointer(&[true, true]) };
    assert_eq!(ScriptingAPI::track_pointer(&mut engine, &pressed), (Some(1), Some(1)));
    assert_eq!(ScriptingAPI::track_pointer(&mut engine, &Pointer { inside: vec![true, false], ..pressed }), (Some(0), None));
    assert_eq!(ScriptingAPI::track_pointer(&mut engine, &pointer(&[])), (None, None));
    assert!(!engine.hovered);
}

#[test]
fn engine_opens_with_the_warning_if_there_is_one() {
    let mut engine = EngineData::new(Desk { asked: vec![] }, game());
    let mut em = EventManager::new();
    assert!(MenuManager::open_first_menu(&mut engine, &mut em));
    assert_eq!(engine.menumgr.curmenu, "Main");
    em.trigger_event("on_menu_start", &[], &mut engine);
    assert!(!engine.show_mouse);

    let mut with_warning = game();
    with_warning.menus.insert("Warning".to_string(), menu("", vec![], vec![block("go", &[], vec![block("fullscreen", &[], vec![])])]));
    let mut engine = EngineData::new(Desk { asked: vec![] }, with_warning);
    let mut em = EventManager::new();
    assert!(MenuManager::open_first_menu(&mut engine, &mut em));
    assert_eq!(engine.menumgr.curmenu, "Warning");
    em.trigger_event("on_menu_start", &[], &mut engine);
    assert!(engine.show_mouse);
    em.trigger_event("go", &[], &mut engine);
    assert!(engine.fullscreen);

    let mut empty = game();
    empty.menus = Table::new();
    let mut engine = EngineData::new(Desk { asked: vec![] }, empty);
    assert!(!MenuManager::open_first_menu(&mut engine, &mut em));
    assert_eq!(engine.menumgr.curmenu, "Main");
}
