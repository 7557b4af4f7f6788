//! The vocabulary of the scripting language: the names that a script may
//! use for its blocks, and the actions behind the names that need nothing
//! but the event manager.

use vstd::prelude::*;
use vstd::hash_map::StringHashMap;
use crate::engine::{EngineData, Platform};
use crate::event_manager::EventManager;
use crate::expression::{Numbers, is_plain, plain_outcome, shown};
use crate::game_loader::{Value, ValueView, value_views};
use crate::menu_manager::{ChangeView, MenuManager, menu_element_changed, shows_element};
use crate::office_data::{GameData, OfficeData, Sprite};
use crate::office_manager::OfficeManager;
use crate::table::Table;
use crate::text::{below, chars_of, same_str, same_text, text_below};

verus! {

/// The actions that the engine brings with it.
#[derive(Clone, Copy, Debug, PartialEq, Eq, Structural)]
pub enum Verb {
    StartNight,
    SetBackground,
    HideElement,
    ShowElement,
    Setoff,
    SetText,
    SetSprite,
    IsButtonSelected,
    EnableArrows,
    DisableArrows,
    Windowed,
    Fullscreen,
    HideMouse,
    ShowMouse,
    Office,
    HideOfficeObject,
    ShowOfficeObject,
    IsMouseOverObject,
    GotoMenu,
    CompareValues,
    PlaySound,
    StopChannel,
    SetVar,
    SetData,
    Quit,
    Line,
    Comment,
}

/// What a block name stands for: one of the engine's own actions, or an
/// action that the host has registered under a number of its choice.
#[derive(Clone, Copy, Debug, PartialEq, Eq, Structural)]
pub enum CodeBlockFunction {
    Standard(Verb),
    Custom(usize),
}

/// The names of the engine's own actions.
pub open spec fn standard_actions() -> Map<Seq<char>, CodeBlockFunction> {
    Map::<Seq<char>, CodeBlockFunction>::empty().insert(
        "start_night"@,
        CodeBlockFunction::Standard(Verb::StartNight),
    ).insert("set_background"@, CodeBlockFunction::Standard(Verb::SetBackground)).insert(
        "hide_element"@,
        CodeBlockFunction::Standard(Verb::HideElement),
    ).insert("show_element"@, CodeBlockFunction::Standard(Verb::ShowElement)).insert(
        "setoff"@,
        CodeBlockFunction::Standard(Verb::Setoff),
    ).insert("set_text"@, CodeBlockFunction::Standard(Verb::SetText)).insert(
        "set_sprite"@,
        CodeBlockFunction::Standard(Verb::SetSprite),
    ).insert("is_button_selected"@, CodeBlockFunction::Standard(Verb::IsButtonSelected)).insert(
        "is_image_selected"@,
        CodeBlockFunction::Standard(Verb::IsButtonSelected),
    ).insert("ebutton_arrows"@, CodeBlockFunction::Standard(Verb::EnableArrows)).insert(
        "dbutton_arrows"@,
        CodeBlockFunction::Standard(Verb::DisableArrows),
    ).insert("windowed"@, CodeBlockFunction::Standard(Verb::Windowed)).insert(
        "fullscreen"@,
        CodeBlockFunction::Standard(Verb::Fullscreen),
    ).insert("hide_mouse"@, CodeBlockFunction::Standard(Verb::HideMouse)).insert(
        "show_mouse"@,
        CodeBlockFunction::Standard(Verb::ShowMouse),
    ).insert("office"@, CodeBlockFunction::Standard(Verb::Office)).insert(
        "hide_office_object"@,
        CodeBlockFunction::Standard(Verb::HideOfficeObject),
    ).insert("show_office_object"@, CodeBlockFunction::Standard(Verb::ShowOfficeObject)).insert(
        "is_mouse_over_object"@,
        CodeBlockFunction::Standard(Verb::IsMouseOverObject),
    ).insert("is_mouse_over_sprite"@, CodeBlockFunction::Standard(Verb::IsMouseOverObject)).insert(
        "goto_menu"@,
        CodeBlockFunction::Standard(Verb::GotoMenu),
    ).insert("compare_values"@, CodeBlockFunction::Standard(Verb::CompareValues)).insert(
        "play_sound"@,
        CodeBlockFunction::Standard(Verb::PlaySound),
    ).insert("stop_channel"@, CodeBlockFunction::Standard(Verb::StopChannel)).insert(
        "set_var"@,
        CodeBlockFunction::Standard(Verb::SetVar),
    ).insert("set_data"@, CodeBlockFunction::Standard(Verb::SetData)).insert(
        "quit"@,
        CodeBlockFunction::Standard(Verb::Quit),
    ).insert("line"@, CodeBlockFunction::Standard(Verb::Line)).insert(
        "comment"@,
        CodeBlockFunction::Standard(Verb::Comment),
    )
}

/// The text of the argument at position `i` when it is a string.
pub open spec fn text_argument(args: Seq<ValueView>, i: int) -> Option<Seq<char>> {
    if 0 <= i < args.len() {
        match args[i] {
            ValueView::Text(s) => Some(s),
            _ => None,
        }
    } else {
        None
    }
}

/// What `compare_values` makes of two texts: `==` and `<>` compare them as
/// they are, `<`, `>`, `<=` and `>=` in the order of strings; any other
/// operator gives `false`.
pub open spec fn compared(operator: Seq<char>, left: Seq<char>, right: Seq<char>) -> bool {
    if operator == "=="@ {
        left == right
    } else if operator == "<>"@ {
        left != right
    } else if operator == ">"@ {
        text_below(right, left)
    } else if operator == "<"@ {
        text_below(left, right)
    } else if operator == ">="@ {
        !text_below(left, right)
    } else if operator == "<="@ {
        !text_below(right, left)
    } else {
        false
    }
}

/// The action registry as it is before the host adds to it.
pub struct ScriptingAPI {
    pub actions: StringHashMap<CodeBlockFunction>,
}

impl ScriptingAPI {
    /// The registry of the engine's own actions.
    pub fn init_api() -> (api: ScriptingAPI)
        ensures
            api.actions@ == standard_actions(),
    {
        let mut actions: StringHashMap<CodeBlockFunction> = StringHashMap::new();
        // Menus
        actions.insert(String::from_str("start_night"), CodeBlockFunction::Standard(Verb::StartNight));
        actions.insert(
            String::from_str("set_background"),
            CodeBlockFunction::Standard(Verb::SetBackground),
        );
        actions.insert(
            String::from_str("hide_element"),
            CodeBlockFunction::Standard(Verb::HideElement),
        );
        actions.insert(
            String::from_str("show_element"),
            CodeBlockFunction::Standard(Verb::ShowElement),
        );
        actions.insert(String::from_str("setoff"), CodeBlockFunction::Standard(Verb::Setoff));
        actions.insert(String::from_str("set_text"), CodeBlockFunction::Standard(Verb::SetText));
        actions.insert(String::from_str("set_sprite"), CodeBlockFunction::Standard(Verb::SetSprite));
        actions.insert(
            String::from_str("is_button_selected"),
            CodeBlockFunction::Standard(Verb::IsButtonSelected),
        );
        actions.insert(
            String::from_str("is_image_selected"),
            CodeBlockFunction::Standard(Verb::IsButtonSelected),
        );
        actions.insert(
            String::from_str("ebutton_arrows"),
            CodeBlockFunction::Standard(Verb::EnableArrows),
        );
        actions.insert(
            String::from_str("dbutton_arrows"),
            CodeBlockFunction::Standard(Verb::DisableArrows),
        );
        actions.insert(String::from_str("windowed"), CodeBlockFunction::Standard(Verb::Windowed));
        actions.insert(String::from_str("fullscreen"), CodeBlockFunction::Standard(Verb::Fullscreen));
        actions.insert(String::from_str("hide_mouse"), CodeBlockFunction::Standard(Verb::HideMouse));
        actions.insert(String::from_str("show_mouse"), CodeBlockFunction::Standard(Verb::ShowMouse));
        // Office
        actions.insert(String::from_str("office"), CodeBlockFunction::Standard(Verb::Office));
        actions.insert(
            String::from_str("hide_office_object"),
            CodeBlockFunction::Standard(Verb::HideOfficeObject),
        );
        actions.insert(
            String::from_str("show_office_object"),
            CodeBlockFunction::Standard(Verb::ShowOfficeObject),
        );
        actions.insert(
            String::from_str("is_mouse_over_object"),
            CodeBlockFunction::Standard(Verb::IsMouseOverObject),
        );
        actions.insert(
            String::from_str("is_mouse_over_sprite"),
            CodeBlockFunction::Standard(Verb::IsMouseOverObject),
        );
        // Shared
        actions.insert(String::from_str("goto_menu"), CodeBlockFunction::Standard(Verb::GotoMenu));
        actions.insert(
            String::from_str("compare_values"),
            CodeBlockFunction::Standard(Verb::CompareValues),
        );
        actions.insert(String::from_str("play_sound"), CodeBlockFunction::Standard(Verb::PlaySound));
        actions.insert(
            String::from_str("stop_channel"),
            CodeBlockFunction::Standard(Verb::StopChannel),
        );
        actions.insert(String::from_str("set_var"), CodeBlockFunction::Standard(Verb::SetVar));
        actions.insert(String::from_str("set_data"), CodeBlockFunction::Standard(Verb::SetData));
        actions.insert(String::from_str("quit"), CodeBlockFunction::Standard(Verb::Quit));
        actions.insert(String::from_str("line"), CodeBlockFunction::Standard(Verb::Line));
        actions.insert(String::from_str("comment"), CodeBlockFunction::Standard(Verb::Comment));
        ScriptingAPI { actions }
    }

    /// The argument at position `i` when it is a string.
    pub fn text_of(args: &Vec<Value>, i: usize) -> (r: Option<&str>)
        ensures
            match r {
                Some(s) => text_argument(value_views(args@), i as int) == Some(s@),
                None => text_argument(value_views(args@), i as int) is None,
            },
    {
        if i < args.len() {
            args[i].as_str()
        } else {
            None
        }
    }

    /// `comment`: does nothing and opens its gate.
    pub fn comment<C: Numbers>(
        engine_data: &mut C,
        event_manager: &mut EventManager,
        args: &Vec<Value>,
    ) -> (gate: bool)
        ensures
            comment_effect(
                *old(engine_data),
                *final(engine_data),
                *old(event_manager),
                *final(event_manager),
                value_views(args@),
                gate,
            ),
    {
        true
    }

    /// `set_var`: resolves its two arguments and sets the variable that the
    /// first names to the second. Without two string arguments it does
    /// nothing and keeps its gate shut.
    pub fn set_var<C: Numbers>(
        engine_data: &mut C,
        event_manager: &mut EventManager,
        args: &Vec<Value>,
    ) -> (gate: bool)
        ensures
            set_var_effect(
                *old(engine_data),
                *final(engine_data),
                *old(event_manager),
                *final(event_manager),
                value_views(args@),
                gate,
            ),
    {
        let name_text = match Self::text_of(args, 0) {
            Some(s) => s,
            None => {
                return false;
            },
        };
        let value_text = match Self::text_of(args, 1) {
            Some(s) => s,
            None => {
                return false;
            },
        };
        let name = event_manager.get_expr(name_text, engine_data);
        let value = event_manager.get_expr(value_text, engine_data);
        event_manager.set_variable_value(name, value);
        true
    }

    /// `set_data`: as `set_var`, on the table of data values.
    pub fn set_datavalue<C: Numbers>(
        engine_data: &mut C,
        event_manager: &mut EventManager,
        args: &Vec<Value>,
    ) -> (gate: bool)
        ensures
            set_datavalue_effect(
                *old(engine_data),
                *final(engine_data),
                *old(event_manager),
                *final(event_manager),
                value_views(args@),
                gate,
            ),
    {
        let name_text = match Self::text_of(args, 0) {
            Some(s) => s,
            None => {
                return false;
            },
        };
        let value_text = match Self::text_of(args, 1) {
            Some(s) => s,
            None => {
                return false;
            },
        };
        let name = event_manager.get_expr(name_text, engine_data);
        let value = event_manager.get_expr(value_text, engine_data);
        event_manager.set_data_value(name, value);
        true
    }

    /// `compare_values`: resolves its first and third argument and compares
    /// them by the operator that the second names. Without three string
    /// arguments it keeps its gate shut.
    pub fn compare_values<C: Numbers>(
        engine_data: &mut C,
        event_manager: &mut EventManager,
        args: &Vec<Value>,
    ) -> (gate: bool)
        ensures
            compare_values_effect(
                *old(engine_data),
                *final(engine_data),
                *old(event_manager),
                *final(event_manager),
                value_views(args@),
                gate,
            ),
    {
        let left_text = match Self::text_of(args, 0) {
            Some(s) => s,
            None => {
                return false;
            },
        };
        let operator = match Self::text_of(args, 1) {
            Some(s) => s,
            None => {
                return false;
            },
        };
        let right_text = match Self::text_of(args, 2) {
            Some(s) => s,
            None => {
                return false;
            },
        };
        let left = chars_of(event_manager.get_expr(left_text, engine_data).as_str());
        let right = chars_of(event_manager.get_expr(right_text, engine_data).as_str());
        if same_str(operator, "==") {
            same_text(&left, &right)
        } else if same_str(operator, "<>") {
            !same_text(&left, &right)
        } else if same_str(operator, ">") {
            below(&right, &left)
        } else if same_str(operator, "<") {
            below(&left, &right)
        } else if same_str(operator, ">=") {
            !below(&left, &right)
        } else if same_str(operator, "<=") {
            !below(&right, &left)
        } else {
            false
        }
    }

    /// The actions that need the state of the engine and nothing beyond it.
    /// `None` for an action that is the platform's to run.
    pub fn run_standard<P: Platform>(
        engine_data: &mut EngineData<P>,
        event_manager: &mut EventManager,
        action: CodeBlockFunction,
        args: &Vec<Value>,
    ) -> (r: Option<bool>)
        ensures
            r is None <==> is_left_to_platform(action),
            r is None ==> *final(engine_data) == *old(engine_data) && *final(event_manager)
                == *old(event_manager),
            r matches Some(opened) ==> standard_effect(
                action,
                *old(engine_data),
                *final(engine_data),
                *old(event_manager),
                *final(event_manager),
                value_views(args@),
                opened,
            ),
    {
        match action {
            CodeBlockFunction::Custom(_) => None,
            CodeBlockFunction::Standard(verb) => match verb {
                Verb::StartNight => None,
                Verb::Office => None,
                Verb::GotoMenu => None,
                Verb::PlaySound => None,
                Verb::StopChannel => None,
                Verb::Quit => None,
                Verb::Line => None,
                Verb::SetBackground => Some(Self::set_background(engine_data, event_manager, args)),
                Verb::HideElement => Some(Self::hide_element(engine_data, event_manager, args)),
                Verb::ShowElement => Some(Self::show_element(engine_data, event_manager, args)),
                Verb::Setoff => Some(Self::setoff(engine_data, event_manager, args)),
                Verb::SetText => Some(Self::set_text(engine_data, event_manager, args)),
                Verb::SetSprite => Some(Self::set_sprite(engine_data, event_manager, args)),
                Verb::IsButtonSelected => Some(
                    Self::is_btn_selected(engine_data, event_manager, args),
                ),
                Verb::EnableArrows => Some(Self::enable_arrows(engine_data, event_manager, args)),
                Verb::DisableArrows => Some(Self::disable_arrows(engine_data, event_manager, args)),
                Verb::Windowed => Some(Self::windowed(engine_data, event_manager, args)),
                Verb::Fullscreen => Some(Self::fullscreen(engine_data, event_manager, args)),
                Verb::HideMouse => Some(Self::hide_mouse(engine_data, event_manager, args)),
                Verb::ShowMouse => Some(Self::show_mouse(engine_data, event_manager, args)),
                Verb::HideOfficeObject => Some(
                    Self::hide_office_object(engine_data, event_manager, args),
                ),
                Verb::ShowOfficeObject => Some(
                    Self::show_office_object(engine_data, event_manager, args),
                ),
                Verb::IsMouseOverObject => Some(
                    Self::is_mouse_over_object(engine_data, event_manager, args),
                ),
                Verb::CompareValues => Some(Self::compare_values(engine_data, event_manager, args)),
                Verb::SetVar => Some(Self::set_var(engine_data, event_manager, args)),
                Verb::SetData => Some(Self::set_datavalue(engine_data, event_manager, args)),
                Verb::Comment => Some(Self::comment(engine_data, event_manager, args)),
            },
        }
    }

    /// `hide_mouse`: the pointer is to be hidden.
    pub fn hide_mouse<P>(
        engine_data: &mut EngineData<P>,
        event_manager: &mut EventManager,
        args: &Vec<Value>,
    ) -> (opened: bool)
        ensures
            hide_mouse_effect(
                *old(engine_data),
                *final(engine_data),
                *old(event_manager),
                *final(event_manager),
                value_views(args@),
                opened,
            ),
    {
        engine_data.show_mouse = false;
        engine_data.update_context = true;
        true
    }

    /// `show_mouse`: the pointer is to be shown.
    pub fn show_mouse<P>(
        engine_data: &mut EngineData<P>,
        event_manager: &mut EventManager,
        args: &Vec<Value>,
    ) -> (opened: bool)
        ensures
            show_mouse_effect(
                *old(engine_data),
                *final(engine_data),
                *old(event_manager),
                *final(event_manager),
                value_views(args@),
                opened,
            ),
    {
        engine_data.show_mouse = true;
        engine_data.update_context = true;
        true
    }

    /// `windowed`: the engine is to leave full screen.
    pub fn windowed<P>(
        engine_data: &mut EngineData<P>,
        event_manager: &mut EventManager,
        args: &Vec<Value>,
    ) -> (opened: bool)
        ensures
            windowed_effect(
                *old(engine_data),
                *final(engine_data),
                *old(event_manager),
                *final(event_manager),
                value_views(args@),
                opened,
            ),
    {
        engine_data.fullscreen = false;
        engine_data.update_context = true;
        true
    }

    /// `fullscreen`: the engine is to fill the screen.
    pub fn fullscreen<P>(
        engine_data: &mut EngineData<P>,
        event_manager: &mut EventManager,
        args: &Vec<Value>,
    ) -> (opened: bool)
        ensures
            fullscreen_effect(
                *old(engine_data),
                *final(engine_data),
                *old(event_manager),
                *final(event_manager),
                value_views(args@),
                opened,
            ),
    {
        engine_data.fullscreen = true;
        engine_data.update_context = true;
        true
    }

    /// `dbutton_arrows`: no arrows at the button under the pointer.
    pub fn disable_arrows<P>(
        engine_data: &mut EngineData<P>,
        event_manager: &mut EventManager,
        args: &Vec<Value>,
    ) -> (opened: bool)
        ensures
            disable_arrows_effect(
                *old(engine_data),
                *final(engine_data),
                *old(event_manager),
                *final(event_manager),
                value_views(args@),
                opened,
            ),
    {
        engine_data.menumgr.arrows_enabled = false;
        true
    }

    /// `ebutton_arrows`: arrows at the button under the pointer.
    pub fn enable_arrows<P>(
        engine_data: &mut EngineData<P>,
        event_manager: &mut EventManager,
        args: &Vec<Value>,
    ) -> (opened: bool)
        ensures
            enable_arrows_effect(
                *old(engine_data),
                *final(engine_data),
                *old(event_manager),
                *final(event_manager),
                value_views(args@),
                opened,
            ),
    {
        engine_data.menumgr.arrows_enabled = true;
        true
    }

    /// `setoff`: chooses the office that its argument resolves to. Without a
    /// string argument it does nothing and stays shut.
    pub fn setoff<P: Platform>(
        engine_data: &mut EngineData<P>,
        event_manager: &mut EventManager,
        args: &Vec<Value>,
    ) -> (opened: bool)
        ensures
            setoff_effect(
                *old(engine_data),
                *final(engine_data),
                *old(event_manager),
                *final(event_manager),
                value_views(args@),
                opened,
            ),
    {
        let written = match Self::text_of(args, 0) {
            Some(s) => s,
            None => {
                return false;
            },
        };
        let office = event_manager.get_expr(written, engine_data);
        engine_data.officemgr.curoffice = office;
        true
    }

    /// `set_sprite`: gives the element that the first argument resolves to
    /// the sprite that the second resolves to. Without two string arguments
    /// it does nothing and stays shut.
    pub fn set_sprite<P: Platform>(
        engine_data: &mut EngineData<P>,
        event_manager: &mut EventManager,
        args: &Vec<Value>,
    ) -> (opened: bool)
        ensures
            set_sprite_effect(
                *old(engine_data),
                *final(engine_data),
                *old(event_manager),
                *final(event_manager),
                value_views(args@),
                opened,
            ),
    {
        let element_text = match Self::text_of(args, 0) {
            Some(s) => s,
            None => {
                return false;
            },
        };
        let value_text = match Self::text_of(args, 1) {
            Some(s) => s,
            None => {
                return false;
            },
        };
        let element = event_manager.get_expr(element_text, engine_data);
        let value = event_manager.get_expr(value_text, engine_data);
        MenuManager::set_element_sprite(element.as_str(), value, engine_data);
        true
    }

    /// `set_text`: gives the element that the first argument resolves to the
    /// text that the second resolves to. Without two string arguments it
    /// does nothing and stays shut.
    pub fn set_text<P: Platform>(
        engine_data: &mut EngineData<P>,
        event_manager: &mut EventManager,
        args: &Vec<Value>,
    ) -> (opened: bool)
        ensures
            set_text_effect(
                *old(engine_data),
                *final(engine_data),
                *old(event_manager),
                *final(event_manager),
                value_views(args@),
                opened,
            ),
    {
        let element_text = match Self::text_of(args, 0) {
            Some(s) => s,
            None => {
                return false;
            },
        };
        let value_text = match Self::text_of(args, 1) {
            Some(s) => s,
            None => {
                return false;
            },
        };
        let element = event_manager.get_expr(element_text, engine_data);
        let value = event_manager.get_expr(value_text, engine_data);
        MenuManager::set_element_text(element.as_str(), value, engine_data);
        true
    }

    /// `show_element`: shows the element that the argument resolves to.
    /// Without a string argument it does nothing and stays shut.
    pub fn show_element<P: Platform>(
        engine_data: &mut EngineData<P>,
        event_manager: &mut EventManager,
        args: &Vec<Value>,
    ) -> (opened: bool)
        ensures
            show_element_effect(
                *old(engine_data),
                *final(engine_data),
                *old(event_manager),
                *final(event_manager),
                value_views(args@),
                opened,
            ),
    {
        let element_text = match Self::text_of(args, 0) {
            Some(s) => s,
            None => {
                return false;
            },
        };
        let element = event_manager.get_expr(element_text, engine_data);
        MenuManager::show_element(element.as_str(), engine_data);
        true
    }

    /// `hide_element`: hides the element that the argument resolves to.
    /// Without a string argument it does nothing and stays shut.
    pub fn hide_element<P: Platform>(
        engine_data: &mut EngineData<P>,
        event_manager: &mut EventManager,
        args: &Vec<Value>,
    ) -> (opened: bool)
        ensures
            hide_element_effect(
                *old(engine_data),
                *final(engine_data),
                *old(event_manager),
                *final(event_manager),
                value_views(args@),
                opened,
            ),
    {
        let element_text = match Self::text_of(args, 0) {
            Some(s) => s,
            None => {
                return false;
            },
        };
        let element = event_manager.get_expr(element_text, engine_data);
        MenuManager::hide_element(element.as_str(), engine_data);
        true
    }

    /// `set_background`: gives the menu that is shown the background image
    /// that the argument names, as it is written. Without a string argument
    /// it does nothing and stays shut.
    pub fn set_background<P>(
        engine_data: &mut EngineData<P>,
        event_manager: &mut EventManager,
        args: &Vec<Value>,
    ) -> (opened: bool)
        ensures
            set_background_effect(
                *old(engine_data),
                *final(engine_data),
                *old(event_manager),
                *final(event_manager),
                value_views(args@),
                opened,
            ),
    {
        let path = match Self::text_of(args, 0) {
            Some(s) => s,
            None => {
                return false;
            },
        };
        MenuManager::set_background(path, engine_data);
        true
    }

    /// `is_button_selected`, `is_image_selected`: whether the pointer is on
    /// the button of the element that the argument resolves to.
    pub fn is_btn_selected<P: Platform>(
        engine_data: &mut EngineData<P>,
        event_manager: &mut EventManager,
        args: &Vec<Value>,
    ) -> (opened: bool)
        ensures
            is_btn_selected_effect(
                *old(engine_data),
                *final(engine_data),
                *old(event_manager),
                *final(event_manager),
                value_views(args@),
                opened,
            ),
    {
        let written = match Self::text_of(args, 0) {
            Some(s) => s,
            None => {
                return false;
            },
        };
        let button_name = event_manager.get_expr(written, engine_data);
        MenuManager::is_button_selected(button_name, engine_data)
    }

    /// `is_mouse_over_object`, `is_mouse_over_sprite`: whether the pointer is
    /// on the object of the office that the argument names, as it is written.
    pub fn is_mouse_over_object<P>(
        engine_data: &mut EngineData<P>,
        event_manager: &mut EventManager,
        args: &Vec<Value>,
    ) -> (opened: bool)
        ensures
            is_mouse_over_object_effect(
                *old(engine_data),
                *final(engine_data),
                *old(event_manager),
                *final(event_manager),
                value_views(args@),
                opened,
            ),
    {
        let sprite_name = match Self::text_of(args, 0) {
            Some(s) => s,
            None => {
                return false;
            },
        };
        match engine_data.officemgr.game_data.office.objects.get(sprite_name) {
            Some(sprite) => sprite.hovered,
            None => false,
        }
    }

    /// Shows or hides the object of the office that the argument names, as
    /// it is written, and opens when there is such an object.
    fn set_object_visible<P>(engine_data: &mut EngineData<P>, args: &Vec<Value>, visible: bool) -> (opened:
        bool)
        ensures
            opened == (match text_argument(value_views(args@), 0) {
                Some(name) => old(engine_data).officemgr.game_data.office.objects@.contains_key(
                    name,
                ),
                None => false,
            }),
            !opened ==> *final(engine_data) == *old(engine_data),
            *final(engine_data) == with_objects(
                *old(engine_data),
                final(engine_data).officemgr.game_data.office.objects,
            ),
            opened ==> ({
                let name = text_argument(value_views(args@), 0)->Some_0;
                let objects = old(engine_data).officemgr.game_data.office.objects@;
                final(engine_data).officemgr.game_data.office.objects@ == objects.insert(
                    name,
                    Sprite { visible, ..objects[name] },
                )
            }),
    {
        let sprite_name = match Self::text_of(args, 0) {
            Some(s) => s,
            None => {
                return false;
            },
        };
        match engine_data.officemgr.game_data.office.objects.get_mut(sprite_name) {
            Some(sprite) => {
                sprite.visible = visible;
                true
            },
            None => false,
        }
    }

    /// `hide_office_object`: hides an object of the office.
    pub fn hide_office_object<P>(
        engine_data: &mut EngineData<P>,
        event_manager: &mut EventManager,
        args: &Vec<Value>,
    ) -> (opened: bool)
        ensures
            hide_office_object_effect(
                *old(engine_data),
                *final(engine_data),
                *old(event_manager),
                *final(event_manager),
                value_views(args@),
                opened,
            ),
    {
        Self::set_object_visible(engine_data, args, false)
    }

    /// `show_office_object`: shows an object of the office.
    pub fn show_office_object<P>(
        engine_data: &mut EngineData<P>,
        event_manager: &mut EventManager,
        args: &Vec<Value>,
    ) -> (opened: bool)
        ensures
            show_office_object_effect(
                *old(engine_data),
                *final(engine_data),
                *old(event_manager),
                *final(event_manager),
                value_views(args@),
                opened,
            ),
    {
        Self::set_object_visible(engine_data, args, true)
    }
}

/// `comment`: the block opens and nothing changes.
pub open spec fn comment_effect<C>(
    before: C,
    after: C,
    manager_before: EventManager,
    manager_after: EventManager,
    args: Seq<ValueView>,
    opened: bool,
) -> bool {
    &&& opened
    &&& after == before
    &&& manager_after == manager_before
}

/// `set_var`: the variable that the first argument resolves to has the text
/// that the second resolves to; without two string arguments nothing changes
/// and the block stays shut.
pub open spec fn set_var_effect<C>(
    before: C,
    after: C,
    manager_before: EventManager,
    manager_after: EventManager,
    args: Seq<ValueView>,
    opened: bool,
) -> bool {
    &&& (opened == (text_argument(args, 0) is Some && text_argument(
        args,
        1,
    ) is Some))
    &&& (!opened ==> after == before && manager_after == manager_before)
    &&& manager_after.listeners() == manager_before.listeners()
    &&& manager_after.code_blocks() == manager_before.code_blocks()
    &&& manager_after.notes() == manager_before.notes()
    &&& manager_after.data_values() == manager_before.data_values()
    &&& (opened ==> ({
        let name = text_argument(args, 0)->Some_0;
        let value = text_argument(args, 1)->Some_0;
        let variables = manager_before.variables();
        let data_values = manager_before.data_values();
        is_plain(name, variables, data_values) && is_plain(value, variables, data_values)
            ==> after == before && manager_after.variables() == variables.insert(
            shown(plain_outcome(name, variables, data_values)),
            shown(plain_outcome(value, variables, data_values)),
        )
    }))
}

/// `set_data`: as `set_var`, on the table of data values.
pub open spec fn set_datavalue_effect<C>(
    before: C,
    after: C,
    manager_before: EventManager,
    manager_after: EventManager,
    args: Seq<ValueView>,
    opened: bool,
) -> bool {
    &&& (opened == (text_argument(args, 0) is Some && text_argument(
        args,
        1,
    ) is Some))
    &&& (!opened ==> after == before && manager_after == manager_before)
    &&& manager_after.listeners() == manager_before.listeners()
    &&& manager_after.code_blocks() == manager_before.code_blocks()
    &&& manager_after.notes() == manager_before.notes()
    &&& manager_after.variables() == manager_before.variables()
    &&& (opened ==> ({
        let name = text_argument(args, 0)->Some_0;
        let value = text_argument(args, 1)->Some_0;
        let variables = manager_before.variables();
        let data_values = manager_before.data_values();
        is_plain(name, variables, data_values) && is_plain(value, variables, data_values)
            ==> after == before && manager_after.data_values() == data_values.insert(
            shown(plain_outcome(name, variables, data_values)),
            shown(plain_outcome(value, variables, data_values)),
        )
    }))
}

/// `compare_values`: the block opens when what the first and third argument
/// resolve to compare by the operator that the second names; it stays shut
/// without three string arguments.
pub open spec fn compare_values_effect<C>(
    before: C,
    after: C,
    manager_before: EventManager,
    manager_after: EventManager,
    args: Seq<ValueView>,
    opened: bool,
) -> bool {
    &&& manager_after == manager_before
    &&& (({
        let left = text_argument(args, 0);
        let operator = text_argument(args, 1);
        let right = text_argument(args, 2);
        let variables = manager_before.variables();
        let data_values = manager_before.data_values();
        if left is Some && operator is Some && right is Some {
            is_plain(left->Some_0, variables, data_values) && is_plain(
                right->Some_0,
                variables,
                data_values,
            ) ==> after == before && opened == compared(
                operator->Some_0,
                shown(plain_outcome(left->Some_0, variables, data_values)),
                shown(plain_outcome(right->Some_0, variables, data_values)),
            )
        } else {
            !opened && after == before
        }
    }))
}

/// `hide_mouse`: the pointer is hidden, and the window is to be brought up to
/// date.
pub open spec fn hide_mouse_effect<P>(
    before: EngineData<P>,
    after: EngineData<P>,
    manager_before: EventManager,
    manager_after: EventManager,
    args: Seq<ValueView>,
    opened: bool,
) -> bool {
    &&& opened
    &&& manager_after == manager_before
    &&& (after == (EngineData {
        show_mouse: false,
        update_context: true,
        ..before
    }))
}

/// `show_mouse`: the pointer is shown, and the window is to be brought up to
/// date.
pub open spec fn show_mouse_effect<P>(
    before: EngineData<P>,
    after: EngineData<P>,
    manager_before: EventManager,
    manager_after: EventManager,
    args: Seq<ValueView>,
    opened: bool,
) -> bool {
    &&& opened
    &&& manager_after == manager_before
    &&& (after == (EngineData {
        show_mouse: true,
        update_context: true,
        ..before
    }))
}

/// `windowed`: full screen is off, and the window is to be brought up to date.
pub open spec fn windowed_effect<P>(
    before: EngineData<P>,
    after: EngineData<P>,
    manager_before: EventManager,
    manager_after: EventManager,
    args: Seq<ValueView>,
    opened: bool,
) -> bool {
    &&& opened
    &&& manager_after == manager_before
    &&& (after == (EngineData {
        fullscreen: false,
        update_context: true,
        ..before
    }))
}

/// `fullscreen`: full screen is on, and the window is to be brought up to date.
pub open spec fn fullscreen_effect<P>(
    before: EngineData<P>,
    after: EngineData<P>,
    manager_before: EventManager,
    manager_after: EventManager,
    args: Seq<ValueView>,
    opened: bool,
) -> bool {
    &&& opened
    &&& manager_after == manager_before
    &&& (after == (EngineData {
        fullscreen: true,
        update_context: true,
        ..before
    }))
}

/// `dbutton_arrows`: the arrows are off.
pub open spec fn disable_arrows_effect<P>(
    before: EngineData<P>,
    after: EngineData<P>,
    manager_before: EventManager,
    manager_after: EventManager,
    args: Seq<ValueView>,
    opened: bool,
) -> bool {
    &&& opened
    &&& manager_after == manager_before
    &&& (after == (EngineData {
        menumgr: MenuManager { arrows_enabled: false, ..before.menumgr },
        ..before
    }))
}

/// `ebutton_arrows`: the arrows are on.
pub open spec fn enable_arrows_effect<P>(
    before: EngineData<P>,
    after: EngineData<P>,
    manager_before: EventManager,
    manager_after: EventManager,
    args: Seq<ValueView>,
    opened: bool,
) -> bool {
    &&& opened
    &&& manager_after == manager_before
    &&& (after == (EngineData {
        menumgr: MenuManager { arrows_enabled: true, ..before.menumgr },
        ..before
    }))
}

/// `setoff`: the office that the argument resolves to is the chosen one;
/// without a string argument nothing changes and the block stays shut.
pub open spec fn setoff_effect<P>(
    before: EngineData<P>,
    after: EngineData<P>,
    manager_before: EventManager,
    manager_after: EventManager,
    args: Seq<ValueView>,
    opened: bool,
) -> bool {
    &&& opened == text_argument(args, 0) is Some
    &&& manager_after == manager_before
    &&& (!opened ==> after == before)
    &&& (opened && is_plain(
        text_argument(args, 0)->Some_0,
        manager_before.variables(),
        manager_before.data_values(),
    ) ==> after.officemgr.curoffice@ == shown(
        plain_outcome(
            text_argument(args, 0)->Some_0,
            manager_before.variables(),
            manager_before.data_values(),
        ),
    ) && after == (EngineData {
        officemgr: crate::office_manager::OfficeManager {
            curoffice: after.officemgr.curoffice,
            ..before.officemgr
        },
        ..before
    }))
}

/// `set_sprite`: the element that the first argument resolves to has the
/// sprite that the second resolves to.
pub open spec fn set_sprite_effect<P>(
    before: EngineData<P>,
    after: EngineData<P>,
    manager_before: EventManager,
    manager_after: EventManager,
    args: Seq<ValueView>,
    opened: bool,
) -> bool {
    &&& (opened == (text_argument(args, 0) is Some && text_argument(
        args,
        1,
    ) is Some))
    &&& manager_after == manager_before
    &&& (!opened ==> after == before)
    &&& (plain_argument(
        args,
        0,
        manager_before.variables(),
        manager_before.data_values(),
    ) && plain_argument(
        args,
        1,
        manager_before.variables(),
        manager_before.data_values(),
    ) ==> menu_element_changed(
        before,
        after,
        resolved_argument(
            args,
            0,
            manager_before.variables(),
            manager_before.data_values(),
        ),
        ChangeView::Sprite(
            resolved_argument(
                args,
                1,
                manager_before.variables(),
                manager_before.data_values(),
            ),
        ),
    ))
}

/// `set_text`: the element that the first argument resolves to has the text
/// that the second resolves to.
pub open spec fn set_text_effect<P>(
    before: EngineData<P>,
    after: EngineData<P>,
    manager_before: EventManager,
    manager_after: EventManager,
    args: Seq<ValueView>,
    opened: bool,
) -> bool {
    &&& (opened == (text_argument(args, 0) is Some && text_argument(
        args,
        1,
    ) is Some))
    &&& manager_after == manager_before
    &&& (!opened ==> after == before)
    &&& (plain_argument(
        args,
        0,
        manager_before.variables(),
        manager_before.data_values(),
    ) && plain_argument(
        args,
        1,
        manager_before.variables(),
        manager_before.data_values(),
    ) ==> menu_element_changed(
        before,
        after,
        resolved_argument(
            args,
            0,
            manager_before.variables(),
            manager_before.data_values(),
        ),
        ChangeView::Text(
            resolved_argument(
                args,
                1,
                manager_before.variables(),
                manager_before.data_values(),
            ),
        ),
    ))
}

/// `show_element`: the element that the argument resolves to is shown.
pub open spec fn show_element_effect<P>(
    before: EngineData<P>,
    after: EngineData<P>,
    manager_before: EventManager,
    manager_after: EventManager,
    args: Seq<ValueView>,
    opened: bool,
) -> bool {
    &&& opened == text_argument(args, 0) is Some
    &&& manager_after == manager_before
    &&& (!opened ==> after == before)
    &&& (plain_argument(
        args,
        0,
        manager_before.variables(),
        manager_before.data_values(),
    ) ==> menu_element_changed(
        before,
        after,
        resolved_argument(
            args,
            0,
            manager_before.variables(),
            manager_before.data_values(),
        ),
        ChangeView::Hidden(false),
    ))
}

/// `hide_element`: the element that the argument resolves to is hidden.
pub open spec fn hide_element_effect<P>(
    before: EngineData<P>,
    after: EngineData<P>,
    manager_before: EventManager,
    manager_after: EventManager,
    args: Seq<ValueView>,
    opened: bool,
) -> bool {
    &&& opened == text_argument(args, 0) is Some
    &&& manager_after == manager_before
    &&& (!opened ==> after == before)
    &&& (plain_argument(
        args,
        0,
        manager_before.variables(),
        manager_before.data_values(),
    ) ==> menu_element_changed(
        before,
        after,
        resolved_argument(
            args,
            0,
            manager_before.variables(),
            manager_before.data_values(),
        ),
        ChangeView::Hidden(true),
    ))
}

/// `set_background`: the menu that is shown has the background image that the
/// argument names.
pub open spec fn set_background_effect<P>(
    before: EngineData<P>,
    after: EngineData<P>,
    manager_before: EventManager,
    manager_after: EventManager,
    args: Seq<ValueView>,
    opened: bool,
) -> bool {
    &&& opened == text_argument(args, 0) is Some
    &&& manager_after == manager_before
    &&& (!opened ==> after == before)
    &&& MenuManager::only_menus_changed(before, after)
    &&& (opened && before.game.menus@.contains_key(before.menumgr.curmenu@)
        ==> after.game.menus@[before.menumgr.curmenu@].properties.BackgroundImage@
        == text_argument(args, 0)->Some_0)
}

/// `is_button_selected`: the block opens when the pointer is on the button
/// of the element that the argument resolves to.
pub open spec fn is_btn_selected_effect<P>(
    before: EngineData<P>,
    after: EngineData<P>,
    manager_before: EventManager,
    manager_after: EventManager,
    args: Seq<ValueView>,
    opened: bool,
) -> bool {
    &&& manager_after == manager_before
    &&& (text_argument(args, 0) is None ==> !opened && after
        == before)
    &&& (plain_argument(
        args,
        0,
        manager_before.variables(),
        manager_before.data_values(),
    ) ==> after == before && opened == ({
        let id = resolved_argument(
            args,
            0,
            manager_before.variables(),
            manager_before.data_values(),
        );
        shows_element(before, id) && before.buttons@.contains_key(id)
            && before.buttons@[id].is_hovered
    }))
}

/// `is_mouse_over_object`: the block opens when the pointer is on the object
/// that the argument names; nothing changes.
pub open spec fn is_mouse_over_object_effect<P>(
    before: EngineData<P>,
    after: EngineData<P>,
    manager_before: EventManager,
    manager_after: EventManager,
    args: Seq<ValueView>,
    opened: bool,
) -> bool {
    &&& manager_after == manager_before
    &&& after == before
    &&& (opened == (match text_argument(args, 0) {
        Some(name) => {
            let objects = before.officemgr.game_data.office.objects@;
            objects.contains_key(name) && objects[name].hovered
        },
        None => false,
    }))
}

/// `hide_office_object`: the object that the argument names is hidden; the
/// block opens when there is such an object.
pub open spec fn hide_office_object_effect<P>(
    before: EngineData<P>,
    after: EngineData<P>,
    manager_before: EventManager,
    manager_after: EventManager,
    args: Seq<ValueView>,
    opened: bool,
) -> bool {
    &&& manager_after == manager_before
    &&& (opened == (match text_argument(args, 0) {
        Some(name) => before.officemgr.game_data.office.objects@.contains_key(
            name,
        ),
        None => false,
    }))
    &&& (!opened ==> after == before)
    &&& after == with_objects(before, after.officemgr.game_data.office.objects)
    &&& (opened ==> ({
        let name = text_argument(args, 0)->Some_0;
        let objects = before.officemgr.game_data.office.objects@;
        after.officemgr.game_data.office.objects@ == objects.insert(
            name,
            Sprite { visible: false, ..objects[name] },
        )
    }))
}

/// `show_office_object`: the object that the argument names is shown; the
/// block opens when there is such an object.
pub open spec fn show_office_object_effect<P>(
    before: EngineData<P>,
    after: EngineData<P>,
    manager_before: EventManager,
    manager_after: EventManager,
    args: Seq<ValueView>,
    opened: bool,
) -> bool {
    &&& manager_after == manager_before
    &&& (opened == (match text_argument(args, 0) {
        Some(name) => before.officemgr.game_data.office.objects@.contains_key(
            name,
        ),
        None => false,
    }))
    &&& (!opened ==> after == before)
    &&& after == with_objects(before, after.officemgr.game_data.office.objects)
    &&& (opened ==> ({
        let name = text_argument(args, 0)->Some_0;
        let objects = before.officemgr.game_data.office.objects@;
        after.officemgr.game_data.office.objects@ == objects.insert(
            name,
            Sprite { visible: true, ..objects[name] },
        )
    }))
}

/// The engine with `objects` as the objects of the office, and all else as
/// it is.
pub open spec fn with_objects<P>(engine: EngineData<P>, objects: Table<Sprite>) -> EngineData<P> {
    EngineData {
        officemgr: OfficeManager {
            game_data: GameData {
                office: OfficeData { objects, ..engine.officemgr.game_data.office },
                ..engine.officemgr.game_data
            },
            ..engine.officemgr
        },
        ..engine
    }
}

/// Whether an action works on the tables of the event manager and on
/// nothing else: `comment`, `set_var`, `set_data`, `compare_values`.
pub open spec fn is_table_action(action: CodeBlockFunction) -> bool {
    action == CodeBlockFunction::Standard(Verb::Comment) || action == CodeBlockFunction::Standard(
        Verb::SetVar,
    ) || action == CodeBlockFunction::Standard(Verb::SetData) || action
        == CodeBlockFunction::Standard(Verb::CompareValues)
}

/// What a table action leaves behind, and whether it opens its gate.
/// Nothing is said of the other actions.
pub open spec fn table_action_effect<C>(
    action: CodeBlockFunction,
    before: C,
    after: C,
    manager_before: EventManager,
    manager_after: EventManager,
    args: Seq<ValueView>,
    opened: bool,
) -> bool {
    match action {
        CodeBlockFunction::Standard(Verb::Comment) => comment_effect(
            before,
            after,
            manager_before,
            manager_after,
            args,
            opened,
        ),
        CodeBlockFunction::Standard(Verb::SetVar) => set_var_effect(
            before,
            after,
            manager_before,
            manager_after,
            args,
            opened,
        ),
        CodeBlockFunction::Standard(Verb::SetData) => set_datavalue_effect(
            before,
            after,
            manager_before,
            manager_after,
            args,
            opened,
        ),
        CodeBlockFunction::Standard(Verb::CompareValues) => compare_values_effect(
            before,
            after,
            manager_before,
            manager_after,
            args,
            opened,
        ),
        _ => true,
    }
}

/// What one of the engine's own actions leaves behind, and whether it opens
/// its gate. Nothing is said of the actions that are left to the platform.
pub open spec fn standard_effect<P>(
    action: CodeBlockFunction,
    before: EngineData<P>,
    after: EngineData<P>,
    manager_before: EventManager,
    manager_after: EventManager,
    args: Seq<ValueView>,
    opened: bool,
) -> bool {
    match action {
        CodeBlockFunction::Standard(Verb::SetBackground) => set_background_effect(
            before,
            after,
            manager_before,
            manager_after,
            args,
            opened,
        ),
        CodeBlockFunction::Standard(Verb::HideElement) => hide_element_effect(
            before,
            after,
            manager_before,
            manager_after,
            args,
            opened,
        ),
        CodeBlockFunction::Standard(Verb::ShowElement) => show_element_effect(
            before,
            after,
            manager_before,
            manager_after,
            args,
            opened,
        ),
        CodeBlockFunction::Standard(Verb::Setoff) => setoff_effect(
            before,
            after,
            manager_before,
            manager_after,
            args,
            opened,
        ),
        CodeBlockFunction::Standard(Verb::SetText) => set_text_effect(
            before,
            after,
            manager_before,
            manager_after,
            args,
            opened,
        ),
        CodeBlockFunction::Standard(Verb::SetSprite) => set_sprite_effect(
            before,
            after,
            manager_before,
            manager_after,
            args,
            opened,
        ),
        CodeBlockFunction::Standard(Verb::IsButtonSelected) => is_btn_selected_effect(
            before,
            after,
            manager_before,
            manager_after,
            args,
            opened,
        ),
        CodeBlockFunction::Standard(Verb::EnableArrows) => enable_arrows_effect(
            before,
            after,
            manager_before,
            manager_after,
            args,
            opened,
        ),
        CodeBlockFunction::Standard(Verb::DisableArrows) => disable_arrows_effect(
            before,
            after,
            manager_before,
            manager_after,
            args,
            opened,
        ),
        CodeBlockFunction::Standard(Verb::Windowed) => windowed_effect(
            before,
            after,
            manager_before,
            manager_after,
            args,
            opened,
        ),
        CodeBlockFunction::Standard(Verb::Fullscreen) => fullscreen_effect(
            before,
            after,
            manager_before,
            manager_after,
            args,
            opened,
        ),
        CodeBlockFunction::Standard(Verb::HideMouse) => hide_mouse_effect(
            before,
            after,
            manager_before,
            manager_after,
            args,
            opened,
        ),
        CodeBlockFunction::Standard(Verb::ShowMouse) => show_mouse_effect(
            before,
            after,
            manager_before,
            manager_after,
            args,
            opened,
        ),
        CodeBlockFunction::Standard(Verb::HideOfficeObject) => hide_office_object_effect(
            before,
            after,
            manager_before,
            manager_after,
            args,
            opened,
        ),
        CodeBlockFunction::Standard(Verb::ShowOfficeObject) => show_office_object_effect(
            before,
            after,
            manager_before,
            manager_after,
            args,
            opened,
        ),
        CodeBlockFunction::Standard(Verb::IsMouseOverObject) => is_mouse_over_object_effect(
            before,
            after,
            manager_before,
            manager_after,
            args,
            opened,
        ),
        _ => table_action_effect(
            action,
            before,
            after,
            manager_before,
            manager_after,
            args,
            opened,
        ),
    }
}

/// The text that the string argument at position `i` resolves to when the
/// tables alone decide it.
pub open spec fn resolved_argument(
    args: Seq<ValueView>,
    i: int,
    variables: Map<Seq<char>, Seq<char>>,
    data_values: Map<Seq<char>, Seq<char>>,
) -> Seq<char> {
    shown(plain_outcome(text_argument(args, i)->Some_0, variables, data_values))
}

/// Whether the argument at position `i` is a string that the tables alone resolve.
pub open spec fn plain_argument(
    args: Seq<ValueView>,
    i: int,
    variables: Map<Seq<char>, Seq<char>>,
    data_values: Map<Seq<char>, Seq<char>>,
) -> bool {
    text_argument(args, i) is Some && is_plain(
        text_argument(args, i)->Some_0,
        variables,
        data_values,
    )
}

/// Whether an action is the platform's to run: `start_night`, `office`,
/// `goto_menu`, `play_sound`, `stop_channel`, `quit`, `line`, and every
/// action that the host has registered.
pub open spec fn is_left_to_platform(action: CodeBlockFunction) -> bool {
    match action {
        CodeBlockFunction::Custom(_) => true,
        CodeBlockFunction::Standard(verb) => verb == Verb::StartNight || verb == Verb::Office
            || verb == Verb::GotoMenu || verb == Verb::PlaySound || verb == Verb::StopChannel
            || verb == Verb::Quit || verb == Verb::Line,
    }
}

} // verus!
