//! The state of the engine that scripts act on, and what the engine needs
//! from the platform it runs on.

use vstd::prelude::*;
use crate::audio_manager::{AudioManager, CHANNELS};
use crate::button::Button2D;
use crate::event_manager::{Engine, EventManager};
use crate::expression::Numbers;
use crate::game_loader::{Game, Value, value_views};
use crate::math_evaluator::MathExpr;
use crate::menu_manager::{MenuManager, menu_buttons_made};
use crate::office_manager::{OfficeManager, is_new_office_manager, office_buttons_made};
use crate::scripting_api::{
    CodeBlockFunction, ScriptingAPI, is_left_to_platform, standard_effect,
};
use crate::table::Table;
use crate::tick_manager::TickManager;

verus! {

/// What the engine leaves to the platform it runs on: numbers, and the
/// actions that reach beyond the state of the engine.
pub trait Platform: Sized {
    /// The value of an arithmetic tree, as text.
    fn number_text(&mut self, tree: &MathExpr) -> String;

    /// Runs an action that the engine does not run itself (`goto_menu`,
    /// `office`, `start_night`, `play_sound`, `stop_channel`, `quit`, `line`
    /// and the actions that the host has registered) and says whether the
    /// block opens.
    fn perform(
        engine_data: &mut EngineData<Self>,
        event_manager: &mut EventManager,
        action: CodeBlockFunction,
        args: &Vec<Value>,
    ) -> bool;
}

/// The scene in which menus are shown.
pub const MENU_SCENE: i32 = 0;

/// The scene in which the office is shown.
pub const OFFICE_SCENE: i32 = 1;

/// The state of the engine.
pub struct EngineData<P> {
    pub platform: P,
    pub game: Game,
    pub scene: i32,
    pub menumgr: MenuManager,
    pub officemgr: OfficeManager,
    pub buttons: Table<Button2D>,
    pub clock: TickManager,
    pub audio: AudioManager,
    pub fullscreen: bool,
    pub show_mouse: bool,
    pub update_context: bool,
    pub hovered: bool,
    /// Whether a click is already dealt with: for the left, the middle and
    /// the right mouse button, and for the button under the pointer.
    pub disabled_clicks: Vec<bool>,
    pub needs_recache: bool,
}

impl<P> EngineData<P> {
    /// Whether the state is in order: the clicks of all three mouse buttons
    /// and of the button under the pointer are kept track of.
    pub open spec fn well_formed(&self) -> bool {
        self.disabled_clicks.len() == 4
    }

    /// The engine before its first menu: in the menu scene, windowed, the
    /// pointer shown, nothing on the screen.
    pub fn new(platform: P, game: Game) -> (r: Self)
        ensures
            r.well_formed(),
            r.platform == platform,
            r.game == game,
            r.scene == MENU_SCENE,
            r.menumgr.curmenu@ == Seq::<char>::empty(),
            r.menumgr.arrows_enabled,
            r.menumgr.selected_button_id@ == Seq::<char>::empty(),
            is_new_office_manager(r.officemgr),
            r.buttons@ == Map::<Seq<char>, Button2D>::empty(),
            r.audio.sounds() == Seq::<Seq<char>>::empty(),
            r.audio.channels() == Seq::new(CHANNELS as nat, |i: int| Seq::<char>::empty()),
            r.clock == (TickManager { current_tick: 0, ticked: false, stop_signal: false }),
            !r.fullscreen,
            r.show_mouse,
            !r.update_context,
            !r.hovered,
            r.disabled_clicks@ == seq![false, false, false, false],
            !r.needs_recache,
    {
        let mut disabled_clicks: Vec<bool> = Vec::new();
        disabled_clicks.push(false);
        disabled_clicks.push(false);
        disabled_clicks.push(false);
        disabled_clicks.push(false);
        assert(disabled_clicks@ =~= seq![false, false, false, false]);
        EngineData {
            platform,
            game,
            scene: MENU_SCENE,
            menumgr: MenuManager::new(),
            officemgr: OfficeManager::new(),
            buttons: Table::new(),
            clock: TickManager::new(),
            audio: AudioManager::new(),
            fullscreen: false,
            show_mouse: true,
            update_context: false,
            hovered: false,
            disabled_clicks,
            needs_recache: false,
        }
    }

    /// Lays the buttons out anew if that is due: those of the menu in the
    /// menu scene, those of the office in the office scene.
    pub fn recache(&mut self) -> (done: bool)
        ensures
            done == old(self).needs_recache,
            !done ==> *final(self) == *old(self),
            done && old(self).scene == MENU_SCENE ==> menu_buttons_made(
                EngineData { needs_recache: false, ..*old(self) },
                *final(self),
            ),
            done && old(self).scene == OFFICE_SCENE ==> office_buttons_made(
                EngineData { needs_recache: false, ..*old(self) },
                *final(self),
            ),
            done && old(self).scene != MENU_SCENE && old(self).scene != OFFICE_SCENE ==> *final(self)
                == (EngineData { needs_recache: false, ..*old(self) }),
    {
        if !self.needs_recache {
            return false;
        }
        self.needs_recache = false;
        if self.scene == MENU_SCENE {
            MenuManager::recache_buttons(self);
        } else if self.scene == OFFICE_SCENE {
            OfficeManager::recache_buttons(self);
        }
        true
    }
}

impl<P: Platform> Numbers for EngineData<P> {
    /// The text that the platform gives for the tree. Nothing but the
    /// platform changes, and the platform as its own `number_text` leaves it.
    fn number_text(&mut self, tree: &MathExpr) -> (r: String)
        ensures
            *final(self) == (EngineData { platform: final(self).platform, ..*old(self) }),
            exists|platform: &mut P|
                *platform == old(self).platform && *final(platform) == final(self).platform
                    && #[trigger] call_ensures(P::number_text, (platform, tree), r),
    {
        self.platform.number_text(tree)
    }
}

impl<P: Platform> Engine for EngineData<P> {
    /// One of the engine's own actions is run here, with the effect that
    /// the action has; any other is handed to the platform, and the result
    /// and the states are those that the platform's `perform` left.
    fn perform(
        &mut self,
        event_manager: &mut EventManager,
        action: CodeBlockFunction,
        args: &Vec<Value>,
    ) -> (r: bool)
        ensures
            !is_left_to_platform(action) ==> standard_effect(
                action,
                *old(self),
                *final(self),
                *old(event_manager),
                *final(event_manager),
                value_views(args@),
                r,
            ),
            is_left_to_platform(action) ==> exists|
                engine: &mut EngineData<P>,
                manager: &mut EventManager,
            |
                *engine == *old(self) && *final(engine) == *final(self)
                    && *manager == *old(event_manager)
                    && *final(manager) == *final(event_manager) && #[trigger] call_ensures(
                    P::perform,
                    (engine, manager, action, args),
                    r,
                ),
    {
        match ScriptingAPI::run_standard(self, event_manager, action, args) {
            Some(opened) => opened,
            None => P::perform(self, event_manager, action, args),
        }
    }
}

} // verus!
