//! The office: which one the player sits in, and how a night in it is set up.

use vstd::prelude::*;
use crate::button::Button2D;
use crate::engine::{EngineData, OFFICE_SCENE, Platform};
use crate::event_manager::{
    Engine, EventManager, ListenerView, Step, agenda, chained, replay, script_listeners, visits,
};
use crate::game_loader::{Code, OfficeObject, Value, forest_view, value_views};
use crate::scripting_api::{CodeBlockFunction, is_table_action};
use crate::office_data::{Animation, Button, Door, GameData, Light, Sprite, starts_night};
use crate::audio_manager::{playing_from, silenced};
use crate::table::Table;
use crate::text::{same_str, texts};
use crate::tick_manager::TickManager;

verus! {

/// The office that the player sits in and the state of the night.
#[allow(non_snake_case)]
#[derive(Debug, PartialEq, Clone)]
pub struct OfficeManager {
    pub curoffice: String,
    pub game_data: GameData,
    /// Whether an office is being set up.
    pub Loading_Lock: bool,
    pub Loaded: bool,
    /// The id of the object under the pointer; empty when there is none.
    pub hovered_id: String,
}

/// Why an office could not be set up.
#[derive(Clone, Copy, Debug, PartialEq, Eq, Structural)]
pub enum OfficeError {
    /// No office has been chosen yet.
    NoCurrentOffice,
    /// An office is being set up already.
    AlreadyLoading,
    /// The game has no office of this name.
    UnknownOffice,
}

/// An object as it stands in the office at the start of a night.
pub open spec fn fresh_sprite() -> Sprite {
    Sprite { visible: true, above_panorama: false, hovered: false }
}

/// Whether an object of this kind is a sprite.
pub open spec fn is_sprite(kind: Seq<char>) -> bool {
    kind == "sprite"@
}

/// Whether an object of this kind is the button of a door.
pub open spec fn is_door_button(kind: Seq<char>) -> bool {
    kind == "door_button"@
}

/// Whether an object of this kind is an animation.
pub open spec fn is_animation(kind: Seq<char>) -> bool {
    kind == "animation"@
}

/// Whether an object of this kind is a door.
pub open spec fn is_door(kind: Seq<char>) -> bool {
    kind == "door"@
}

/// Whether an object of this kind is the button of a light.
pub open spec fn is_light_button(kind: Seq<char>) -> bool {
    kind == "light_button"@
}

/// Whether an object of this kind stands in the office at all.
pub open spec fn stands_in_office(kind: Seq<char>) -> bool {
    is_sprite(kind) || is_door_button(kind) || is_animation(kind) || is_door(kind)
        || is_light_button(kind)
}

/// Whether an object of this kind is given a button to click on.
pub open spec fn is_clicked_on(kind: Seq<char>) -> bool {
    is_sprite(kind) || is_light_button(kind) || is_door_button(kind)
}

/// The objects of the office, by id: one for each object of a known kind.
pub open spec fn objects_of(objects: Seq<OfficeObject>) -> Map<Seq<char>, Sprite>
    decreases objects.len(),
{
    if objects.len() == 0 {
        Map::empty()
    } else if stands_in_office(objects.last().kind@) {
        objects_of(objects.drop_last()).insert(objects.last().id@, fresh_sprite())
    } else {
        objects_of(objects.drop_last())
    }
}

/// The sprites of the office, by id.
pub open spec fn sprites_of(objects: Seq<OfficeObject>) -> Map<Seq<char>, Sprite>
    decreases objects.len(),
{
    if objects.len() == 0 {
        Map::empty()
    } else if is_sprite(objects.last().kind@) {
        sprites_of(objects.drop_last()).insert(objects.last().id@, fresh_sprite())
    } else {
        sprites_of(objects.drop_last())
    }
}

/// The animations of the office, by id: each plays forward.
pub open spec fn animations_of(objects: Seq<OfficeObject>) -> Map<Seq<char>, Animation>
    decreases objects.len(),
{
    if objects.len() == 0 {
        Map::empty()
    } else if is_animation(objects.last().kind@) {
        animations_of(objects.drop_last()).insert(
            objects.last().id@,
            Animation { id: objects.last().animation, is_playing: true, is_reversed: false },
        )
    } else {
        animations_of(objects.drop_last())
    }
}

/// The doors of the office, by id: each is open, its button off and ready.
pub open spec fn doors_of(objects: Seq<OfficeObject>) -> Map<Seq<char>, Door>
    decreases objects.len(),
{
    if objects.len() == 0 {
        Map::empty()
    } else if is_door(objects.last().kind@) {
        doors_of(objects.drop_last()).insert(
            objects.last().id@,
            Door {
                is_closed: false,
                button: Button { is_on: false, clickable: true },
                animation: objects.last().animation,
            },
        )
    } else {
        doors_of(objects.drop_last())
    }
}

/// The lights of the office, by id: each is off.
pub open spec fn lights_of(objects: Seq<OfficeObject>) -> Map<Seq<char>, Light>
    decreases objects.len(),
{
    if objects.len() == 0 {
        Map::empty()
    } else if is_light_button(objects.last().kind@) {
        lights_of(objects.drop_last()).insert(
            objects.last().id@,
            Light { is_on: false, clickable: false },
        )
    } else {
        lights_of(objects.drop_last())
    }
}

/// The ids of the objects that are given a button.
pub open spec fn clicked_on(objects: Seq<OfficeObject>) -> Set<Seq<char>>
    decreases objects.len(),
{
    if objects.len() == 0 {
        Set::empty()
    } else if is_clicked_on(objects.last().kind@) {
        clicked_on(objects.drop_last()).insert(objects.last().id@)
    } else {
        clicked_on(objects.drop_last())
    }
}

/// The listeners that the scripts of the offices stand for, script after script.
pub open spec fn office_listeners(scripts: Seq<(Seq<char>, Vec<Code>)>) -> Seq<ListenerView>
    decreases scripts.len(),
{
    if scripts.len() == 0 {
        Seq::empty()
    } else {
        office_listeners(scripts.drop_last()) + script_listeners(
            forest_view(scripts.last().1@),
        )
    }
}

/// The button that is made for the object `id` of an office: an image that
/// triggers `on_sprite_clicked` with the id as its argument, and the pointer
/// is not on it yet.
pub open spec fn is_office_button(button: Button2D, id: Seq<char>) -> bool {
    &&& button.is_image
    &&& !button.is_hovered
    &&& !button.is_clicked
    &&& button.is_clickable
    &&& button.event@ == "on_sprite_clicked"@
    &&& button.event_args@.len() == 1
    &&& button.event_args@[0]@ == id
}

/// Whether `after` is the engine `before` with the buttons of its office in
/// the place of its buttons: one for each object that is clicked on, none
/// when the game has no office of the name.
pub open spec fn office_buttons_made<P>(before: EngineData<P>, after: EngineData<P>) -> bool {
    &&& after == (EngineData { buttons: after.buttons, ..before })
    &&& after.buttons@.dom() =~= (if before.game.offices@.contains_key(
        before.officemgr.curoffice@,
    ) {
        clicked_on(before.game.offices@[before.officemgr.curoffice@].objects@)
    } else {
        Set::<Seq<char>>::empty()
    })
    &&& forall|id: Seq<char>| #[trigger]
        after.buttons@.contains_key(id) ==> is_office_button(after.buttons@[id], id)
}

/// Whether no office is chosen and the state is that of a night that has
/// not begun: night 0 of a game without a path.
pub open spec fn is_new_office_manager(manager: OfficeManager) -> bool {
    &&& manager.curoffice@ == Seq::<char>::empty()
    &&& starts_night(manager.game_data, Seq::<char>::empty(), 0)
    &&& !manager.Loading_Lock
    &&& !manager.Loaded
    &&& manager.hovered_id@ == Seq::<char>::empty()
}

/// Why an office cannot be set up, if it cannot: no office has been chosen
/// yet, an office is being set up already, or the game has no office of
/// this name.
pub open spec fn office_refusal<P>(engine: EngineData<P>, office: Seq<char>) -> Option<OfficeError> {
    if engine.officemgr.curoffice@.len() == 0 {
        Some(OfficeError::NoCurrentOffice)
    } else if engine.officemgr.Loading_Lock {
        Some(OfficeError::AlreadyLoading)
    } else if !engine.game.offices@.contains_key(office) {
        Some(OfficeError::UnknownOffice)
    } else {
        None
    }
}

/// Whether `after` and `manager_after` are the engine and the event manager
/// with the office `office` filled for the night `night`: every sound is
/// off its channel, and `stopped` names the sounds that played; the office
/// holds the objects that the game defines for it, each visible and at
/// rest; the listeners are those of the office scripts; the clock is at
/// tick 0; the office is marked as being set up.
pub open spec fn office_filled<P>(
    before: EngineData<P>,
    after: EngineData<P>,
    manager_before: EventManager,
    manager_after: EventManager,
    office: Seq<char>,
    night: i32,
    stopped: Seq<Seq<char>>,
) -> bool {
    let defined = before.game.offices@[office];
    let now = after.officemgr;
    let was = before.officemgr;
    &&& after.platform == before.platform
    &&& after.game == before.game
    &&& after.scene == before.scene
    &&& after.menumgr == before.menumgr
    &&& after.buttons == before.buttons
    &&& after.clock == (TickManager { current_tick: 0, ..before.clock })
    &&& after.fullscreen == before.fullscreen
    &&& after.show_mouse == before.show_mouse
    &&& after.update_context == before.update_context
    &&& after.hovered == before.hovered
    &&& after.disabled_clicks == before.disabled_clicks
    &&& after.needs_recache == before.needs_recache
    &&& stopped == playing_from(
        before.audio.channels(),
        before.audio.sounds(),
        0,
    )
    &&& after.audio.sounds() == before.audio.sounds()
    &&& after.audio.channels() == silenced(
        before.audio.channels(),
        before.audio.sounds(),
    )
    &&& now.Loading_Lock
    &&& now.Loaded == was.Loaded
    &&& now.hovered_id@ == Seq::<char>::empty()
    &&& now.curoffice@ == office
    &&& now.game_data.night == night
    &&& now.game_data.path == was.game_data.path
    &&& now.game_data.cameras == was.game_data.cameras
    &&& now.game_data.cam_ui == was.game_data.cam_ui
    &&& now.game_data.animatronics == was.game_data.animatronics
    &&& now.game_data.office.state == was.game_data.office.state
    &&& now.game_data.office.blinking_effect
        == was.game_data.office.blinking_effect
    &&& now.game_data.office.disable_flashlight
        == was.game_data.office.disable_flashlight
    &&& now.game_data.office.states.entries() == defined.states.entries()
    &&& now.game_data.office.objects@ == objects_of(defined.objects@)
    &&& now.game_data.office.sprites@ == sprites_of(defined.objects@)
    &&& now.game_data.office.animations@ == animations_of(defined.objects@)
    &&& now.game_data.office.doors@ == doors_of(defined.objects@)
    &&& now.game_data.office.lights@ == lights_of(defined.objects@)
    &&& now.game_data.settings == was.game_data.settings
    &&& now.game_data.player == was.game_data.player
    &&& now.game_data.power == was.game_data.power
    &&& now.game_data.time == was.game_data.time
    &&& now.game_data.paused == was.game_data.paused
    &&& manager_after.listeners() == office_listeners(
        before.game.office_scripts.entries(),
    )
    &&& manager_after.code_blocks() == manager_before.code_blocks()
    &&& manager_after.variables() == manager_before.variables()
    &&& manager_after.data_values() == manager_before.data_values()
    &&& manager_after.notes() == manager_before.notes()
}

/// The engine as it enters the office scene: in that scene, with the
/// buttons due to be laid out anew.
pub open spec fn entered<P>(engine: EngineData<P>) -> EngineData<P> {
    EngineData { scene: OFFICE_SCENE, needs_recache: true, ..engine }
}

/// The engine with the office marked as set up.
pub open spec fn finished<P>(engine: EngineData<P>) -> EngineData<P> {
    EngineData { officemgr: OfficeManager { Loading_Lock: false, ..engine.officemgr }, ..engine }
}

/// What happened while an office was set up.
pub struct OfficeStart<P> {
    /// The engine and the event manager when the office was filled.
    pub engine_filled: EngineData<P>,
    pub manager_filled: EventManager,
    /// The dispatch of `on_engine_start`.
    pub engine_start: Seq<Step<EngineData<P>>>,
    /// The engine and the event manager after that dispatch.
    pub engine_started: EngineData<P>,
    pub manager_started: EventManager,
    /// The dispatch of `on_night_start`.
    pub night_start: Seq<Step<EngineData<P>>>,
    /// The engine after that dispatch.
    pub engine_night: EngineData<P>,
}

impl OfficeManager {
    /// No office chosen, the state of a night that has not begun.
    pub fn new() -> (r: OfficeManager)
        ensures
            is_new_office_manager(r),
    {
        proof {
            reveal_strlit("");
            assert(""@ =~= Seq::<char>::empty());
        }
        OfficeManager {
            curoffice: String::new(),
            game_data: GameData::new("", 0),
            Loading_Lock: false,
            Loaded: false,
            hovered_id: String::new(),
        }
    }

    /// Gives the objects of the office that are clicked on their buttons, in
    /// the place of all buttons that there were.
    pub fn recache_buttons<P>(engine: &mut EngineData<P>)
        ensures
            office_buttons_made(*old(engine), *final(engine)),
    {
        let mut buttons: Table<Button2D> = Table::new();
        match engine.game.offices.get(engine.officemgr.curoffice.as_str()) {
            Some(office) => {
                let mut i: usize = 0;
                assert(office.objects@.take(0) =~= Seq::<OfficeObject>::empty());
                while i < office.objects.len()
                    invariant
                        i <= office.objects.len(),
                        buttons@.dom() == clicked_on(office.objects@.take(i as int)),
                        forall|id: Seq<char>| #[trigger]
                            buttons@.contains_key(id) ==> is_office_button(buttons@[id], id),
                    decreases office.objects.len() - i,
                {
                    let object = &office.objects[i];
                    assert(office.objects@.take(i + 1).drop_last() == office.objects@.take(
                        i as int,
                    ));
                    assert(office.objects@.take(i + 1).last() == *object);
                    if same_str(object.kind.as_str(), "sprite") || same_str(
                        object.kind.as_str(),
                        "light_button",
                    ) || same_str(object.kind.as_str(), "door_button") {
                        let mut args: Vec<String> = Vec::new();
                        args.push(object.id.clone());
                        buttons.insert(
                            object.id.clone(),
                            Button2D::new(String::from_str("on_sprite_clicked"), args, true),
                        );
                    }
                    assert(buttons@.dom() =~= clicked_on(office.objects@.take(i + 1)));
                    i += 1;
                }
                assert(office.objects@.take(office.objects.len() as int) == office.objects@);
            },
            None => {
                assert(buttons@.dom() =~= Set::<Seq<char>>::empty());
            },
        }
        engine.buttons = buttons;
    }

    /// Fills the office `office` for the night `night`, the first step of
    /// [`OfficeManager::init_office`]: every sound is taken off its channel;
    /// the office is filled with the objects that the game defines for it,
    /// each visible and at rest; the listeners of the scene that is left make
    /// way for those of the office scripts; the clock goes back to tick 0. The
    /// result names the sounds to stop.
    ///
    /// Nothing is changed when no office has been chosen yet, when an office is
    /// being set up already or when the game has no office of this name. After
    /// a success the office is marked as being set up.
    pub fn fill_office<P>(
        office: String,
        night: i32,
        engine: &mut EngineData<P>,
        event_manager: &mut EventManager,
    ) -> (r: Result<Vec<String>, OfficeError>)
        ensures
            match r {
                Ok(stopped) => office_refusal(*old(engine), office@) is None && office_filled(
                    *old(engine),
                    *final(engine),
                    *old(event_manager),
                    *final(event_manager),
                    office@,
                    night,
                    texts(stopped@),
                ),
                Err(e) => office_refusal(*old(engine), office@) == Some(e)
                    && *final(engine) == *old(engine)
                    && *final(event_manager) == *old(event_manager),
            },
    {
        if engine.officemgr.curoffice.as_str().unicode_len() == 0 {
            return Err(OfficeError::NoCurrentOffice);
        }
        if engine.officemgr.Loading_Lock {
            return Err(OfficeError::AlreadyLoading);
        }
        let defined = match engine.game.offices.get(office.as_str()) {
            Some(defined) => defined,
            None => {
                return Err(OfficeError::UnknownOffice);
            },
        };
        let mut sprites: Table<Sprite> = Table::new();
        let mut objects: Table<Sprite> = Table::new();
        let mut animations: Table<Animation> = Table::new();
        let mut doors: Table<Door> = Table::new();
        let mut lights: Table<Light> = Table::new();
        let mut i: usize = 0;
        assert(defined.objects@.take(0) =~= Seq::<OfficeObject>::empty());
        while i < defined.objects.len()
            invariant
                i <= defined.objects.len(),
                objects@ == objects_of(defined.objects@.take(i as int)),
                sprites@ == sprites_of(defined.objects@.take(i as int)),
                animations@ == animations_of(defined.objects@.take(i as int)),
                doors@ == doors_of(defined.objects@.take(i as int)),
                lights@ == lights_of(defined.objects@.take(i as int)),
            decreases defined.objects.len() - i,
        {
            let object = &defined.objects[i];
            assert(defined.objects@.take(i + 1).drop_last() == defined.objects@.take(i as int));
            assert(defined.objects@.take(i + 1).last() == *object);
            let fresh = Sprite { visible: true, above_panorama: false, hovered: false };
            proof {
                reveal_strlit("sprite");
                reveal_strlit("door_button");
                reveal_strlit("animation");
                reveal_strlit("door");
                reveal_strlit("light_button");
                assert("sprite"@.len() == 6);
                assert("door_button"@.len() == 11);
                assert("animation"@.len() == 9);
                assert("door"@.len() == 4);
                assert("light_button"@.len() == 12);
            }
            if same_str(object.kind.as_str(), "sprite") {
                sprites.insert(object.id.clone(), fresh);
                objects.insert(object.id.clone(), fresh);
            } else if same_str(object.kind.as_str(), "door_button") {
                objects.insert(object.id.clone(), fresh);
            } else if same_str(object.kind.as_str(), "animation") {
                animations.insert(
                    object.id.clone(),
                    Animation { id: object.animation.clone(), is_playing: true, is_reversed: false },
                );
                objects.insert(object.id.clone(), fresh);
            } else if same_str(object.kind.as_str(), "door") {
                doors.insert(
                    object.id.clone(),
                    Door {
                        animation: object.animation.clone(),
                        is_closed: false,
                        button: Button { is_on: false, clickable: true },
                    },
                );
                objects.insert(object.id.clone(), fresh);
            } else if same_str(object.kind.as_str(), "light_button") {
                lights.insert(object.id.clone(), Light { is_on: false, clickable: false });
                objects.insert(object.id.clone(), fresh);
            }
            i += 1;
        }
        assert(defined.objects@.take(defined.objects.len() as int) == defined.objects@);
        let states = defined.states.clone();
        assert(states.entries() =~= defined.states.entries());

        event_manager.kill_all_listeners();
        let mut k: usize = 0;
        let ghost scripts = engine.game.office_scripts.entries();
        assert(scripts.take(0) =~= Seq::<(Seq<char>, Vec<Code>)>::empty());
        while k < engine.game.office_scripts.len()
            invariant
                k <= scripts.len(),
                scripts == engine.game.office_scripts.entries(),
                event_manager.listeners() == office_listeners(scripts.take(k as int)),
                event_manager.code_blocks() == old(event_manager).code_blocks(),
                event_manager.variables() == old(event_manager).variables(),
                event_manager.data_values() == old(event_manager).data_values(),
                event_manager.notes() == old(event_manager).notes(),
                *engine == *old(engine),
            decreases scripts.len() - k,
        {
            assert(scripts.take(k + 1).drop_last() == scripts.take(k as int));
            assert(scripts.take(k + 1).last() == scripts[k as int]);
            event_manager.run_script(engine.game.office_scripts.value_at(k));
            k += 1;
        }
        assert(scripts.take(scripts.len() as int) == scripts);

        let stopped = engine.audio.kill_all();
        engine.officemgr.Loading_Lock = true;
        engine.officemgr.hovered_id = String::new();
        engine.officemgr.game_data.night = night;
        engine.officemgr.curoffice = office;
        engine.officemgr.game_data.office.states = states;
        engine.officemgr.game_data.office.sprites = sprites;
        engine.officemgr.game_data.office.animations = animations;
        engine.officemgr.game_data.office.lights = lights;
        engine.officemgr.game_data.office.doors = doors;
        engine.officemgr.game_data.office.objects = objects;
        engine.clock.reset();
        Ok(stopped)
    }

    /// Sets up the office `office` for the night `night`. The office is
    /// filled as [`OfficeManager::fill_office`] has it; the office scripts
    /// are told that the engine starts (`on_engine_start`); the engine
    /// enters the office scene; the scripts are told that the night starts
    /// (`on_night_start`); and the office is marked as set up. The result
    /// names the sounds that the filling took off their channels.
    ///
    /// Nothing is changed when no office has been chosen yet, when an office is
    /// being set up already or when the game has no office of this name.
    pub fn init_office<P: Platform>(
        office: String,
        night: i32,
        engine: &mut EngineData<P>,
        event_manager: &mut EventManager,
    ) -> (r: (Result<Vec<String>, OfficeError>, Ghost<OfficeStart<P>>))
        ensures
            match r.0 {
                Ok(stopped) => {
                    let start = r.1@;
                    &&& office_refusal(*old(engine), office@) is None
                    &&& office_filled(
                        *old(engine),
                        start.engine_filled,
                        *old(event_manager),
                        start.manager_filled,
                        office@,
                        night,
                        texts(stopped@),
                    )
                    &&& replay(
                        agenda(
                            start.manager_filled.listeners(),
                            "on_engine_start"@,
                            Seq::<Seq<char>>::empty(),
                        ),
                        visits(start.engine_start),
                    )
                    &&& chained(
                        start.engine_start,
                        start.engine_filled,
                        start.manager_filled,
                        start.engine_started,
                        start.manager_started,
                    )
                    &&& replay(
                        agenda(
                            start.manager_started.listeners(),
                            "on_night_start"@,
                            Seq::<Seq<char>>::empty(),
                        ),
                        visits(start.night_start),
                    )
                    &&& chained(
                        start.night_start,
                        entered(start.engine_started),
                        start.manager_started,
                        start.engine_night,
                        *final(event_manager),
                    )
                    &&& *final(engine) == finished(start.engine_night)
                },
                Err(e) => office_refusal(*old(engine), office@) == Some(e)
                    && *final(engine) == *old(engine)
                    && *final(event_manager) == *old(event_manager),
            },
            forall|i: int|
                0 <= i < r.1@.engine_start.len() ==> (#[trigger] r.1@.engine_start[i]).by_name(),
            forall|i: int|
                0 <= i < r.1@.night_start.len() ==> (#[trigger] r.1@.night_start[i]).by_name(),
            forall|i: int|
                0 <= i < r.1@.engine_start.len() ==> (#[trigger] r.1@.engine_start[i]).settled() && (r.1@.engine_start[i].action is Some && !is_table_action(
                    r.1@.engine_start[i].action->Some_0,
                ) ==> exists|
                    engine: &mut EngineData<P>,
                    manager: &mut EventManager,
                    handed: CodeBlockFunction,
                    args: Vec<Value>,
                    result: bool,
                |
                    #[trigger] call_ensures(<EngineData<P> as Engine>::perform, (engine, manager, handed, &args), result)
                        && *engine == r.1@.engine_start[i].engine_before && *final(engine) == r.1@.engine_start[i].engine_after
                        && *manager == r.1@.engine_start[i].manager_before && *final(manager) == r.1@.engine_start[i].manager_after
                        && handed == r.1@.engine_start[i].action->Some_0 && value_views(args@) == r.1@.engine_start[i].visit.args
                        && result == r.1@.engine_start[i].result),
            forall|i: int|
                0 <= i < r.1@.night_start.len() ==> (#[trigger] r.1@.night_start[i]).settled() && (r.1@.night_start[i].action is Some && !is_table_action(
                    r.1@.night_start[i].action->Some_0,
                ) ==> exists|
                    engine: &mut EngineData<P>,
                    manager: &mut EventManager,
                    handed: CodeBlockFunction,
                    args: Vec<Value>,
                    result: bool,
                |
                    #[trigger] call_ensures(<EngineData<P> as Engine>::perform, (engine, manager, handed, &args), result)
                        && *engine == r.1@.night_start[i].engine_before && *final(engine) == r.1@.night_start[i].engine_after
                        && *manager == r.1@.night_start[i].manager_before && *final(manager) == r.1@.night_start[i].manager_after
                        && handed == r.1@.night_start[i].action->Some_0 && value_views(args@) == r.1@.night_start[i].visit.args
                        && result == r.1@.night_start[i].result),
    {
        let ghost engine_before = *engine;
        let ghost manager_before = *event_manager;
        match Self::fill_office(office, night, engine, event_manager) {
            Err(e) => {
                let ghost start = OfficeStart {
                    engine_filled: engine_before,
                    manager_filled: manager_before,
                    engine_start: Seq::<Step<EngineData<P>>>::empty(),
                    engine_started: engine_before,
                    manager_started: manager_before,
                    night_start: Seq::<Step<EngineData<P>>>::empty(),
                    engine_night: engine_before,
                };
                (Err(e), Ghost(start))
            },
            Ok(stopped) => {
                let ghost engine_filled = *engine;
                let ghost manager_filled = *event_manager;
                let none: Vec<String> = Vec::new();
                assert(texts(none@) =~= Seq::<Seq<char>>::empty());
                let engine_start = event_manager.trigger_event(
                    "on_engine_start",
                    none.as_slice(),
                    engine,
                );
                let ghost engine_started = *engine;
                let ghost manager_started = *event_manager;
                Self::enter_office(engine);
                let night_start = event_manager.trigger_event(
                    "on_night_start",
                    none.as_slice(),
                    engine,
                );
                let ghost engine_night = *engine;
                Self::finish_office(engine);
                let ghost start = OfficeStart {
                    engine_filled,
                    manager_filled,
                    engine_start: engine_start@,
                    engine_started,
                    manager_started,
                    night_start: night_start@,
                    engine_night,
                };
                (Ok(stopped), Ghost(start))
            },
        }
    }

    /// Shows the office that has been set up: the engine is in the office
    /// scene, and the buttons are due to be laid out anew.
    pub fn enter_office<P>(engine: &mut EngineData<P>)
        ensures
            *final(engine) == entered(*old(engine)),
    {
        engine.scene = OFFICE_SCENE;
        engine.needs_recache = true;
    }

    /// Marks the office as set up.
    pub fn finish_office<P>(engine: &mut EngineData<P>)
        ensures
            *final(engine) == finished(*old(engine)),
    {
        engine.officemgr.Loading_Lock = false;
    }
}

} // verus!
