//! What a tick of the clock sets off: the events of the game loop, and the
//! events that the pointer and the mouse buttons give rise to.
//!
//! The functions here change the state of the engine and name the events;
//! it is for the caller to trigger them, in the order in which they stand.

use vstd::prelude::*;
use crate::button::Button2D;
use crate::engine::{EngineData, MENU_SCENE, OFFICE_SCENE};
use crate::office_data::Sprite;
use crate::scripting_api::ScriptingAPI;
use crate::table::Table;
use crate::text::{clone_strings, decimal, decimal_of_u64, string_of, texts};

verus! {

/// A mouse button.
#[derive(Clone, Copy, Debug, PartialEq, Eq, Structural)]
pub enum MouseButton {
    Left,
    Middle,
    Right,
}

/// The place of a mouse button among the clicks that are kept track of.
#[allow(non_snake_case)]
pub fn MouseButton_to_i32(value: MouseButton) -> (r: usize)
    ensures
        r == (match value {
            MouseButton::Left => 0usize,
            MouseButton::Middle => 1usize,
            MouseButton::Right => 2usize,
        }),
{
    match value {
        MouseButton::Left => 0,
        MouseButton::Middle => 1,
        MouseButton::Right => 2,
    }
}

/// The place, among the clicks that are kept track of, of the click on the
/// button under the pointer.
pub const BUTTON_CLICK: usize = 3;

/// An event to trigger.
#[derive(Debug, PartialEq, Clone)]
pub struct Event {
    pub name: String,
    pub args: Vec<String>,
}

/// What an [`Event`] stands for in contracts.
pub struct EventView {
    pub name: Seq<char>,
    pub args: Seq<Seq<char>>,
}

impl View for Event {
    type V = EventView;

    open spec fn view(&self) -> EventView {
        EventView { name: self.name@, args: texts(self.args@) }
    }
}

/// The views of a sequence of events.
pub open spec fn event_views(events: Seq<Event>) -> Seq<EventView> {
    Seq::new(events.len(), |i: int| events[i]@)
}

/// Where the pointer is and which mouse buttons are held.
#[derive(Debug, PartialEq, Clone)]
pub struct Pointer {
    /// For each button of the engine, in the order of its table, whether the
    /// pointer is inside it; a button beyond the end of the list does not
    /// hold the pointer.
    pub inside: Vec<bool>,
    pub left_down: bool,
    pub left_up: bool,
    pub middle_down: bool,
    pub middle_up: bool,
    pub right_down: bool,
    pub right_up: bool,
}

impl Pointer {
    /// Whether the pointer is inside the button at place `i`.
    pub open spec fn is_inside(&self, i: int) -> bool {
        0 <= i < self.inside.len() && self.inside[i]
    }

    /// Whether the pointer is inside the button at place `i`.
    pub fn holds(&self, i: usize) -> (r: bool)
        ensures
            r == self.is_inside(i as int),
    {
        i < self.inside.len() && self.inside[i]
    }
}

/// A button after it has taken note of the pointer.
pub open spec fn noted(button: Button2D, pointer_inside: bool, left_down: bool, left_up: bool) -> Button2D {
    Button2D {
        is_hovered: pointer_inside,
        is_clicked: button.is_clickable && left_down && pointer_inside,
        is_clickable: left_up && !(button.is_clickable && left_down && pointer_inside),
        ..button
    }
}

/// The last of the first `k` buttons that holds the pointer.
pub open spec fn last_hovered(pointer: Pointer, k: int) -> Option<int>
    decreases k,
{
    if k <= 0 {
        None
    } else if pointer.is_inside(k - 1) {
        Some(k - 1)
    } else {
        last_hovered(pointer, k - 1)
    }
}

/// The last of the first `k` buttons that is clicked: one that holds the
/// pointer and was ready for a click, while the left mouse button is down.
pub open spec fn last_clicked(buttons: Seq<(Seq<char>, Button2D)>, pointer: Pointer, k: int) -> Option<
    int,
>
    decreases k,
{
    if k <= 0 || k > buttons.len() {
        None
    } else if pointer.is_inside(k - 1) && buttons[k - 1].1.is_clickable && pointer.left_down {
        Some(k - 1)
    } else {
        last_clicked(buttons, pointer, k - 1)
    }
}

/// Which object of the office is under the pointer, and the objects.
pub struct Hover {
    pub objects: Map<Seq<char>, Sprite>,
    pub hovered_id: Seq<char>,
}

/// The pointer comes to the object `id`: the object that it was on, if any,
/// is no longer hovered, and `id` is, if there is such an object.
pub open spec fn hover_on(hover: Hover, id: Seq<char>) -> Hover {
    let left = if hover.hovered_id.len() > 0 && hover.objects.contains_key(hover.hovered_id) {
        hover.objects.insert(
            hover.hovered_id,
            Sprite { hovered: false, ..hover.objects[hover.hovered_id] },
        )
    } else {
        hover.objects
    };
    let reached = if left.contains_key(id) {
        left.insert(id, Sprite { hovered: true, ..left[id] })
    } else {
        left
    };
    Hover { objects: reached, hovered_id: id }
}

/// The objects after the pointer has come to each of the first `k` buttons
/// that hold it, in their order.
pub open spec fn hover_after(
    hover: Hover,
    buttons: Seq<(Seq<char>, Button2D)>,
    pointer: Pointer,
    k: int,
) -> Hover
    decreases k,
{
    if k <= 0 || k > buttons.len() {
        hover
    } else if pointer.is_inside(k - 1) {
        hover_on(hover_after(hover, buttons, pointer, k - 1), buttons[k - 1].0)
    } else {
        hover_after(hover, buttons, pointer, k - 1)
    }
}

/// An event without arguments.
pub open spec fn plain_event(name: Seq<char>) -> EventView {
    EventView { name, args: Seq::<Seq<char>>::empty() }
}

/// The events of a button that holds the pointer when none held it at the
/// last tick: `button_selected` (`image_selected` for an image) with the id
/// of the button, then `any_button_selected`.
pub open spec fn selection_events(selected: Option<(Seq<char>, bool)>, hovered: bool) -> Seq<
    EventView,
> {
    match selected {
        Some((id, is_image)) => if hovered {
            Seq::<EventView>::empty()
        } else {
            seq![
                EventView {
                    name: if is_image {
                        "image_selected"@
                    } else {
                        "button_selected"@
                    },
                    args: seq![id],
                },
                plain_event("any_button_selected"@),
            ]
        },
        None => Seq::<EventView>::empty(),
    }
}

/// The event of the button that is clicked, if it has one, when a button
/// holds the pointer and no click on it is dealt with yet.
pub open spec fn click_events(selected: bool, clicked: Option<EventView>, dealt_with: bool) -> Seq<
    EventView,
> {
    match clicked {
        Some(event) => if selected && !dealt_with && event.name.len() > 0 {
            seq![event]
        } else {
            Seq::<EventView>::empty()
        },
        None => Seq::<EventView>::empty(),
    }
}

/// The event of a mouse button that is down when its click is not dealt with yet.
pub open spec fn mouse_events(name: Seq<char>, dealt_with: bool, down: bool) -> Seq<EventView> {
    if !dealt_with && down {
        seq![plain_event(name)]
    } else {
        Seq::<EventView>::empty()
    }
}

/// The events of the pointer and the mouse buttons, in their order: those of
/// the button that holds the pointer, then those of the left, the right and
/// the middle mouse button.
pub open spec fn pointer_events(
    selected: Option<(Seq<char>, bool)>,
    clicked: Option<EventView>,
    hovered: bool,
    disabled: Seq<bool>,
    pointer: Pointer,
) -> Seq<EventView> {
    selection_events(selected, hovered) + click_events(selected is Some, clicked, disabled[3])
        + mouse_events("user_left_clicked"@, disabled[0], pointer.left_down) + mouse_events(
        "user_right_clicked"@,
        disabled[2],
        pointer.right_down,
    ) + mouse_events("user_middle_clicked"@, disabled[1], pointer.middle_down)
}

/// Whether the click of a mouse button is dealt with after a tick: it is
/// once the button is down, and it no longer is once the button is up.
pub open spec fn click_dealt_with(was: bool, down: bool, up: bool) -> bool {
    if !was && down {
        true
    } else if was && up {
        false
    } else {
        was
    }
}

/// Whether the click on the button under the pointer is dealt with after a
/// tick: it is once the event of a clicked button is due, it no longer is at
/// the next tick with a button under the pointer.
pub open spec fn button_click_dealt_with(
    was: bool,
    selected: bool,
    clicked: Option<EventView>,
) -> bool {
    if !selected {
        was
    } else if was {
        false
    } else {
        clicked is Some && clicked->Some_0.name.len() > 0
    }
}

/// The clicks that are dealt with after a tick.
pub open spec fn clicks_after(
    disabled: Seq<bool>,
    selected: bool,
    clicked: Option<EventView>,
    pointer: Pointer,
) -> Seq<bool> {
    seq![
        click_dealt_with(disabled[0], pointer.left_down, pointer.left_up),
        click_dealt_with(disabled[1], pointer.middle_down, pointer.middle_up),
        click_dealt_with(disabled[2], pointer.right_down, pointer.right_up),
        button_click_dealt_with(disabled[3], selected, clicked),
    ]
}

/// The event that the button at the place `place` triggers when it is clicked.
pub open spec fn click_event(buttons: Seq<(Seq<char>, Button2D)>, place: Option<int>) -> Option<
    EventView,
> {
    match place {
        Some(i) => Some(
            EventView { name: buttons[i].1.event@, args: texts(buttons[i].1.event_args@) },
        ),
        None => None,
    }
}

/// The button at the place `place` as the selected button: its id, and
/// whether it is an image.
pub open spec fn selection(buttons: Seq<(Seq<char>, Button2D)>, place: Option<int>) -> Option<
    (Seq<char>, bool),
> {
    match place {
        Some(i) => Some((buttons[i].0, buttons[i].1.is_image)),
        None => None,
    }
}

/// Whether `after` is `before` once the engine has kept track of the
/// pointer: every button has taken note of it; in the menu scene the menu
/// manager holds the id of the last button that holds the pointer, in the
/// office scene the pointer has come to the objects of the buttons that hold
/// it; with no button under the pointer the menu manager holds no id.
/// Nothing is said of `hovered` and `disabled_clicks`.
pub open spec fn pointer_tracked<P>(before: EngineData<P>, after: EngineData<P>, pointer: Pointer) -> bool {
    let buttons = before.buttons.entries();
    let count = buttons.len() as int;
    &&& after.buttons.entries().len() == count
    &&& forall|i: int|
        0 <= i < count ==> (#[trigger] after.buttons.entries()[i]) == (
            buttons[i].0,
            noted(buttons[i].1, pointer.is_inside(i), pointer.left_down, pointer.left_up),
        )
    &&& after.menumgr.selected_button_id@ == (match last_hovered(pointer, count) {
        Some(i) => if before.scene == MENU_SCENE {
            buttons[i].0
        } else {
            before.menumgr.selected_button_id@
        },
        None => Seq::<char>::empty(),
    })
    &&& after.menumgr.curmenu == before.menumgr.curmenu
    &&& after.menumgr.arrows_enabled == before.menumgr.arrows_enabled
    &&& before.scene == OFFICE_SCENE ==> (Hover {
        objects: after.officemgr.game_data.office.objects@,
        hovered_id: after.officemgr.hovered_id@,
    }) == hover_after(
        Hover {
            objects: before.officemgr.game_data.office.objects@,
            hovered_id: before.officemgr.hovered_id@,
        },
        buttons,
        pointer,
        count,
    )
    &&& before.scene != OFFICE_SCENE ==> after.officemgr == before.officemgr
    &&& after.scene == before.scene
    &&& after.platform == before.platform
    &&& after.game == before.game
    &&& after.clock == before.clock
    &&& after.audio == before.audio
    &&& after.fullscreen == before.fullscreen
    &&& after.show_mouse == before.show_mouse
    &&& after.update_context == before.update_context
    &&& after.needs_recache == before.needs_recache
}

impl ScriptingAPI {
    /// The events of the game loop at the tick `tick`: `on_game_loop` with
    /// one empty argument, then `current_tick_equals` with the tick.
    pub fn loop_events(tick: u64) -> (events: Vec<Event>)
        ensures
            event_views(events@) == seq![
                EventView { name: "on_game_loop"@, args: seq![Seq::<char>::empty()] },
                EventView { name: "current_tick_equals"@, args: seq![decimal(tick as int)] },
            ],
    {
        let mut events: Vec<Event> = Vec::new();
        let mut no_args: Vec<String> = Vec::new();
        no_args.push(String::new());
        events.push(Event { name: String::from_str("on_game_loop"), args: no_args });
        let mut tick_args: Vec<String> = Vec::new();
        tick_args.push(string_of(&decimal_of_u64(tick)));
        events.push(Event { name: String::from_str("current_tick_equals"), args: tick_args });
        assert(event_views(events@) =~= seq![
            EventView { name: "on_game_loop"@, args: seq![Seq::<char>::empty()] },
            EventView { name: "current_tick_equals"@, args: seq![decimal(tick as int)] },
        ]) by {
            assert(texts(events@[0].args@) =~= seq![Seq::<char>::empty()]);
            assert(texts(events@[1].args@) =~= seq![decimal(tick as int)]);
        }
        events
    }

    /// Lets every button take note of the pointer. The result holds the place
    /// of the last button that holds the pointer and the place of the last
    /// button that is clicked.
    pub fn note_pointer(buttons: &mut Table<Button2D>, pointer: &Pointer) -> (r: (
        Option<usize>,
        Option<usize>,
    ))
        ensures
            final(buttons).entries().len() == old(buttons).entries().len(),
            forall|i: int|
                0 <= i < old(buttons).entries().len() ==> (#[trigger] final(buttons).entries()[i])
                    == (
                    old(buttons).entries()[i].0,
                    noted(
                        old(buttons).entries()[i].1,
                        pointer.is_inside(i),
                        pointer.left_down,
                        pointer.left_up,
                    ),
                ),
            match r.0 {
                Some(i) => last_hovered(*pointer, old(buttons).entries().len() as int) == Some(
                    i as int,
                ) && i < old(buttons).entries().len(),
                None => last_hovered(*pointer, old(buttons).entries().len() as int) is None,
            },
            match r.1 {
                Some(i) => last_clicked(
                    old(buttons).entries(),
                    *pointer,
                    old(buttons).entries().len() as int,
                ) == Some(i as int) && i < old(buttons).entries().len(),
                None => last_clicked(
                    old(buttons).entries(),
                    *pointer,
                    old(buttons).entries().len() as int,
                ) is None,
            },
    {
        let ghost before = buttons.entries();
        let mut selected: Option<usize> = None;
        let mut clicked: Option<usize> = None;
        let count = buttons.len();
        let mut i: usize = 0;
        while i < count
            invariant
                i <= count,
                count == before.len(),
                buttons.entries().len() == before.len(),
                forall|k: int|
                    0 <= k < i ==> (#[trigger] buttons.entries()[k]) == (
                        before[k].0,
                        noted(
                            before[k].1,
                            pointer.is_inside(k),
                            pointer.left_down,
                            pointer.left_up,
                        ),
                    ),
                forall|k: int| i <= k < before.len() ==> (#[trigger] buttons.entries()[k]) == before[k],
                match selected {
                    Some(s) => last_hovered(*pointer, i as int) == Some(s as int) && s < i,
                    None => last_hovered(*pointer, i as int) is None,
                },
                match clicked {
                    Some(c) => last_clicked(before, *pointer, i as int) == Some(c as int) && c < i,
                    None => last_clicked(before, *pointer, i as int) is None,
                },
            decreases count - i,
        {
            let inside = pointer.holds(i);
            assert(buttons.entries()[i as int] == before[i as int]);
            let button = buttons.value_at_mut(i);
            button.update(inside, pointer.left_down, pointer.left_up);
            let is_clicked = button.is_clicked;
            if inside {
                if is_clicked {
                    clicked = Some(i);
                }
                selected = Some(i);
            }
            i += 1;
        }
        (selected, clicked)
    }

    /// The pointer comes to the object `id` of the office.
    pub fn hover_object(objects: &mut Table<Sprite>, hovered_id: &mut String, id: &str)
        ensures
            (Hover { objects: final(objects)@, hovered_id: final(hovered_id)@ }) == hover_on(
                Hover { objects: old(objects)@, hovered_id: old(hovered_id)@ },
                id@,
            ),
    {
        if hovered_id.as_str().unicode_len() > 0 {
            match objects.get_mut(hovered_id.as_str()) {
                Some(left) => {
                    left.hovered = false;
                },
                None => {},
            }
        }
        match objects.get_mut(id) {
            Some(reached) => {
                reached.hovered = true;
            },
            None => {},
        }
        *hovered_id = String::from_str(id);
    }

    /// The pointer comes to the object of each button that holds it, in the
    /// order of the buttons.
    pub fn hover_objects(
        objects: &mut Table<Sprite>,
        hovered_id: &mut String,
        buttons: &Table<Button2D>,
        pointer: &Pointer,
    )
        ensures
            (Hover { objects: final(objects)@, hovered_id: final(hovered_id)@ }) == hover_after(
                Hover { objects: old(objects)@, hovered_id: old(hovered_id)@ },
                buttons.entries(),
                *pointer,
                buttons.entries().len() as int,
            ),
    {
        let ghost start = Hover { objects: objects@, hovered_id: hovered_id@ };
        let count = buttons.len();
        let mut i: usize = 0;
        while i < count
            invariant
                i <= count,
                count == buttons.entries().len(),
                (Hover { objects: objects@, hovered_id: hovered_id@ }) == hover_after(
                    start,
                    buttons.entries(),
                    *pointer,
                    i as int,
                ),
            decreases count - i,
        {
            if pointer.holds(i) {
                Self::hover_object(objects, hovered_id, buttons.name_at(i));
            }
            i += 1;
        }
    }

    /// The events of a button that comes to hold the pointer.
    pub fn selected_events(id: &str, is_image: bool) -> (events: Vec<Event>)
        ensures
            event_views(events@) == selection_events(Some((id@, is_image)), false),
    {
        let mut events: Vec<Event> = Vec::new();
        let mut args: Vec<String> = Vec::new();
        args.push(String::from_str(id));
        let name = if is_image {
            String::from_str("image_selected")
        } else {
            String::from_str("button_selected")
        };
        events.push(Event { name, args });
        events.push(Event { name: String::from_str("any_button_selected"), args: Vec::new() });
        assert(texts(events@[0].args@) =~= seq![id@]);
        assert(texts(events@[1].args@) =~= Seq::<Seq<char>>::empty());
        assert(event_views(events@) =~= selection_events(Some((id@, is_image)), false));
        events
    }

    /// Brings the click of a mouse button up to date: when the button is down
    /// and its click is not dealt with yet, the event `name` is due and the
    /// click is dealt with; when the button is up, the click no longer is.
    pub fn mouse_click(
        disabled_clicks: &mut Vec<bool>,
        at: usize,
        name: &str,
        down: bool,
        up: bool,
        events: &mut Vec<Event>,
    )
        requires
            at < old(disabled_clicks).len(),
        ensures
            final(disabled_clicks)@ == old(disabled_clicks)@.update(
                at as int,
                click_dealt_with(old(disabled_clicks)[at as int], down, up),
            ),
            event_views(final(events)@) == event_views(old(events)@) + mouse_events(
                name@,
                old(disabled_clicks)[at as int],
                down,
            ),
    {
        if !disabled_clicks[at] && down {
            let ghost before = event_views(events@);
            events.push(Event { name: String::from_str(name), args: Vec::new() });
            assert(texts(events@[events.len() - 1].args@) =~= Seq::<Seq<char>>::empty());
            assert(event_views(events@) =~= before + seq![plain_event(name@)]);
            disabled_clicks.set(at, true);
        } else {
            assert(event_views(events@) + Seq::<EventView>::empty() =~= event_views(events@));
            if disabled_clicks[at] && up {
                disabled_clicks.set(at, false);
            } else {
                assert(disabled_clicks@ =~= disabled_clicks@.update(
                    at as int,
                    disabled_clicks[at as int],
                ));
            }
        }
    }

    /// The events of the button under the pointer: those of its selection,
    /// then the event of the button that is clicked. Brings up to date whether
    /// a button holds the pointer and whether the click on it is dealt with.
    pub fn button_events(
        buttons: &Table<Button2D>,
        selected: Option<usize>,
        clicked: Option<usize>,
        hovered: &mut bool,
        disabled_clicks: &mut Vec<bool>,
    ) -> (events: Vec<Event>)
        requires
            old(disabled_clicks).len() == 4,
            selected matches Some(i) ==> i < buttons.entries().len(),
            clicked matches Some(i) ==> i < buttons.entries().len(),
        ensures
            ({
                let chosen = selection(
                    buttons.entries(),
                    match selected {
                        Some(i) => Some(i as int),
                        None => None,
                    },
                );
                let due = click_event(
                    buttons.entries(),
                    match clicked {
                        Some(i) => Some(i as int),
                        None => None,
                    },
                );
                &&& event_views(events@) == selection_events(chosen, *old(hovered)) + click_events(
                    selected is Some,
                    due,
                    old(disabled_clicks)[3],
                )
                &&& *final(hovered) == selected is Some
                &&& final(disabled_clicks)@ == old(disabled_clicks)@.update(
                    3,
                    button_click_dealt_with(old(disabled_clicks)[3], selected is Some, due),
                )
            }),
    {
        let mut events: Vec<Event> = Vec::new();
        assert(event_views(events@) =~= Seq::<EventView>::empty());
        match selected {
            Some(place) => {
                if !*hovered {
                    events = Self::selected_events(
                        buttons.name_at(place),
                        buttons.value_at(place).is_image,
                    );
                    *hovered = true;
                }
                let ghost first = event_views(events@);
                if !disabled_clicks[BUTTON_CLICK] {
                    let mut due = false;
                    match clicked {
                        Some(at) => {
                            let button = buttons.value_at(at);
                            if button.event.as_str().unicode_len() > 0 {
                                let event = Event {
                                    name: button.event.clone(),
                                    args: clone_strings(button.event_args.as_slice()),
                                };
                                events.push(event);
                                assert(event_views(events@) =~= first + seq![event@]);
                                due = true;
                            }
                        },
                        None => {},
                    }
                    if due {
                        disabled_clicks.set(BUTTON_CLICK, true);
                    } else {
                        assert(event_views(events@) =~= first + Seq::<EventView>::empty());
                        assert(disabled_clicks@ =~= old(disabled_clicks)@.update(3, false));
                    }
                } else {
                    assert(event_views(events@) =~= first + Seq::<EventView>::empty());
                    disabled_clicks.set(BUTTON_CLICK, false);
                }
            },
            None => {
                *hovered = false;
                assert(event_views(events@) =~= Seq::<EventView>::empty() + Seq::<
                    EventView,
                >::empty());
                assert(disabled_clicks@ =~= old(disabled_clicks)@.update(
                    3,
                    old(disabled_clicks)[3],
                ));
            },
        }
        events
    }

    /// Lets every button take note of the pointer, and keeps track of what is
    /// under the pointer: in the menu scene the id of the last button that
    /// holds it, in the office scene the object of that button; with no
    /// button under the pointer, no id. The result holds the place of the
    /// last button that holds the pointer and the place of the last button
    /// that is clicked.
    pub fn track_pointer<P>(engine_data: &mut EngineData<P>, pointer: &Pointer) -> (r: (
        Option<usize>,
        Option<usize>,
    ))
        ensures
            pointer_tracked(*old(engine_data), *final(engine_data), *pointer),
            final(engine_data).hovered == old(engine_data).hovered,
            final(engine_data).disabled_clicks == old(engine_data).disabled_clicks,
            match r.0 {
                Some(i) => last_hovered(*pointer, old(engine_data).buttons.entries().len() as int)
                    == Some(i as int) && i < old(engine_data).buttons.entries().len(),
                None => last_hovered(*pointer, old(engine_data).buttons.entries().len() as int)
                    is None,
            },
            match r.1 {
                Some(i) => last_clicked(
                    old(engine_data).buttons.entries(),
                    *pointer,
                    old(engine_data).buttons.entries().len() as int,
                ) == Some(i as int) && i < old(engine_data).buttons.entries().len(),
                None => last_clicked(
                    old(engine_data).buttons.entries(),
                    *pointer,
                    old(engine_data).buttons.entries().len() as int,
                ) is None,
            },
    {
        let ghost before = engine_data.buttons.entries();
        let (selected, clicked) = Self::note_pointer(&mut engine_data.buttons, pointer);
        proof {
            lemma_hover_after_names(
                Hover {
                    objects: engine_data.officemgr.game_data.office.objects@,
                    hovered_id: engine_data.officemgr.hovered_id@,
                },
                before,
                engine_data.buttons.entries(),
                *pointer,
                before.len() as int,
            );
        }
        if engine_data.scene == OFFICE_SCENE {
            Self::hover_objects(
                &mut engine_data.officemgr.game_data.office.objects,
                &mut engine_data.officemgr.hovered_id,
                &engine_data.buttons,
                pointer,
            );
        }
        match selected {
            Some(place) => {
                if engine_data.scene == MENU_SCENE {
                    engine_data.menumgr.selected_button_id = String::from_str(
                        engine_data.buttons.name_at(place),
                    );
                }
            },
            None => {
                engine_data.menumgr.selected_button_id = String::new();
            },
        }
        (selected, clicked)
    }

    /// The events of the pointer and the mouse buttons, once the buttons have
    /// taken note of the pointer. Brings the clicks that are dealt with up to
    /// date; the second part of the result says whether a button holds the
    /// pointer.
    pub fn decide(
        buttons: &Table<Button2D>,
        selected: Option<usize>,
        clicked: Option<usize>,
        hovered: bool,
        disabled_clicks: &mut Vec<bool>,
        pointer: &Pointer,
    ) -> (r: (Vec<Event>, bool))
        requires
            old(disabled_clicks).len() == 4,
            selected matches Some(i) ==> i < buttons.entries().len(),
            clicked matches Some(i) ==> i < buttons.entries().len(),
        ensures
            ({
                let chosen = selection(
                    buttons.entries(),
                    match selected {
                        Some(i) => Some(i as int),
                        None => None,
                    },
                );
                let due = click_event(
                    buttons.entries(),
                    match clicked {
                        Some(i) => Some(i as int),
                        None => None,
                    },
                );
                &&& event_views(r.0@) == pointer_events(
                    chosen,
                    due,
                    hovered,
                    old(disabled_clicks)@,
                    *pointer,
                )
                &&& r.1 == selected is Some
                &&& final(disabled_clicks)@ == clicks_after(
                    old(disabled_clicks)@,
                    selected is Some,
                    due,
                    *pointer,
                )
            }),
    {
        let mut now_hovered = hovered;
        let mut events = Self::button_events(
            buttons,
            selected,
            clicked,
            &mut now_hovered,
            disabled_clicks,
        );
        Self::mouse_click(
            disabled_clicks,
            MouseButton_to_i32(MouseButton::Left),
            "user_left_clicked",
            pointer.left_down,
            pointer.left_up,
            &mut events,
        );
        Self::mouse_click(
            disabled_clicks,
            MouseButton_to_i32(MouseButton::Right),
            "user_right_clicked",
            pointer.right_down,
            pointer.right_up,
            &mut events,
        );
        Self::mouse_click(
            disabled_clicks,
            MouseButton_to_i32(MouseButton::Middle),
            "user_middle_clicked",
            pointer.middle_down,
            pointer.middle_up,
            &mut events,
        );
        assert(disabled_clicks@ =~= clicks_after(
            old(disabled_clicks)@,
            selected is Some,
            click_event(
                buttons.entries(),
                match clicked {
                    Some(i) => Some(i as int),
                    None => None,
                },
            ),
            *pointer,
        ));
        (events, now_hovered)
    }

    /// What the pointer and the mouse buttons set off at a tick. The engine
    /// keeps track of the pointer as [`ScriptingAPI::track_pointer`] does;
    /// then the clicks that are dealt with are brought up to date. The result
    /// holds the events to trigger, in their order.
    #[allow(non_snake_case)]
    pub fn TickEvents<P>(engine_data: &mut EngineData<P>, pointer: &Pointer) -> (events: Vec<Event>)
        requires
            old(engine_data).well_formed(),
        ensures
            final(engine_data).well_formed(),
            pointer_tracked(*old(engine_data), *final(engine_data), *pointer),
            ({
                let before = old(engine_data).buttons.entries();
                let count = before.len() as int;
                let selected = selection(before, last_hovered(*pointer, count));
                let clicked = click_event(before, last_clicked(before, *pointer, count));
                &&& event_views(events@) == pointer_events(
                    selected,
                    clicked,
                    old(engine_data).hovered,
                    old(engine_data).disabled_clicks@,
                    *pointer,
                )
                &&& final(engine_data).hovered == selected is Some
                &&& final(engine_data).disabled_clicks@ == clicks_after(
                    old(engine_data).disabled_clicks@,
                    selected is Some,
                    clicked,
                    *pointer,
                )
            }),
    {
        let ghost before = engine_data.buttons.entries();
        let (selected, clicked) = Self::track_pointer(engine_data, pointer);
        proof {
            lemma_same_choice(before, engine_data.buttons.entries(), *pointer, selected, clicked);
        }
        let mut clicks: Vec<bool> = Vec::new();
        core::mem::swap(&mut clicks, &mut engine_data.disabled_clicks);
        let (events, hovered) = Self::decide(
            &engine_data.buttons,
            selected,
            clicked,
            engine_data.hovered,
            &mut clicks,
            pointer,
        );
        engine_data.hovered = hovered;
        engine_data.disabled_clicks = clicks;
        events
    }
}

/// Taking note of the pointer changes neither the id of a button, nor
/// whether it is an image, nor its event.
pub proof fn lemma_same_choice(
    before: Seq<(Seq<char>, Button2D)>,
    after: Seq<(Seq<char>, Button2D)>,
    pointer: Pointer,
    selected: Option<usize>,
    clicked: Option<usize>,
)
    requires
        after.len() == before.len(),
        forall|i: int|
            0 <= i < before.len() ==> (#[trigger] after[i]) == (
                before[i].0,
                noted(before[i].1, pointer.is_inside(i), pointer.left_down, pointer.left_up),
            ),
        selected matches Some(i) ==> i < before.len(),
        clicked matches Some(i) ==> i < before.len(),
    ensures
        selection(
            after,
            match selected {
                Some(i) => Some(i as int),
                None => None,
            },
        ) == selection(
            before,
            match selected {
                Some(i) => Some(i as int),
                None => None,
            },
        ),
        click_event(
            after,
            match clicked {
                Some(i) => Some(i as int),
                None => None,
            },
        ) == click_event(
            before,
            match clicked {
                Some(i) => Some(i as int),
                None => None,
            },
        ),
{
    match selected {
        Some(i) => {
            assert(after[i as int].0 == before[i as int].0);
        },
        None => {},
    }
    match clicked {
        Some(i) => {
            assert(after[i as int].1.event == before[i as int].1.event);
        },
        None => {},
    }
}

/// [`hover_after`] looks at the names of the buttons only.
pub proof fn lemma_hover_after_names(
    hover: Hover,
    before: Seq<(Seq<char>, Button2D)>,
    after: Seq<(Seq<char>, Button2D)>,
    pointer: Pointer,
    k: int,
)
    requires
        before.len() == after.len(),
        forall|i: int| 0 <= i < before.len() ==> (#[trigger] after[i]).0 == before[i].0,
    ensures
        hover_after(hover, after, pointer, k) == hover_after(hover, before, pointer, k),
    decreases k,
{
    if 0 < k <= before.len() {
        lemma_hover_after_names(hover, before, after, pointer, k - 1);
    }
}

} // verus!
