//! The menus: which one is shown, and what scripts change of it.

use vstd::prelude::*;
use crate::button::Button2D;
use crate::engine::{EngineData, MENU_SCENE};
use crate::event_manager::{EventManager, ListenerView, script_listeners};
use crate::game_loader::{Element, forest_view};
use crate::audio_manager::{free_channel, names_hold, playing_from, silenced};
use crate::table::Table;
use crate::text::{same_str, texts};
use crate::tick_manager::TickManager;

verus! {

/// The menu that is shown and how the pointer stands to it.
#[derive(Debug, PartialEq, Clone)]
pub struct MenuManager {
    pub curmenu: String,
    pub arrows_enabled: bool,
    pub selected_button_id: String,
}

/// A change to an element of a menu.
pub enum ElementChange {
    Text(String),
    Sprite(String),
    Hidden(bool),
}

/// The place of the first element with the id; the number of elements if there is none.
pub open spec fn element_place(elements: Seq<Element>, id: Seq<char>) -> int
    decreases elements.len(),
{
    if elements.len() == 0 {
        0
    } else if elements[0].id@ == id {
        0
    } else {
        1 + element_place(elements.drop_first(), id)
    }
}

/// [`element_place`] is a place of the id, and the first one.
pub proof fn lemma_element_place(elements: Seq<Element>, id: Seq<char>, at: int)
    requires
        0 <= at <= elements.len(),
        at < elements.len() ==> elements[at].id@ == id,
        forall|i: int| 0 <= i < at ==> (#[trigger] elements[i]).id@ != id,
    ensures
        element_place(elements, id) == at,
    decreases elements.len(),
{
    if elements.len() > 0 && at > 0 {
        assert(elements[0].id@ != id);
        let rest = elements.drop_first();
        assert forall|i: int| 0 <= i < at - 1 implies (#[trigger] rest[i]).id@ != id by {
            assert(rest[i] == elements[i + 1]);
        }
        lemma_element_place(rest, id, at - 1);
    }
}

/// What an [`ElementChange`] stands for in contracts.
pub enum ChangeView {
    Text(Seq<char>),
    Sprite(Seq<char>),
    Hidden(bool),
}

impl View for ElementChange {
    type V = ChangeView;

    open spec fn view(&self) -> ChangeView {
        match self {
            ElementChange::Text(text) => ChangeView::Text(text@),
            ElementChange::Sprite(sprite) => ChangeView::Sprite(sprite@),
            ElementChange::Hidden(hidden) => ChangeView::Hidden(*hidden),
        }
    }
}

/// Whether `after` is the element `before` after a change: the field that
/// the change names has the value that it gives, and no other field differs.
pub open spec fn element_changed(before: Element, after: Element, change: ChangeView) -> bool {
    match change {
        ChangeView::Text(text) => after.text@ == text && after == (Element {
            text: after.text,
            ..before
        }),
        ChangeView::Sprite(sprite) => after.sprite@ == sprite && after == (Element {
            sprite: after.sprite,
            ..before
        }),
        ChangeView::Hidden(hidden) => after == (Element { hidden, ..before }),
    }
}

/// Whether the menu that is shown has an element with the id.
pub open spec fn shows_element<P>(engine: EngineData<P>, id: Seq<char>) -> bool {
    let menus = engine.game.menus@;
    let name = engine.menumgr.curmenu@;
    menus.contains_key(name) && element_place(menus[name].elements@, id)
        < menus[name].elements.len()
}

/// Whether `after` is the engine `before` after a change to the first
/// element with the id in the menu that is shown: that element is changed
/// and nothing else; without such an element nothing is changed at all.
pub open spec fn menu_element_changed<P>(
    before: EngineData<P>,
    after: EngineData<P>,
    id: Seq<char>,
    change: ChangeView,
) -> bool {
    let menus = before.game.menus@;
    let name = before.menumgr.curmenu@;
    if shows_element(before, id) {
        let place = element_place(menus[name].elements@, id);
        let elements = menus[name].elements@;
        let changed = after.game.menus@[name];
        &&& MenuManager::only_menus_changed(before, after)
        &&& after.game.menus@.dom() =~= menus.dom()
        &&& forall|k: Seq<char>|
            k != name && menus.contains_key(k) ==> #[trigger] after.game.menus@[k] == menus[k]
        &&& changed.code == menus[name].code
        &&& changed.properties == menus[name].properties
        &&& changed.elements@.len() == elements.len()
        &&& forall|i: int|
            0 <= i < elements.len() && i != place ==> #[trigger] changed.elements@[i]
                == elements[i]
        &&& element_changed(elements[place], changed.elements@[place], change)
    } else {
        after == before
    }
}

/// The button that is made for an element with the id `id`: it triggers
/// `image_clicked` as an image and `button_clicked` as a text, with the id
/// as its argument, and the pointer is not on it yet.
pub open spec fn is_menu_button(button: Button2D, id: Seq<char>) -> bool {
    &&& button.event@ == (if button.is_image {
        "image_clicked"@
    } else {
        "button_clicked"@
    })
    &&& button.event_args@.len() == 1
    &&& button.event_args@[0]@ == id
    &&& !button.is_hovered
    &&& !button.is_clicked
    &&& button.is_clickable
}

/// The button that an element of a menu is given, if it is given one: a
/// text button for a `Button` that is not hidden, an image button for an
/// `Image` that is not hidden and has a sprite.
pub open spec fn button_kind(element: Element) -> Option<bool> {
    if element.kind@ == "Button"@ && !element.hidden {
        Some(false)
    } else if element.kind@ == "Image"@ && !element.hidden && element.sprite@.len() > 0 {
        Some(true)
    } else {
        None
    }
}

/// The menu that the engine opens with: `Warning` if the game has such a
/// menu, `Main` if not.
pub open spec fn first_menu<V>(menus: Map<Seq<char>, V>) -> Seq<char> {
    if menus.contains_key("Warning"@) {
        "Warning"@
    } else {
        "Main"@
    }
}

/// Whether `after` is the engine `before` with the buttons of its menu in
/// the place of its buttons: one under the id of each element that is given
/// a button, an image button where an image has the id; none when the game
/// has no menu of the name.
pub open spec fn menu_buttons_made<P>(before: EngineData<P>, after: EngineData<P>) -> bool {
    let menus = before.game.menus@;
    let name = before.menumgr.curmenu@;
    &&& after == (EngineData { buttons: after.buttons, ..before })
    &&& !menus.contains_key(name) ==> after.buttons@ =~= Map::<Seq<char>, Button2D>::empty()
    &&& menus.contains_key(name) ==> forall|id: Seq<char>| #[trigger]
        after.buttons@.contains_key(id) <==> exists|i: int|
            0 <= i < menus[name].elements@.len() && menus[name].elements@[i].id@ == id
                && button_kind(menus[name].elements@[i]) is Some
    &&& menus.contains_key(name) ==> forall|id: Seq<char>| #[trigger]
        after.buttons@.contains_key(id) ==> (after.buttons@[id].is_image <==> exists|i: int|
            0 <= i < menus[name].elements@.len() && menus[name].elements@[i].id@ == id
                && button_kind(menus[name].elements@[i]) == Some(true))
    &&& forall|id: Seq<char>| #[trigger]
        after.buttons@.contains_key(id) ==> is_menu_button(after.buttons@[id], id)
}

/// Whether the music of a menu has been started as it should on channels
/// that every sound has left: when a sound of its name is loaded and a
/// channel is free, the music has the first free channel and `started` names
/// it; otherwise the channels are as they were and nothing is started.
pub open spec fn music_started(
    quiet: Seq<Seq<char>>,
    sounds: Seq<Seq<char>>,
    music: Seq<char>,
    started: Option<String>,
    channels: Seq<Seq<char>>,
) -> bool {
    if names_hold(sounds, music) && free_channel(quiet, sounds, 0) is Some {
        started is Some && started->Some_0@ == music && channels == quiet.update(
            free_channel(quiet, sounds, 0)->Some_0,
            music,
        )
    } else {
        started is None && channels == quiet
    }
}

impl MenuManager {
    /// No menu shown yet, the arrows at the buttons switched on.
    pub fn new() -> (r: MenuManager)
        ensures
            r.curmenu@ == Seq::<char>::empty(),
            r.arrows_enabled,
            r.selected_button_id@ == Seq::<char>::empty(),
    {
        let curmenu = String::new();
        MenuManager { curmenu, arrows_enabled: true, selected_button_id: String::new() }
    }

    /// Chooses the menu that the engine opens with, `Warning` if the game
    /// has such a menu and `Main` if not, and registers the listeners of its
    /// script. Without the menu no listener is registered, and the result is
    /// `false`.
    pub fn open_first_menu<P>(engine: &mut EngineData<P>, event_manager: &mut EventManager) -> (r:
        bool)
        ensures
            final(engine).menumgr.curmenu@ == first_menu(old(engine).game.menus@),
            *final(engine) == (EngineData {
                menumgr: MenuManager {
                    curmenu: final(engine).menumgr.curmenu,
                    ..old(engine).menumgr
                },
                ..*old(engine)
            }),
            r == old(engine).game.menus@.contains_key(first_menu(old(engine).game.menus@)),
            r ==> final(event_manager).listeners() == old(event_manager).listeners()
                + script_listeners(
                forest_view(
                    old(engine).game.menus@[first_menu(old(engine).game.menus@)].code@,
                ),
            ),
            !r ==> final(event_manager).listeners() == old(event_manager).listeners(),
            final(event_manager).code_blocks() == old(event_manager).code_blocks(),
            final(event_manager).variables() == old(event_manager).variables(),
            final(event_manager).data_values() == old(event_manager).data_values(),
            final(event_manager).notes() == old(event_manager).notes(),
    {
        if engine.game.menus.contains_key("Warning") {
            engine.menumgr.curmenu = String::from_str("Warning");
        } else {
            engine.menumgr.curmenu = String::from_str("Main");
        }
        match engine.game.menus.get(engine.menumgr.curmenu.as_str()) {
            Some(menu) => {
                event_manager.run_script(&menu.code);
                true
            },
            None => false,
        }
    }

    /// The place of the first element with the id.
    pub fn find_element(elements: &Vec<Element>, element_id: &str) -> (r: Option<usize>)
        ensures
            match r {
                Some(i) => i < elements.len() && i == element_place(elements@, element_id@)
                    && elements[i as int].id@ == element_id@,
                None => element_place(elements@, element_id@) == elements.len(),
            },
    {
        let mut i: usize = 0;
        while i < elements.len()
            invariant
                i <= elements.len(),
                forall|k: int| 0 <= k < i ==> (#[trigger] elements@[k]).id@ != element_id@,
            decreases elements.len() - i,
        {
            if same_str(elements[i].id.as_str(), element_id) {
                proof {
                    lemma_element_place(elements@, element_id@, i as int);
                }
                return Some(i);
            }
            i += 1;
        }
        proof {
            lemma_element_place(elements@, element_id@, elements.len() as int);
        }
        None
    }

    /// Gives the elements of the menu that is shown their buttons, in the
    /// place of all buttons that there were: an element that is given a
    /// button gets it under its id; of two text buttons with one id the first
    /// stays, and an image button takes the place of any button with its id.
    pub fn recache_buttons<P>(engine: &mut EngineData<P>)
        ensures
            menu_buttons_made(*old(engine), *final(engine)),
    {
        let mut buttons: Table<Button2D> = Table::new();
        match engine.game.menus.get(engine.menumgr.curmenu.as_str()) {
            Some(menu) => {
                let mut i: usize = 0;
                while i < menu.elements.len()
                    invariant
                        i <= menu.elements.len(),
                        forall|id: Seq<char>| #[trigger]
                            buttons@.contains_key(id) <==> exists|k: int|
                                0 <= k < i && menu.elements@[k].id@ == id && button_kind(
                                    menu.elements@[k],
                                ) is Some,
                        forall|id: Seq<char>| #[trigger]
                            buttons@.contains_key(id) ==> is_menu_button(buttons@[id], id),
                        forall|id: Seq<char>| #[trigger]
                            buttons@.contains_key(id) ==> (buttons@[id].is_image <==> exists|k: int|
                                0 <= k < i && menu.elements@[k].id@ == id && button_kind(
                                    menu.elements@[k],
                                ) == Some(true)),
                    decreases menu.elements.len() - i,
                {
                    let element = &menu.elements[i];
                    let ghost before = buttons@;
                    let mut made = false;
                    if same_str(element.kind.as_str(), "Button") {
                        if !element.hidden {
                            made = true;
                            if !buttons.contains_key(element.id.as_str()) {
                                let mut args: Vec<String> = Vec::new();
                                args.push(element.id.clone());
                                buttons.insert(
                                    element.id.clone(),
                                    Button2D::new(String::from_str("button_clicked"), args, false),
                                );
                            }
                        }
                    } else if same_str(element.kind.as_str(), "Image") {
                        if !element.hidden && element.sprite.as_str().unicode_len() > 0 {
                            made = true;
                            let mut args: Vec<String> = Vec::new();
                            args.push(element.id.clone());
                            buttons.insert(
                                element.id.clone(),
                                Button2D::new(String::from_str("image_clicked"), args, true),
                            );
                        }
                    }
                    proof {
                        assert(made == (button_kind(*element) is Some));
                        assert forall|id: Seq<char>| #[trigger]
                            buttons@.contains_key(id) <==> exists|k: int|
                                0 <= k < i + 1 && menu.elements@[k].id@ == id && button_kind(
                                    menu.elements@[k],
                                ) is Some by {
                            if buttons@.contains_key(id) {
                                if before.contains_key(id) {
                                    let k = choose|k: int|
                                        0 <= k < i && menu.elements@[k].id@ == id && button_kind(
                                            menu.elements@[k],
                                        ) is Some;
                                    assert(0 <= k < i + 1);
                                } else {
                                    assert(id == element.id@ && made);
                                    assert(menu.elements@[i as int].id@ == id);
                                }
                            }
                            if exists|k: int|
                                0 <= k < i + 1 && menu.elements@[k].id@ == id && button_kind(
                                    menu.elements@[k],
                                ) is Some {
                                let k = choose|k: int|
                                    0 <= k < i + 1 && menu.elements@[k].id@ == id && button_kind(
                                        menu.elements@[k],
                                    ) is Some;
                                if k < i {
                                    assert(before.contains_key(id));
                                }
                            }
                        }
                    }
                    i += 1;
                }
            },
            None => {},
        }
        engine.buttons = buttons;
    }

    /// Whether the pointer is on the button of the element with this id in
    /// the menu that is shown.
    pub fn is_button_selected<P>(element_id: String, engine: &mut EngineData<P>) -> (r: bool)
        ensures
            *final(engine) == *old(engine),
            r == (shows_element(*old(engine), element_id@) && old(engine).buttons@.contains_key(
                element_id@,
            ) && old(engine).buttons@[element_id@].is_hovered),
    {
        match engine.game.menus.get(engine.menumgr.curmenu.as_str()) {
            Some(menu) => match Self::find_element(&menu.elements, element_id.as_str()) {
                Some(i) => match engine.buttons.get(menu.elements[i].id.as_str()) {
                    Some(button) => button.is_hovered,
                    None => false,
                },
                None => false,
            },
            None => false,
        }
    }

    /// Sets the background image of the menu that is shown.
    pub fn set_background<P>(path: &str, engine: &mut EngineData<P>) -> (r: bool)
        ensures
            r == old(engine).game.menus@.contains_key(old(engine).menumgr.curmenu@),
            !r ==> *final(engine) == *old(engine),
            Self::only_menus_changed(*old(engine), *final(engine)),
            r ==> ({
                let name = old(engine).menumgr.curmenu@;
                let before = old(engine).game.menus@[name];
                let after = final(engine).game.menus@[name];
                &&& final(engine).game.menus@.dom() == old(engine).game.menus@.dom()
                &&& forall|k: Seq<char>|
                    k != name && old(engine).game.menus@.contains_key(k) ==> #[trigger] final(engine).game.menus@[k] == old(engine).game.menus@[k]
                &&& after.code == before.code
                &&& after.elements == before.elements
                &&& after.properties.BackgroundImage@ == path@
            }),
    {
        if !engine.game.menus.contains_key(engine.menumgr.curmenu.as_str()) {
            return false;
        }
        match engine.game.menus.get_mut(engine.menumgr.curmenu.as_str()) {
            Some(menu) => {
                menu.properties.BackgroundImage = String::from_str(path);
                true
            },
            None => false,
        }
    }

    /// Whether `after` is `before` but for its menus.
    pub open spec fn only_menus_changed<P>(before: EngineData<P>, after: EngineData<P>) -> bool {
        &&& after.platform == before.platform
        &&& after.game.animatronics == before.game.animatronics
        &&& after.game.cameras == before.game.cameras
        &&& after.game.game_info == before.game.game_info
        &&& after.game.offices == before.game.offices
        &&& after.game.sounds == before.game.sounds
        &&& after.game.loaded_extensions == before.game.loaded_extensions
        &&& after.game.office_scripts == before.game.office_scripts
        &&& after.game.animations == before.game.animations
        &&& after.scene == before.scene
        &&& after.menumgr == before.menumgr
        &&& after.officemgr == before.officemgr
        &&& after.buttons == before.buttons
        &&& after.clock == before.clock
        &&& after.audio == before.audio
        &&& after.fullscreen == before.fullscreen
        &&& after.show_mouse == before.show_mouse
        &&& after.update_context == before.update_context
        &&& after.hovered == before.hovered
        &&& after.disabled_clicks == before.disabled_clicks
        &&& after.needs_recache == before.needs_recache
    }

    /// Changes the first element with this id in the menu that is shown;
    /// without such an element, or without a menu, nothing.
    pub fn change_element<P>(element_id: &str, change: ElementChange, engine: &mut EngineData<P>) -> (r:
        bool)
        ensures
            r == shows_element(*old(engine), element_id@),
            menu_element_changed(*old(engine), *final(engine), element_id@, change@),
    {
        let place = match engine.game.menus.get(engine.menumgr.curmenu.as_str()) {
            Some(menu) => Self::find_element(&menu.elements, element_id),
            None => None,
        };
        let i = match place {
            Some(i) => i,
            None => {
                return false;
            },
        };
        match engine.game.menus.get_mut(engine.menumgr.curmenu.as_str()) {
            Some(menu) => {
                match change {
                    ElementChange::Text(text) => {
                        menu.elements[i].text = text;
                    },
                    ElementChange::Sprite(sprite) => {
                        menu.elements[i].sprite = sprite;
                    },
                    ElementChange::Hidden(hidden) => {
                        menu.elements[i].hidden = hidden;
                    },
                }
                true
            },
            None => false,
        }
    }

    /// Sets the text of an element of the menu that is shown.
    pub fn set_element_text<P>(element_id: &str, data: String, engine: &mut EngineData<P>) -> (r:
        bool)
        ensures
            r == shows_element(*old(engine), element_id@),
            menu_element_changed(
                *old(engine),
                *final(engine),
                element_id@,
                ChangeView::Text(data@),
            ),
    {
        Self::change_element(element_id, ElementChange::Text(data), engine)
    }

    /// Sets the sprite of an element of the menu that is shown.
    pub fn set_element_sprite<P>(element_id: &str, data: String, engine: &mut EngineData<P>) -> (r:
        bool)
        ensures
            r == shows_element(*old(engine), element_id@),
            menu_element_changed(
                *old(engine),
                *final(engine),
                element_id@,
                ChangeView::Sprite(data@),
            ),
    {
        Self::change_element(element_id, ElementChange::Sprite(data), engine)
    }

    /// Shows an element of the menu that is shown.
    pub fn show_element<P>(element_id: &str, engine: &mut EngineData<P>) -> (r: bool)
        ensures
            r == shows_element(*old(engine), element_id@),
            menu_element_changed(
                *old(engine),
                *final(engine),
                element_id@,
                ChangeView::Hidden(false),
            ),
    {
        Self::change_element(element_id, ElementChange::Hidden(false), engine)
    }

    /// Hides an element of the menu that is shown.
    pub fn hide_element<P>(element_id: &str, engine: &mut EngineData<P>) -> (r: bool)
        ensures
            r == shows_element(*old(engine), element_id@),
            menu_element_changed(
                *old(engine),
                *final(engine),
                element_id@,
                ChangeView::Hidden(true),
            ),
    {
        Self::change_element(element_id, ElementChange::Hidden(true), engine)
    }

    /// Goes to a menu of the game: every sound is taken off its channel, the
    /// background music of the menu is given one, the listeners of the scene
    /// that is left make way for those of the script of the menu, and the
    /// clock goes back to tick 0. The result names the sounds to stop and,
    /// if the music got a channel, the music to start; `None` when the game
    /// has no such menu, and then nothing is changed. It is for the caller
    /// to trigger `on_menu_start` next.
    pub fn goto_menu<P>(menu: &str, engine: &mut EngineData<P>, event_manager: &mut EventManager) -> (r:
        Option<(Vec<String>, Option<String>)>)
        ensures
            r is Some == old(engine).game.menus@.contains_key(menu@),
            r is None ==> *final(engine) == *old(engine) && *final(event_manager) == *old(event_manager),
            r is Some ==> ({
                &&& final(engine).platform == old(engine).platform
                &&& final(engine).game == old(engine).game
                &&& final(engine).scene == MENU_SCENE
                &&& final(engine).needs_recache
                &&& final(engine).menumgr.curmenu@ == menu@
                &&& final(engine).menumgr.arrows_enabled == old(engine).menumgr.arrows_enabled
                &&& final(engine).menumgr.selected_button_id == old(engine).menumgr.selected_button_id
                &&& final(engine).officemgr == old(engine).officemgr
                &&& final(engine).buttons == old(engine).buttons
                &&& final(engine).clock == (TickManager { current_tick: 0, ..old(engine).clock })
                &&& final(engine).fullscreen == old(engine).fullscreen
                &&& final(engine).show_mouse == old(engine).show_mouse
                &&& final(engine).update_context == old(engine).update_context
                &&& final(engine).hovered == old(engine).hovered
                &&& final(engine).disabled_clicks == old(engine).disabled_clicks
                &&& texts(r->Some_0.0@) == playing_from(
                    old(engine).audio.channels(),
                    old(engine).audio.sounds(),
                    0,
                )
                &&& final(engine).audio.sounds() == old(engine).audio.sounds()
                &&& music_started(
                    silenced(old(engine).audio.channels(), old(engine).audio.sounds()),
                    old(engine).audio.sounds(),
                    old(engine).game.menus@[menu@].properties.BackgroundMusic@,
                    r->Some_0.1,
                    final(engine).audio.channels(),
                )
                &&& final(event_manager).listeners() == script_listeners(
                    forest_view(old(engine).game.menus@[menu@].code@),
                )
                &&& final(event_manager).code_blocks() == old(event_manager).code_blocks()
                &&& final(event_manager).variables() == old(event_manager).variables()
                &&& final(event_manager).data_values() == old(event_manager).data_values()
                &&& final(event_manager).notes() == old(event_manager).notes()
            }),
    {
        if !engine.game.menus.contains_key(menu) {
            return None;
        }
        let stopped = engine.audio.kill_all();
        let ghost quiet = engine.audio.channels();
        engine.needs_recache = true;
        engine.menumgr.curmenu = String::from_str(menu);
        let mut music: Option<String> = None;
        match engine.game.menus.get(menu) {
            Some(shown) => {
                if engine.audio.play(shown.properties.BackgroundMusic.as_str(), true).is_some() {
                    music = Some(shown.properties.BackgroundMusic.clone());
                }
                event_manager.kill_all_listeners();
                engine.scene = MENU_SCENE;
                event_manager.run_script(&shown.code);
                assert(Seq::<ListenerView>::empty() + script_listeners(forest_view(shown.code@))
                    =~= script_listeners(forest_view(shown.code@)));
            },
            None => {},
        }
        engine.clock.reset();
        Some((stopped, music))
    }
}

} // verus!
