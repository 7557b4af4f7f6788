//! The state of a night in the office: the office and what stands in it,
//! the cameras, the animatronics, the power and the player.

use vstd::prelude::*;
use crate::game_loader::CamUI;
use crate::table::Table;
use crate::text::{chars_of, decimal, decimal_of_i32, push_all, string_of};

verus! {

/// The office: the state it shows, and what stands in it by name.
#[derive(Debug, PartialEq, Clone)]
pub struct OfficeData {
    pub states: Table<String>,
    pub state: String,
    pub blinking_effect: bool,
    pub disable_flashlight: bool,
    pub objects: Table<Sprite>,
    pub lights: Table<Light>,
    pub doors: Table<Door>,
    pub animations: Table<Animation>,
    pub sprites: Table<Sprite>,
}

impl OfficeData {
    /// An office in the state `Default` with nothing in it.
    pub fn empty() -> (r: OfficeData)
        ensures
            is_empty_office(r),
    {
        OfficeData {
            states: Table::new(),
            state: String::from_str("Default"),
            blinking_effect: false,
            disable_flashlight: false,
            objects: Table::new(),
            lights: Table::new(),
            doors: Table::new(),
            animations: Table::new(),
            sprites: Table::new(),
        }
    }

    /// Puts the office in the state `state`.
    pub fn set_state(&mut self, state: String)
        ensures
            *final(self) == (OfficeData { state, ..*old(self) }),
    {
        self.state = state;
    }
}

/// Something that is drawn in the office.
#[derive(Debug, PartialEq, Eq, Clone, Copy, Structural)]
pub struct Sprite {
    pub visible: bool,
    pub above_panorama: bool,
    pub hovered: bool,
}

/// An animation in the office.
#[derive(Debug, PartialEq, Clone)]
pub struct Animation {
    pub id: String,
    pub is_playing: bool,
    pub is_reversed: bool,
}

/// A door with its button.
#[derive(Debug, PartialEq, Clone)]
pub struct Door {
    pub is_closed: bool,
    pub button: Button,
    pub animation: String,
}

/// A door after its button has taken note of the pointer: a click on a
/// button that is ready closes an open door and opens a closed one, the
/// button is lit while the door is closed, and it is ready for the next click
/// once the pointer is on it without a click.
pub open spec fn door_pressed(door: Door, is_hovered: bool, is_clicked: bool) -> Door {
    if is_hovered && is_clicked && door.button.clickable {
        Door {
            is_closed: !door.is_closed,
            button: Button { is_on: !door.is_closed, clickable: false },
            animation: door.animation,
        }
    } else if is_hovered && !is_clicked {
        Door { button: Button { clickable: true, ..door.button }, ..door }
    } else {
        door
    }
}

impl Door {
    /// Lets the button of the door take note of the pointer, and says
    /// whether the button is lit.
    pub fn press(&mut self, is_hovered: bool, is_clicked: bool) -> (lit: bool)
        ensures
            *final(self) == door_pressed(*old(self), is_hovered, is_clicked),
            lit == final(self).button.is_on,
    {
        if is_hovered {
            if is_clicked {
                if self.button.clickable {
                    if self.is_closed {
                        self.button.is_on = false;
                        self.is_closed = false;
                    } else {
                        self.button.is_on = true;
                        self.is_closed = true;
                    }
                    self.button.clickable = false;
                }
            } else {
                self.button.clickable = true;
            }
        }
        self.button.is_on
    }
}

/// The button of a door.
#[derive(Debug, PartialEq, Eq, Clone, Copy, Structural)]
pub struct Button {
    pub is_on: bool,
    pub clickable: bool,
}

/// A light.
#[derive(Debug, PartialEq, Eq, Clone, Copy, Structural)]
pub struct Light {
    pub is_on: bool,
    pub clickable: bool,
}

/// What a night offers the player.
#[derive(Debug, PartialEq, Eq, Clone, Copy, Structural)]
pub struct Settings {
    pub mask: bool,
    pub flashlight: bool,
    pub toxic: bool,
    pub panorama: bool,
    pub power: bool,
}

/// The power of the office.
#[derive(Debug, PartialEq, Clone)]
pub struct Power {
    pub level: i32,
    pub usage: i32,
    pub enabled: bool,
    pub ucn: bool,
    pub power_out_animation: String,
    pub animatronic_jumpscare: String,
}

/// A camera.
#[derive(Debug, PartialEq, Clone)]
pub struct Camera {
    pub panorama: bool,
    pub static_camera: bool,
    pub states: Table<String>,
    pub state: String,
    pub scroll: i32,
}

impl Camera {
    /// Puts the camera in the state `state`.
    pub fn set_state(&mut self, state: String)
        ensures
            *final(self) == (Camera { state, ..*old(self) }),
    {
        self.state = state;
    }
}

/// An animatronic on its way through the building.
#[derive(Debug, PartialEq, Clone)]
pub struct Animatronic {
    pub ignores_mask: bool,
    pub path: Vec<PathNode>,
    pub ai: Vec<i32>,
    pub jumpscare: AnimatronicJumpscare,
    pub location: PathNode,
    pub name: String,
    pub move_time: i32,
    pub state: String,
    pub location_index: i32,
    pub phantom: bool,
}

/// What an animatronic shows and plays when it catches the player.
#[derive(Debug, PartialEq, Clone)]
pub struct AnimatronicJumpscare {
    pub sound: String,
    pub jumpscare: String,
    pub offset: i32,
}

/// The state of a night.
#[derive(Debug, PartialEq, Clone)]
pub struct GameData {
    pub path: String,
    pub night: i32,
    pub office: OfficeData,
    pub settings: Settings,
    pub player: Player,
    pub cameras: Table<Camera>,
    pub cam_ui: CamUI,
    pub animatronics: Table<Animatronic>,
    pub power: Power,
    pub time: i32,
    pub paused: bool,
}

/// Whether an office is in the state `Default` with nothing in it.
pub open spec fn is_empty_office(office: OfficeData) -> bool {
    &&& office.states@ =~= Map::<Seq<char>, String>::empty()
    &&& office.state@ == "Default"@
    &&& !office.blinking_effect
    &&& !office.disable_flashlight
    &&& office.objects@ =~= Map::<Seq<char>, Sprite>::empty()
    &&& office.lights@ =~= Map::<Seq<char>, Light>::empty()
    &&& office.doors@ =~= Map::<Seq<char>, Door>::empty()
    &&& office.animations@ =~= Map::<Seq<char>, Animation>::empty()
    &&& office.sprites@ =~= Map::<Seq<char>, Sprite>::empty()
}

/// Whether a player looks at the office, without mask and flashlight.
pub open spec fn is_new_player(player: Player) -> bool {
    &&& !player.is_camera_up
    &&& !player.camera_button_toggle
    &&& !player.is_mask_on
    &&& !player.is_flashlight_on
    &&& player.current_camera@ == Seq::<char>::empty()
    &&& !player.signal_interrupted
}

/// Whether `data` is the state at the start of night `night` of the game at
/// `path`: an empty office, everything but the power meter offered to the
/// player, full power, time 0, the clock running.
pub open spec fn starts_night(data: GameData, path: Seq<char>, night: i32) -> bool {
    &&& data.path@ == path
    &&& data.night == night
    &&& data.settings == (Settings {
        mask: true,
        flashlight: true,
        toxic: true,
        panorama: true,
        power: false,
    })
    &&& is_empty_office(data.office)
    &&& is_new_player(data.player)
    &&& data.cameras@ =~= Map::<Seq<char>, Camera>::empty()
    &&& data.cam_ui.buttons@ =~= Map::<Seq<char>, Vec<crate::game_loader::MultiType>>::empty()
    &&& data.cam_ui.music_box@ =~= Seq::<i32>::empty()
    &&& data.cam_ui.sprites@ =~= Map::<Seq<char>, Vec<crate::game_loader::MultiType>>::empty()
    &&& data.animatronics@ =~= Map::<Seq<char>, Animatronic>::empty()
    &&& data.power.level == 100
    &&& data.power.usage == 0
    &&& data.power.enabled
    &&& !data.power.ucn
    &&& data.power.power_out_animation@ == Seq::<char>::empty()
    &&& data.power.animatronic_jumpscare@ == Seq::<char>::empty()
    &&& data.time == 0
    &&& !data.paused
}

impl GameData {
    /// The state at the start of night `night` of the game at `path`: an
    /// empty office, everything but the power meter offered to the player,
    /// full power, time 0, the clock running.
    pub fn new(path: &str, night: i32) -> (r: GameData)
        ensures
            starts_night(r, path@, night),
    {
        GameData {
            path: String::from_str(path),
            night,
            settings: Settings {
                mask: true,
                flashlight: true,
                toxic: true,
                panorama: true,
                power: false,
            },
            office: OfficeData::empty(),
            player: Player::new(),
            cameras: Table::new(),
            cam_ui: CamUI { buttons: Table::new(), music_box: Vec::new(), sprites: Table::new() },
            animatronics: Table::new(),
            power: Power {
                level: 100,
                usage: 0,
                enabled: true,
                ucn: false,
                power_out_animation: String::new(),
                animatronic_jumpscare: String::new(),
            },
            time: 0,
            paused: false,
        }
    }

    /// Sets the time of the night.
    pub fn set_time(&mut self, time: i32)
        ensures
            *final(self) == (GameData { time, ..*old(self) }),
    {
        self.time = time;
    }

    /// Does nothing: the engine quits through the `quit` action.
    pub fn quit(&mut self)
        ensures
            *final(self) == *old(self),
    {
    }

    /// Stops the clock of the night.
    pub fn disable_time(&mut self)
        ensures
            *final(self) == (GameData { paused: true, ..*old(self) }),
    {
        self.paused = true;
    }

    /// Lets the clock of the night run.
    pub fn enable_time(&mut self)
        ensures
            *final(self) == (GameData { paused: false, ..*old(self) }),
    {
        self.paused = false;
    }

    /// Does nothing: menus are entered through the `goto_menu` action.
    pub fn goto_menu(&mut self)
        ensures
            *final(self) == *old(self),
    {
    }
}

/// The player.
#[derive(Debug, PartialEq, Clone)]
pub struct Player {
    pub is_camera_up: bool,
    pub camera_button_toggle: bool,
    pub is_mask_on: bool,
    pub is_flashlight_on: bool,
    pub current_camera: String,
    pub signal_interrupted: bool,
}

impl Player {
    /// A player who looks at the office, without mask and flashlight.
    pub fn new() -> (r: Player)
        ensures
            is_new_player(r),
    {
        Player {
            is_camera_up: false,
            camera_button_toggle: false,
            is_mask_on: false,
            is_flashlight_on: false,
            current_camera: String::new(),
            signal_interrupted: false,
        }
    }

    /// Turns the monitor to the camera `cam`.
    pub fn set_camera(&mut self, cam: String)
        ensures
            *final(self) == (Player { current_camera: cam, ..*old(self) }),
    {
        self.current_camera = cam;
    }

    /// Puts the monitor down.
    pub fn putdown(&mut self)
        ensures
            *final(self) == (Player { is_camera_up: false, ..*old(self) }),
    {
        self.is_camera_up = false;
    }

    /// Pulls the monitor up.
    pub fn pullup(&mut self)
        ensures
            *final(self) == (Player { is_camera_up: true, ..*old(self) }),
    {
        self.is_camera_up = true;
    }

    /// Takes the mask off.
    pub fn mask_off(&mut self)
        ensures
            *final(self) == (Player { is_mask_on: false, ..*old(self) }),
    {
        self.is_mask_on = false;
    }

    /// Puts the mask on.
    pub fn mask_on(&mut self)
        ensures
            *final(self) == (Player { is_mask_on: true, ..*old(self) }),
    {
        self.is_mask_on = true;
    }
}

/// A place on the path of an animatronic.
#[derive(Debug, PartialEq)]
pub struct PathNode {
    pub id: String,
    pub type_: String,
    pub chance: i32,
    pub state: String,
    pub path: Vec<PathNode>,
    pub camid: String,
}

/// A copy of a path.
fn clone_path(nodes: &Vec<PathNode>) -> (r: Vec<PathNode>)
    ensures
        r.len() == nodes.len(),
    decreases nodes,
{
    let mut r: Vec<PathNode> = Vec::new();
    let mut i: usize = 0;
    while i < nodes.len()
        invariant
            i <= nodes.len(),
            r.len() == i,
        decreases nodes.len() - i,
    {
        r.push(nodes[i].clone());
        i += 1;
    }
    r
}

impl Clone for PathNode {
    fn clone(&self) -> (r: Self)
        ensures
            r.id@ == self.id@,
            r.type_@ == self.type_@,
            r.chance == self.chance,
            r.state@ == self.state@,
            r.camid@ == self.camid@,
            r.path.len() == self.path.len(),
        decreases self,
    {
        PathNode {
            id: self.id.clone(),
            type_: self.type_.clone(),
            chance: self.chance,
            state: self.state.clone(),
            path: clone_path(&self.path),
            camid: self.camid.clone(),
        }
    }
}

impl PathNode {
    /// A place with the given fields.
    pub fn new(
        id: String,
        type_: String,
        chance: i32,
        state: String,
        path: Vec<PathNode>,
        camid: String,
    ) -> (r: Self)
        ensures
            r == (PathNode { id, type_, chance, state, path, camid }),
    {
        Self { id, type_, chance, state, path, camid }
    }

    /// The line that describes the place.
    pub open spec fn description(&self) -> Seq<char> {
        "ID: "@ + self.id@ + " TYPE: "@ + self.type_@ + " CHANCE: "@ + decimal(self.chance as int)
            + " STATE: "@ + self.state@
    }

    /// The line that describes the place: its id, type, chance and state.
    pub fn to_string(&self) -> (r: String)
        ensures
            r@ == self.description(),
    {
        let mut line = chars_of("ID: ");
        push_all(&mut line, &chars_of(self.id.as_str()));
        push_all(&mut line, &chars_of(" TYPE: "));
        push_all(&mut line, &chars_of(self.type_.as_str()));
        push_all(&mut line, &chars_of(" CHANCE: "));
        push_all(&mut line, &decimal_of_i32(self.chance));
        push_all(&mut line, &chars_of(" STATE: "));
        push_all(&mut line, &chars_of(self.state.as_str()));
        string_of(&line)
    }
}

} // verus!
