//! The game definition as it is loaded: script blocks and their arguments.

use vstd::prelude::*;
use crate::table::Table;
use crate::text::{chars_of, string_of, slice_of};

verus! {

/// An argument of a script block: a JSON value, kept as it was written.
#[derive(Debug, PartialEq)]
pub enum Value {
    /// A JSON string: its characters, unescaped.
    Text(String),
    /// A JSON number: its JSON text.
    Number(String),
    /// A JSON boolean.
    Bool(bool),
    /// Any other JSON value (`null`, an array, an object): its compact JSON text.
    Raw(String),
}

/// What a [`Value`] stands for in contracts.
pub enum ValueView {
    Text(Seq<char>),
    Number(Seq<char>),
    Bool(bool),
    Raw(Seq<char>),
}

impl View for Value {
    type V = ValueView;

    open spec fn view(&self) -> ValueView {
        match self {
            Value::Text(s) => ValueView::Text(s@),
            Value::Number(s) => ValueView::Number(s@),
            Value::Bool(b) => ValueView::Bool(*b),
            Value::Raw(s) => ValueView::Raw(s@),
        }
    }
}

impl Clone for Value {
    fn clone(&self) -> (r: Self)
        ensures
            r@ == self@,
    {
        match self {
            Value::Text(s) => Value::Text(s.clone()),
            Value::Number(s) => Value::Number(s.clone()),
            Value::Bool(b) => Value::Bool(*b),
            Value::Raw(s) => Value::Raw(s.clone()),
        }
    }
}

/// The views of a sequence of values.
pub open spec fn value_views(vs: Seq<Value>) -> Seq<ValueView> {
    Seq::new(vs.len(), |i: int| vs[i]@)
}

/// The hexadecimal digit of a number below 16, in lower case.
pub open spec fn hex_digit(n: int) -> char {
    if n < 10 {
        (n + '0' as int) as char
    } else {
        (n - 10 + 'a' as int) as char
    }
}

/// How one character stands inside a JSON string: `"` and `\` behind a
/// backslash, the control characters below U+0020 as `\b`, `\t`, `\n`, `\f`,
/// `\r` or `\u00XX`, every other character as itself.
pub open spec fn json_escaped_char(c: char) -> Seq<char> {
    let n = c as int;
    if c == '"' {
        seq!['\\', '"']
    } else if c == '\\' {
        seq!['\\', '\\']
    } else if n == 0x08 {
        seq!['\\', 'b']
    } else if n == 0x09 {
        seq!['\\', 't']
    } else if n == 0x0a {
        seq!['\\', 'n']
    } else if n == 0x0c {
        seq!['\\', 'f']
    } else if n == 0x0d {
        seq!['\\', 'r']
    } else if n < 0x20 {
        seq!['\\', 'u', '0', '0', hex_digit(n / 16), hex_digit(n % 16)]
    } else {
        seq![c]
    }
}

/// The characters of a text as they stand inside a JSON string.
pub open spec fn json_escaped(s: Seq<char>) -> Seq<char>
    decreases s.len(),
{
    if s.len() == 0 {
        Seq::empty()
    } else {
        json_escaped(s.drop_last()) + json_escaped_char(s.last())
    }
}

/// The compact JSON text of a string: its escaped characters between two `"`.
pub open spec fn json_string(s: Seq<char>) -> Seq<char> {
    seq!['"'] + json_escaped(s) + seq!['"']
}

/// Calls `serde_json::Value::to_string` on the JSON string that holds `s`.
/// The contract restates the escaping of serde_json's compact formatter.
#[verifier::external_body]
fn json_text_of_string(s: &str) -> (r: String)
    ensures
        r@ == json_string(s@),
{
    serde_json::Value::String(s.to_owned()).to_string()
}

/// The first position at or after `i` that holds no `"` (the length, if none).
pub open spec fn skip_quotes(s: Seq<char>, i: int) -> int
    decreases s.len() - i,
{
    if 0 <= i < s.len() && s[i] == '"' {
        skip_quotes(s, i + 1)
    } else {
        i
    }
}

/// The end of the text between `lo` and `j` once trailing `"` are dropped.
pub open spec fn drop_quotes(s: Seq<char>, lo: int, j: int) -> int
    decreases j,
{
    if 0 <= lo < j <= s.len() && s[j - 1] == '"' {
        drop_quotes(s, lo, j - 1)
    } else {
        j
    }
}

/// The text without the `"` at its start and at its end, however many.
pub open spec fn unquoted(s: Seq<char>) -> Seq<char> {
    let lo = skip_quotes(s, 0);
    s.subrange(lo, drop_quotes(s, lo, s.len() as int))
}

/// Drops every `"` at the start and at the end of a text.
pub fn unquote(v: &Vec<char>) -> (r: Vec<char>)
    ensures
        r@ == unquoted(v@),
{
    let mut lo: usize = 0;
    while lo < v.len() && v[lo] == '"'
        invariant
            lo <= v.len(),
            skip_quotes(v@, lo as int) == skip_quotes(v@, 0),
        decreases v.len() - lo,
    {
        lo += 1;
    }
    let mut hi: usize = v.len();
    while hi > lo && v[hi - 1] == '"'
        invariant
            lo <= hi <= v.len(),
            drop_quotes(v@, lo as int, hi as int) == drop_quotes(v@, lo as int, v.len() as int),
        decreases hi,
    {
        hi -= 1;
    }
    slice_of(v, lo, hi)
}

pub open spec fn true_text() -> Seq<char> {
    seq!['t', 'r', 'u', 'e']
}

pub open spec fn false_text() -> Seq<char> {
    seq!['f', 'a', 'l', 's', 'e']
}

impl ValueView {
    /// The compact JSON text of the value.
    pub open spec fn json(self) -> Seq<char> {
        match self {
            ValueView::Text(s) => json_string(s),
            ValueView::Number(s) => s,
            ValueView::Bool(b) => if b {
                true_text()
            } else {
                false_text()
            },
            ValueView::Raw(s) => s,
        }
    }

    /// The value as it stands in an argument signature: its JSON text
    /// without the quotes around it.
    pub open spec fn signature(self) -> Seq<char> {
        unquoted(self.json())
    }
}

impl Value {
    /// The characters of a string value; `None` for any other value.
    pub fn as_str(&self) -> (r: Option<&str>)
        ensures
            match r {
                Some(s) => self@ == ValueView::Text(s@),
                None => !(self@ is Text),
            },
    {
        match self {
            Value::Text(s) => Some(s.as_str()),
            _ => None,
        }
    }

    /// The truth value of a boolean; `None` for any other value.
    pub fn as_bool(&self) -> (r: Option<bool>)
        ensures
            match r {
                Some(b) => self@ == ValueView::Bool(b),
                None => !(self@ is Bool),
            },
    {
        match self {
            Value::Bool(b) => Some(*b),
            _ => None,
        }
    }

    /// The compact JSON text of the value.
    pub fn to_json(&self) -> (r: String)
        ensures
            r@ == self@.json(),
    {
        match self {
            Value::Text(s) => json_text_of_string(s.as_str()),
            Value::Number(s) => s.clone(),
            Value::Bool(b) => {
                let mut t: Vec<char> = Vec::new();
                if *b {
                    t.push('t');
                    t.push('r');
                    t.push('u');
                    t.push('e');
                    assert(t@ == true_text());
                } else {
                    t.push('f');
                    t.push('a');
                    t.push('l');
                    t.push('s');
                    t.push('e');
                    assert(t@ == false_text());
                }
                string_of(&t)
            },
            Value::Raw(s) => s.clone(),
        }
    }

    /// The value as it stands in an argument signature.
    pub fn to_signature(&self) -> (r: String)
        ensures
            r@ == self@.signature(),
    {
        let json = self.to_json();
        let chars = chars_of(json.as_str());
        string_of(&unquote(&chars))
    }
}

/// One instruction of a script: the name of the block to run, its
/// arguments, and the blocks to run after it when its gate opens.
#[derive(Debug, PartialEq)]
pub struct Code {
    /// Whether the result of the block is inverted before it gates `subcode`.
    pub negated: bool,
    pub args: Vec<Value>,
    pub block: String,
    pub subcode: Vec<Code>,
}

/// What a [`Code`] stands for in contracts.
pub struct CodeView {
    pub negated: bool,
    pub args: Seq<ValueView>,
    pub block: Seq<char>,
    pub subcode: Seq<CodeView>,
}

/// The view of a block, with the views of all blocks below it.
pub open spec fn code_view(c: Code) -> CodeView
    decreases c,
{
    CodeView {
        negated: c.negated,
        args: value_views(c.args@),
        block: c.block@,
        subcode: forest_view(c.subcode@),
    }
}

/// The views of a sequence of blocks.
pub open spec fn forest_view(cs: Seq<Code>) -> Seq<CodeView>
    decreases cs,
{
    if cs.len() == 0 {
        Seq::empty()
    } else {
        forest_view(cs.drop_last()).push(code_view(cs.last()))
    }
}

impl View for Code {
    type V = CodeView;

    open spec fn view(&self) -> CodeView {
        code_view(*self)
    }
}

impl Code {
    /// Whether the block opens when its action has returned `result`: the
    /// result, inverted when the block is `negated`.
    pub fn opens(&self, result: bool) -> (r: bool)
        ensures
            r == (result != self.negated),
    {
        result != self.negated
    }
}

/// [`forest_view`] takes the view of each block in its place.
pub proof fn lemma_forest_view(cs: Seq<Code>)
    ensures
        forest_view(cs).len() == cs.len(),
        forall|i: int| 0 <= i < cs.len() ==> (#[trigger] forest_view(cs)[i]) == cs[i]@,
    decreases cs.len(),
{
    if cs.len() > 0 {
        lemma_forest_view(cs.drop_last());
        assert forall|i: int| 0 <= i < cs.len() implies (#[trigger] forest_view(cs)[i])
            == cs[i]@ by {
            if i < cs.len() - 1 {
                assert(cs.drop_last()[i] == cs[i]);
            }
        }
    }
}

/// [`forest_view`] of a sequence with one more block at its end.
pub proof fn lemma_forest_view_push(cs: Seq<Code>, c: Code)
    ensures
        forest_view(cs.push(c)) == forest_view(cs).push(c@),
{
    assert(cs.push(c).drop_last() == cs);
}

/// A copy of a sequence of values.
pub fn clone_values(vs: &Vec<Value>) -> (r: Vec<Value>)
    ensures
        value_views(r@) == value_views(vs@),
{
    let mut r: Vec<Value> = Vec::new();
    let mut i: usize = 0;
    while i < vs.len()
        invariant
            i <= vs.len(),
            r.len() == i,
            forall|k: int| 0 <= k < i ==> r@[k]@ == vs@[k]@,
        decreases vs.len() - i,
    {
        r.push(vs[i].clone());
        i += 1;
    }
    assert(value_views(r@) =~= value_views(vs@));
    r
}

/// A copy of a sequence of blocks.
pub fn clone_forest(cs: &Vec<Code>) -> (r: Vec<Code>)
    ensures
        forest_view(r@) == forest_view(cs@),
    decreases cs,
{
    let mut r: Vec<Code> = Vec::new();
    let mut i: usize = 0;
    while i < cs.len()
        invariant
            i <= cs.len(),
            forest_view(r@) == forest_view(cs@.take(i as int)),
        decreases cs.len() - i,
    {
        let ghost before = r@;
        let c = cs[i].clone();
        r.push(c);
        proof {
            lemma_forest_view_push(before, c);
            lemma_forest_view_push(cs@.take(i as int), cs@[i as int]);
            assert(cs@.take(i + 1) == cs@.take(i as int).push(cs@[i as int]));
        }
        i += 1;
    }
    assert(cs@.take(cs.len() as int) == cs@);
    r
}

impl Clone for Code {
    fn clone(&self) -> (r: Self)
        ensures
            r@ == self@,
        decreases self,
    {
        Code {
            negated: self.negated,
            args: clone_values(&self.args),
            block: self.block.clone(),
            subcode: clone_forest(&self.subcode),
        }
    }
}

/// The whole game as it is loaded.
#[derive(Debug, PartialEq, Clone)]
pub struct Game {
    pub animatronics: Table<Animatronic>,
    pub cameras: Table<CamUI>,
    pub game_info: GameInfo,
    pub menus: Table<Menu>,
    pub offices: Table<Office>,
    pub sounds: Sounds,
    pub loaded_extensions: Vec<String>,
    /// The scripts of the offices, by file name.
    pub office_scripts: Table<Vec<Code>>,
    /// The frames of the animations, by file name.
    pub animations: Table<Vec<AnimationJson>>,
}

/// An animatronic as the game defines it.
#[allow(non_snake_case)]
#[derive(Debug, PartialEq, Clone)]
pub struct Animatronic {
    pub AI: Option<Vec<i32>>,
    pub Ignoremask: bool,
    pub Jumpscare: Option<Vec<String>>,
    pub path: Option<Vec<PathNode>>,
    pub State: String,
}

/// A place on the path of an animatronic as the game defines it.
#[derive(Debug, PartialEq)]
pub struct PathNode {
    pub id: String,
    pub kind: String,
    pub chance: i32,
    pub state: String,
    pub path: Option<Vec<PathNode>>,
    pub camid: String,
}

/// A copy of a path.
fn clone_path(nodes: &Vec<PathNode>) -> (r: Vec<PathNode>)
    ensures
        r.len() == nodes.len(),
    decreases nodes,
{
    let mut r: Vec<PathNode> = Vec::new();
    let mut i: usize = 0;
    while i < nodes.len()
        invariant
            i <= nodes.len(),
            r.len() == i,
        decreases nodes.len() - i,
    {
        r.push(nodes[i].clone());
        i += 1;
    }
    r
}

impl Clone for PathNode {
    fn clone(&self) -> (r: Self)
        ensures
            r.id@ == self.id@,
            r.kind@ == self.kind@,
            r.chance == self.chance,
            r.state@ == self.state@,
            r.camid@ == self.camid@,
            r.path is Some == self.path is Some,
        decreases self,
    {
        PathNode {
            id: self.id.clone(),
            kind: self.kind.clone(),
            chance: self.chance,
            state: self.state.clone(),
            path: match &self.path {
                Some(nodes) => Some(clone_path(nodes)),
                None => None,
            },
            camid: self.camid.clone(),
        }
    }
}

/// What the camera monitor shows besides the camera.
#[derive(Debug, PartialEq, Clone)]
pub struct CamUI {
    pub buttons: Table<Vec<MultiType>>,
    pub music_box: Vec<i32>,
    pub sprites: Table<Vec<MultiType>>,
}

/// A text or a number.
#[derive(Debug, PartialEq, Clone)]
pub enum MultiType {
    Str(String),
    Int(i32),
}

/// What the game says of itself.
#[derive(Debug, PartialEq, Clone)]
pub struct GameInfo {
    pub id: String,
    pub title: String,
    pub style: i32,
}

/// A menu: its script, what it shows and how.
#[derive(Debug, PartialEq, Clone)]
pub struct Menu {
    pub code: Vec<Code>,
    pub elements: Vec<Element>,
    pub properties: Properties,
}

/// Something that a menu shows.
#[allow(non_snake_case)]
#[derive(Debug, PartialEq, Clone)]
pub struct Element {
    pub Blue: i32,
    pub Red: i32,
    pub Green: i32,
    pub fontname: String,
    pub fontsize: i32,
    pub hidden: bool,
    pub id: String,
    pub animation: String,
    pub text: String,
    pub kind: String,
    pub sprite: String,
    pub animatronic: String,
    pub x: i32,
    pub y: i32,
}

/// How a menu looks and sounds.
#[allow(non_snake_case)]
#[derive(Debug, PartialEq, Clone)]
pub struct Properties {
    pub BackgroundImage: String,
    pub BackgroundColor: String,
    pub BackgroundMusic: String,
    pub ButtonArrows: bool,
    pub FadeIn: bool,
    pub MenuScroll: bool,
    pub FadeOut: bool,
    pub FadeSpeed: i32,
    pub Panorama: bool,
    pub ButtonArrowStr: String,
    pub ButtonArrowColor: String,
    pub ButtonArrowFont: String,
}

/// An office as the game defines it.
#[derive(Debug, PartialEq, Clone)]
pub struct Office {
    pub animations: Animations,
    pub flashlight: bool,
    pub mask: bool,
    pub objects: Vec<OfficeObject>,
    pub panorama: bool,
    pub power: Power,
    pub states: Table<String>,
    pub toxic: bool,
    pub uibuttons: Uibuttons,
}

/// The animations of an office.
#[derive(Debug, PartialEq, Clone)]
pub struct Animations {
    pub camera: String,
    pub mask: String,
    pub powerout: String,
}

/// Something that stands in an office as the game defines it.
#[derive(Debug, PartialEq, Clone)]
pub struct OfficeObject {
    pub clickstyle: bool,
    pub id: String,
    pub on_sprite: String,
    pub position: Vec<i32>,
    pub close_sound: String,
    pub open_sound: String,
    pub animation: String,
    pub sound: String,
    pub sprite: String,
    pub trigger: Vec<i32>,
    pub kind: String,
}

/// The power of an office as the game defines it.
#[derive(Debug, PartialEq, Clone)]
pub struct Power {
    pub animatronic: String,
    pub enabled: bool,
    pub starting_level: i32,
    pub ucn: bool,
}

/// The buttons that bring up the camera and the mask.
#[derive(Debug, PartialEq, Clone)]
pub struct Uibuttons {
    pub camera: CameraPanel,
    pub mask: MaskPanel,
}

/// The button that brings up the camera.
#[derive(Debug, PartialEq, Clone)]
pub struct CameraPanel {
    pub image: String,
    pub position: Vec<i32>,
}

/// The button that brings up the mask.
#[derive(Debug, PartialEq, Clone)]
pub struct MaskPanel {
    pub image: String,
    pub position: Vec<i32>,
}

/// The sounds of the game, by their use.
#[derive(Debug, PartialEq, Clone)]
pub struct Sounds {
    pub ambience: String,
    pub animatronic_move: Vec<String>,
    pub blip: String,
    pub camdown: String,
    pub camup: String,
    pub flashlight: String,
    pub maskbreathing: String,
    pub maskoff: String,
    pub maskon: String,
    pub masktoxic: String,
    pub music_box_run_out: String,
    pub phone_calls: Vec<String>,
    pub powerout: String,
    pub signal_interrupted: String,
    pub stare: String,
}

/// One frame of an animation: the sprite and how long it stays.
#[derive(Debug, PartialEq, Clone)]
pub struct AnimationJson {
    pub duration: i32,
    pub sprite: String,
}

} // verus!
