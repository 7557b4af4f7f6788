use chrono::TimeZone;
use fnaf_engine::audio_manager::{AudioManager, ChannelPlay, CHANNELS};
use fnaf_engine::button::Button2D;
use fnaf_engine::game_loader::{CamUI, MultiType};
use fnaf_engine::office_data::{Button, Camera, Door, GameData, OfficeData, PathNode, Player, Settings};
use fnaf_engine::table::Table;
use fnaf_engine::text::{
    below, chars_of, decimal_of_i32, decimal_of_u64, has_at, parse_i32, same_str, same_text, space,
    string_of, trim,
};
use fnaf_engine::tick_manager::TickManager;

// Text

#[test]
fn chars_and_strings_convert_both_ways() {
    for s in ["", "abc", "\u{e9}\u{20ac}\u{1f600}", "a\nb"] {
        assert_eq!(chars_of(s), s.chars().collect::<Vec<char>>());
        assert_eq!(string_of(&chars_of(s)), s);
    }
}

#[test]
fn trim_drops_white_space_at_both_ends() {
    for s in ["", " ", "  a  ", "a b", "\t\n a \r\n", "\u{a0}x\u{3000}", "\u{85}\u{1680}\u{2000}\u{200a}\u{2028}\u{2029}\u{202f}\u{205f}y", "\u{200b}z\u{200b}", "\u{feff}w", "\u{1c}q\u{1f}"] {
        assert_eq!(string_of(&trim(&chars_of(s))), s.trim(), "{:?}", s);
    }
}

#[test]
fn space_is_what_the_standard_library_calls_white_space() {
    for n in 0..0x3100u32 {
        if let Some(c) = char::from_u32(n) {
            assert_eq!(space(c), c.is_whitespace(), "{:x}", n);
        }
    }
    assert!(!space('\u{feff}'));
    assert!(!space('\u{10ffff}'));
}

#[test]
fn parse_i32_reads_what_the_standard_library_reads() {
    let samples = [
        "0", "7", "-7", "+7", "007", "-0", "+0", "2147483647", "-2147483648", "2147483648", "-2147483649",
        "99999999999999999999", "-99999999999999999999", "00000000000000000000001", "", "-", "+", "--1",
        "+-1", "1-", "1 ", " 1", "1.0", "1e3", "0x10", "\u{661}", "12a", "a12",
    ];
    for s in samples {
        assert_eq!(parse_i32(&chars_of(s)), s.parse::<i32>().ok(), "{:?}", s);
    }
}

#[test]
fn decimal_writes_what_the_standard_library_writes() {
    for n in [0, 1, -1, 9, 10, 11, 99, 100, -100, 12345, i32::MAX, i32::MIN, i32::MIN + 1] {
        assert_eq!(string_of(&decimal_of_i32(n)), n.to_string());
        assert_eq!(parse_i32(&decimal_of_i32(n)), Some(n));
    }
    for n in [0u64, 5, 10, 1234567890123, u64::MAX] {
        assert_eq!(string_of(&decimal_of_u64(n)), n.to_string());
    }
}

#[test]
fn texts_compare_as_strings_do() {
    let samples = ["", "a", "A", "ab", "abc", "abd", "b", "10", "9", "\u{e9}", "z", "\u{ffff}", "\u{10000}"];
    for a in samples {
        for b in samples {
            assert_eq!(below(&chars_of(a), &chars_of(b)), a < b, "{:?} {:?}", a, b);
            assert_eq!(same_text(&chars_of(a), &chars_of(b)), a == b);
            assert_eq!(same_str(a, b), a == b);
        }
    }
}

#[test]
fn has_at_looks_at_one_place() {
    let text = chars_of("hello");
    assert!(has_at(&text, 0, &chars_of("he")));
    assert!(has_at(&text, 3, &chars_of("lo")));
    assert!(has_at(&text, 5, &chars_of("")));
    assert!(!has_at(&text, 1, &chars_of("he")));
    assert!(!has_at(&text, 4, &chars_of("lo")));
    assert!(!has_at(&text, 6, &chars_of("")));
    assert!(!has_at(&text, usize::MAX, &chars_of("h")));
}

// Table

#[test]
fn table_keeps_the_value_of_each_name() {
    let mut table: Table<i32> = Table::new();
    assert_eq!(table.len(), 0);
    assert_eq!(table.get("a"), None);
    table.insert("a".to_string(), 1);
    table.insert("b".to_string(), 2);
    table.insert("a".to_string(), 3);
    assert_eq!(table.len(), 2);
    assert_eq!(table.get("a"), Some(&3));
    assert_eq!(table.get("b"), Some(&2));
    assert_eq!(table.get("c"), None);
    assert!(table.contains_key("b"));
    assert!(!table.contains_key("B"));
    assert_eq!(table.find("b"), Some(1));
    assert_eq!(table.find("c"), None);
}

#[test]
fn table_keeps_the_order_in_which_names_came_in() {
    let mut table: Table<i32> = Table::new();
    table.insert("z".to_string(), 1);
    table.insert("a".to_string(), 2);
    table.insert("z".to_string(), 3);
    table.insert("m".to_string(), 4);
    assert_eq!((table.name_at(0), table.value_at(0)), ("z", &3));
    assert_eq!((table.name_at(1), table.value_at(1)), ("a", &2));
    assert_eq!((table.name_at(2), table.value_at(2)), ("m", &4));
}

#[test]
fn table_values_change_in_place() {
    let mut table: Table<i32> = Table::new();
    table.insert("a".to_string(), 1);
    table.insert("b".to_string(), 2);
    *table.get_mut("a").unwrap() += 10;
    *table.value_at_mut(1) += 20;
    assert_eq!(table.get_mut("c"), None);
    assert_eq!(table.get("a"), Some(&11));
    assert_eq!(table.get("b"), Some(&22));
    assert_eq!(table.clone(), table);
}

// The state of a night

#[test]
fn empty_office_is_in_its_default_state() {
    let office = OfficeData::empty();
    assert_eq!(office.state, "Default");
    assert!(!office.blinking_effect);
    assert!(!office.disable_flashlight);
    assert_eq!(office.states.len(), 0);
    assert_eq!(office.objects.len(), 0);
    assert_eq!(office.lights.len(), 0);
    assert_eq!(office.doors.len(), 0);
    assert_eq!(office.animations.len(), 0);
    assert_eq!(office.sprites.len(), 0);
}

#[test]
fn office_and_camera_take_their_state() {
    let mut office = OfficeData::empty();
    office.set_state("Dark".to_string());
    assert_eq!(office, OfficeData { state: "Dark".to_string(), ..OfficeData::empty() });
    let mut camera = Camera {
        panorama: true,
        static_camera: false,
        states: Table::new(),
        state: "Default".to_string(),
        scroll: 3,
    };
    camera.set_state("Static".to_string());
    assert_eq!(
        camera,
        Camera { panorama: true, static_camera: false, states: Table::new(), state: "Static".to_string(), scroll: 3 }
    );
}

#[test]
fn new_night_starts_with_full_power() {
    let data = GameData::new("assets", 3);
    assert_eq!(data.path, "assets");
    assert_eq!(data.night, 3);
    assert_eq!(data.settings, Settings { mask: true, flashlight: true, toxic: true, panorama: true, power: false });
    assert_eq!(data.office, OfficeData::empty());
    assert_eq!(data.player, Player::new());
    assert_eq!(data.cameras.len(), 0);
    assert_eq!(data.cam_ui, CamUI { buttons: Table::new(), music_box: vec![], sprites: Table::new() });
    assert_eq!(data.animatronics.len(), 0);
    assert_eq!((data.power.level, data.power.usage, data.power.enabled, data.power.ucn), (100, 0, true, false));
    assert_eq!(data.power.power_out_animation, "");
    assert_eq!(data.power.animatronic_jumpscare, "");
    assert_eq!(data.time, 0);
    assert!(!data.paused);
}

#[test]
fn night_keeps_its_time_and_its_clock() {
    let mut data = GameData::new("", 1);
    data.set_time(5);
    assert_eq!(data, GameData { time: 5, ..GameData::new("", 1) });
    data.disable_time();
    assert_eq!(data, GameData { time: 5, paused: true, ..GameData::new("", 1) });
    data.enable_time();
    assert_eq!(data, GameData { time: 5, ..GameData::new("", 1) });
    data.quit();
    data.goto_menu();
    assert_eq!(data, GameData { time: 5, ..GameData::new("", 1) });
}

#[test]
fn player_starts_at_rest() {
    let player = Player::new();
    assert!(!player.is_camera_up);
    assert!(!player.camera_button_toggle);
    assert!(!player.is_mask_on);
    assert!(!player.is_flashlight_on);
    assert_eq!(player.current_camera, "");
    assert!(!player.signal_interrupted);
}

#[test]
fn player_moves_monitor_and_mask() {
    let mut player = Player::new();
    player.set_camera("CAM01".to_string());
    assert_eq!(player, Player { current_camera: "CAM01".to_string(), ..Player::new() });
    player.pullup();
    assert!(player.is_camera_up);
    player.mask_on();
    assert!(player.is_mask_on);
    player.putdown();
    assert!(!player.is_camera_up && player.is_mask_on);
    player.mask_off();
    assert_eq!(player, Player { current_camera: "CAM01".to_string(), ..Player::new() });
}

#[test]
fn path_node_describes_itself() {
    let inner = PathNode::new("i".to_string(), "door".to_string(), 1, "s".to_string(), vec![], "".to_string());
    let node = PathNode::new(
        "stage".to_string(),
        "camera".to_string(),
        -25,
        "idle".to_string(),
        vec![inner.clone()],
        "CAM01".to_string(),
    );
    assert_eq!(node.id, "stage");
    assert_eq!(node.type_, "camera");
    assert_eq!(node.chance, -25);
    assert_eq!(node.state, "idle");
    assert_eq!(node.path, vec![inner]);
    assert_eq!(node.camid, "CAM01");
    assert_eq!(node.to_string(), "ID: stage TYPE: camera CHANCE: -25 STATE: idle");
    assert_eq!(node.clone(), node);
}

#[test]
fn multi_type_holds_a_text_or_a_number() {
    assert_ne!(MultiType::Str("1".to_string()), MultiType::Int(1));
    assert_eq!(MultiType::Int(1).clone(), MultiType::Int(1));
}

// The clock

#[test]
fn clock_counts_ticks() {
    let mut clock = TickManager::new();
    assert_eq!(clock, TickManager { current_tick: 0, ticked: false, stop_signal: false });
    clock.increment();
    clock.increment();
    assert_eq!(clock.get_current_tick(), 2);
    assert!(clock.current_tick_equals(2));
    assert!(!clock.current_tick_equals(3));
    assert!(!clock.ticked);
    assert!(clock.tick());
    assert_eq!(clock, TickManager { current_tick: 3, ticked: true, stop_signal: false });
    clock.reset();
    assert_eq!(clock, TickManager { current_tick: 0, ticked: true, stop_signal: false });
}

#[test]
fn clock_that_is_told_to_stop_does_not_tick() {
    let mut clock = TickManager::new();
    clock.increment();
    clock.stop();
    assert!(clock.stop_signal);
    assert!(!clock.tick());
    assert_eq!(clock, TickManager { current_tick: 1, ticked: false, stop_signal: false });
    assert!(clock.tick());
    assert_eq!(clock.get_current_tick(), 2);
}

// Buttons

#[test]
fn button_is_clicked_once_per_press() {
    let mut button = Button2D::new("button_clicked".to_string(), vec!["play".to_string()], false);
    assert!(!button.is_hovered && !button.is_clicked && button.is_clickable && !button.is_image);
    button.update(true, false, true);
    assert!(button.is_hovered && !button.is_clicked && button.is_clickable);
    button.update(true, true, false);
    assert!(button.is_hovered && button.is_clicked && !button.is_clickable);
    button.update(true, true, false);
    assert!(button.is_hovered && !button.is_clicked && !button.is_clickable);
    button.update(true, false, true);
    assert!(!button.is_clicked && button.is_clickable);
    button.update(false, true, false);
    assert!(!button.is_hovered && !button.is_clicked && !button.is_clickable);
    assert_eq!(button.event, "button_clicked");
    assert_eq!(button.event_args, vec!["play".to_string()]);
}

// Audio channels

fn player() -> AudioManager {
    let mut audio = AudioManager::new();
    assert!(audio.load_audio("music", "sounds/music.ogg"));
    assert!(audio.load_audio("blip", "sounds/blip.mp3"));
    assert!(audio.load_audio("hum", "hum"));
    audio
}

#[test]
fn wav_files_are_not_loaded() {
    let mut audio = AudioManager::new();
    assert!(!audio.load_audio("a", "sounds/a.wav"));
    assert!(!audio.load_audio("b", "b.wav.bak"));
    assert!(!audio.load_audio("c", ".wav"));
    assert!(audio.load_audio("d", "d.wa"));
    assert!(audio.load_audio("e", "e.WAV"));
    assert!(audio.load_audio("f", ""));
    assert!(!audio.is_loaded("a") && !audio.is_loaded("b") && !audio.is_loaded("c"));
    assert!(audio.is_loaded("d") && audio.is_loaded("e") && audio.is_loaded("f"));
}

#[test]
fn sounds_take_the_first_free_channel() {
    let mut audio = player();
    assert_eq!(audio.get_available_channel(), Some(0));
    assert_eq!(audio.play("music", true), Some(0));
    assert_eq!(audio.play("blip", false), Some(1));
    assert_eq!(audio.play("music", false), Some(2));
    assert_eq!(audio.play("unknown", false), None);
    assert_eq!(audio.get_available_channel(), Some(3));
    assert_eq!(audio.sound_on_channel(0), Some("music"));
    assert_eq!(audio.sound_on_channel(1), Some("blip"));
    assert_eq!(audio.sound_on_channel(3), None);
    assert_eq!(audio.stop_channel(1), Some("blip".to_string()));
    assert_eq!(audio.play("hum", false), Some(1));
}

#[test]
fn no_channel_is_left_after_forty_eight_sounds() {
    let mut audio = player();
    for channel in 0..CHANNELS {
        assert_eq!(audio.play("hum", false), Some(channel));
    }
    assert_eq!(audio.get_available_channel(), None);
    assert_eq!(audio.play("hum", false), None);
    assert_eq!(audio.kill_all(), vec!["hum".to_string(); CHANNELS]);
    assert_eq!(audio.get_available_channel(), Some(0));
}

#[test]
fn a_channel_is_given_to_the_sound_that_asks_for_it() {
    let mut audio = player();
    assert_eq!(audio.play_on_channel("music", true, 5), ChannelPlay::Start { stop: None });
    assert_eq!(audio.play_on_channel("blip", false, 5), ChannelPlay::Start { stop: Some("music".to_string()) });
    assert_eq!(audio.sound_on_channel(5), Some("blip"));
    assert_eq!(audio.play_on_channel("unknown", false, 5), ChannelPlay::UnknownSound);
    assert_eq!(audio.play_on_channel("unknown", false, 48), ChannelPlay::UnknownSound);
    assert_eq!(audio.play_on_channel("blip", false, 48), ChannelPlay::UnknownChannel);
    assert_eq!(audio.play_on_channel("blip", false, 47), ChannelPlay::Start { stop: None });
    assert_eq!(audio.sound_on_channel(5), Some("blip"));
    assert_eq!(audio.sound_on_channel(48), None);
}

#[test]
fn stopping_takes_sounds_off_their_channels() {
    let mut audio = player();
    audio.play("music", true);
    audio.play_on_channel("blip", false, 7);
    audio.play_on_channel("hum", false, 3);
    assert!(audio.stop("music"));
    assert!(!audio.stop("unknown"));
    assert_eq!(audio.stop_channel(2), None);
    assert_eq!(audio.stop_channel(48), None);
    assert_eq!(audio.stop_channel(7), Some("blip".to_string()));
    assert_eq!(audio.stop_channel(7), None);
    assert_eq!(audio.kill_all(), vec!["music".to_string(), "hum".to_string()]);
    assert_eq!(audio.kill_all(), Vec::<String>::new());
    assert_eq!(audio.sound_on_channel(0), None);
    assert!(audio.is_loaded("music"));
}

// The log

#[test]
fn log_lines_hold_time_level_module_and_message() {
    let logger = fnaf_engine::logger::Logger::new();
    assert_eq!(logger.log("Event Manager", "Killed 3 Listeners", 0), "00:00:00 INFO (Event Manager): Killed 3 Listeners");
    assert_eq!(logger.log_error("OfficeManager", "Current Office is null", 3661), "01:01:01 ERROR (OfficeManager): Current Office is null");
    assert_eq!(logger.log_warn("", "", 86_399), "23:59:59 WARN (): ");
    assert_eq!(logger.log("m", "x", 86_400), "00:00:00 INFO (m): x");
    assert_eq!(logger.log("m", "x", 1_431_648_000 + 45_296), "12:34:56 INFO (m): x");
    assert_eq!(
        logger.log_custom(fnaf_engine::logger::LogLevel::FATAL, "m", "x", u64::MAX),
        "07:00:15 FATAL (m): x"
    );
    assert_eq!(logger.log_custom(fnaf_engine::logger::LogLevel::DEBUG, "m", "x", 59), "00:00:59 DEBUG (m): x");
}

#[test]
fn log_times_are_what_chrono_writes() {
    let logger = fnaf_engine::logger::Logger::new();
    for seconds in [0u64, 1, 59, 60, 3599, 3600, 43_200, 86_399, 86_400, 1_700_000_000, 4_102_444_799] {
        let expected = chrono::Utc.timestamp_opt(seconds as i64, 0).unwrap().format("%H:%M:%S").to_string();
        assert_eq!(logger.log("m", "x", seconds), format!("{} INFO (m): x", expected));
    }
}

#[test]
fn logger_carries_the_splash() {
    let logger = fnaf_engine::logger::Logger::new();
    assert_eq!(logger.colors, [15, 11, 14, 12, 8]);
    assert_eq!(logger.splash.len(), 12);
    assert!(logger.splash[7].contains("\\______   \\"));
    assert_eq!(fnaf_engine::logger::LogLevel::INFO.name(), "INFO");
}

// Doors

#[test]
fn door_closes_and_opens_on_clicks() {
    let mut door = Door { is_closed: false, button: Button { is_on: false, clickable: true }, animation: "a".to_string() };
    assert!(!door.press(false, true));
    assert!(!door.is_closed);
    assert!(door.press(true, true));
    assert_eq!(door, Door { is_closed: true, button: Button { is_on: true, clickable: false }, animation: "a".to_string() });
    assert!(door.press(true, true));
    assert!(door.is_closed && !door.button.clickable);
    assert!(door.press(false, false));
    assert!(!door.button.clickable);
    assert!(door.press(true, false));
    assert!(door.is_closed && door.button.clickable);
    assert!(!door.press(true, true));
    assert_eq!(door, Door { is_closed: false, button: Button { is_on: false, clickable: false }, animation: "a".to_string() });
}
