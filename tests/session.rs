use chippi::config::{Config, ConfigError};
use chippi::session::{rom_for_number, JSEvents, Session};

#[test]
fn colors_cycle() {
    let mut s = Session::new(1, false);
    for expected in [1usize, 2, 3, 4, 0] {
        s.increase_color();
        assert_eq!(s.color, expected);
    }
}

#[test]
fn speed_keys() {
    let mut s = Session::new(19, false);
    assert!(s.process_sys_input(true, false, false, false));
    assert_eq!(s.speed_multiplier, 20);
    assert!(s.process_sys_input(true, false, false, false));
    assert_eq!(s.speed_multiplier, 20);
    let mut s = Session::new(0, false);
    assert!(s.process_sys_input(false, true, true, false));
    assert_eq!(s.speed_multiplier, 0);
    assert_eq!(s.color, 1);
    assert!(!s.process_sys_input(false, false, false, true));
}

#[test]
fn buzzer_latch() {
    let mut s = Session::new(1, false);
    assert_eq!(s.process_audio(12), Some(2));
    assert!(!s.latch);
    assert_eq!(s.process_audio(11), None);
    assert_eq!(s.process_audio(0), None);
    assert!(s.latch);
    assert_eq!(s.process_audio(5), Some(1));
    s.process_audio(0);
    assert_eq!(s.process_audio(3), Some(0));
}

#[test]
fn rainbow_colors() {
    let mut s = Session::new(1, true);
    assert_eq!(s.get_color(), 1);
    s.next_frame();
    assert_eq!(s.get_color(), 1);
    for _ in 0..9 {
        s.next_frame();
    }
    assert_eq!(s.frame_counter, 10);
    assert_eq!(s.get_color(), 2);

    let mut s = Session::new(1, false);
    assert_eq!(s.get_color(), 0);
}

#[test]
fn frame_counter_wraps() {
    let mut s = Session::new(1, false);
    s.frame_counter = 255;
    s.next_frame();
    assert_eq!(s.frame_counter, 0);
}

#[test]
fn page_events() {
    let mut s = Session::new(1, false);
    assert_eq!(s.apply_event(JSEvents::ChangeColor(3)), None);
    assert_eq!(s.color, 3);
    assert_eq!(s.apply_event(JSEvents::ChangeColor(9)), None);
    assert_eq!(s.color, 3);
    assert_eq!(s.apply_event(JSEvents::ChangeSpeed(7)), None);
    assert_eq!(s.speed_multiplier, 7);
    assert_eq!(s.apply_event(JSEvents::ChangeSpeed(-2)), None);
    assert_eq!(s.speed_multiplier, 0);
    assert_eq!(
        s.apply_event(JSEvents::SwapRom("a.ch8".to_string())),
        Some("a.ch8".to_string())
    );
    assert_eq!(s.apply_event(JSEvents::ChangeRainbowMode(1)), None);
    assert!(s.rainbow_mode);
    assert_eq!(s.color, 3);
    assert_eq!(s.apply_event(JSEvents::ChangeRainbowMode(1)), None);
    assert!(!s.rainbow_mode);
    assert_eq!(s.color, 1);
}

#[test]
fn rom_numbers() {
    assert_eq!(rom_for_number(0), "./roms/chippi.ch8");
    assert_eq!(rom_for_number(1), "./roms/Blinky [Hans Christian Egeberg, 1991].ch8");
    assert_eq!(rom_for_number(2), "./roms/Breakout (Brix hack) [David Winter, 1997].ch8");
    assert_eq!(rom_for_number(3), "./roms/Pong (1 player).ch8");
    assert_eq!(rom_for_number(-1), "./roms/Pong (1 player).ch8");
}

fn args(words: &[&str]) -> Vec<String> {
    words.iter().map(|w| w.to_string()).collect()
}

#[test]
fn config_defaults() {
    let c = Config::from_args(&args(&["chippi"])).unwrap();
    assert_eq!(c.rom_filename, "./roms/chippi.ch8");
    assert_eq!(c.speed_multiplier, 1);
    assert!(c.rainbow_mode);

    let c = Config::from_args(&args(&[])).unwrap();
    assert_eq!(c.rom_filename, "./roms/chippi.ch8");
    assert_eq!(c.speed_multiplier, 1);
    assert!(!c.rainbow_mode);
}

#[test]
fn config_from_words() {
    let c = Config::from_args(&args(&["chippi", "pong.ch8"])).unwrap();
    assert_eq!(c.rom_filename, "pong.ch8");
    assert_eq!(c.speed_multiplier, 1);
    assert!(!c.rainbow_mode);

    let c = Config::from_args(&args(&["chippi", "pong.ch8", "12"])).unwrap();
    assert_eq!(c.speed_multiplier, 12);

    let c = Config::from_args(&args(&["chippi", "pong.ch8", "+7", "x"])).unwrap();
    assert_eq!(c.speed_multiplier, 7);
    assert!(c.rainbow_mode);
}

#[test]
fn config_rejects_bad_speed() {
    assert_eq!(
        Config::from_args(&args(&["chippi", "pong.ch8", "fast"])),
        Err(ConfigError::InvalidSpeed)
    );
    assert_eq!(
        Config::from_args(&args(&["chippi", "pong.ch8", "-3"])),
        Err(ConfigError::InvalidSpeed)
    );
    assert_eq!(
        Config::from_args(&args(&["chippi", "pong.ch8", ""])),
        Err(ConfigError::InvalidSpeed)
    );
}
