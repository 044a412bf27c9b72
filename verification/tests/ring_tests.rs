use aquarium_espresso::bubbles::{next_slot, MAX_BUB, MAX_POP};
use aquarium_espresso::controls::{frame_commands, Keys};

#[test]
fn slots_advance_and_wrap() {
    assert_eq!(next_slot(0, MAX_BUB), 1);
    assert_eq!(next_slot(MAX_BUB - 1, MAX_BUB), 0);
    assert_eq!(next_slot(MAX_POP - 1, MAX_POP), 0);
    assert_eq!(next_slot(0, 1), 0);
}

#[test]
fn a_full_lap_returns_to_the_start() {
    let mut c = 17;
    let mut seen = vec![false; MAX_POP];
    for _ in 0..MAX_POP {
        c = next_slot(c, MAX_POP);
        seen[c] = true;
    }
    assert_eq!(c, 17);
    assert!(seen.iter().all(|&s| s));
}

fn none() -> Keys {
    Keys { space: false, b: false, r: false, e: false, q: false, escape: false }
}

#[test]
fn keys_become_commands() {
    let c = frame_commands(none(), 2, 5);
    assert_eq!((c.backdrop, c.reset, c.toggle_ebi, c.quit), (2, false, false, false));
    let c = frame_commands(Keys { space: true, ..none() }, 4, 5);
    assert_eq!(c.backdrop, 0);
    let c = frame_commands(Keys { b: true, r: true, ..none() }, 1, 5);
    assert_eq!((c.backdrop, c.reset), (2, true));
    let c = frame_commands(Keys { e: true, escape: true, ..none() }, 0, 5);
    assert!(c.toggle_ebi && c.quit);
    let c = frame_commands(Keys { q: true, ..none() }, 0, 5);
    assert!(c.quit);
}

use aquarium_espresso::controls::{parse_number, parse_options, starting_backdrop, Options, DEFAULT_FPS};

fn args(list: &[&str]) -> Vec<Vec<u8>> {
    list.iter().map(|s| s.as_bytes().to_vec()).collect()
}

#[test]
fn numbers_on_the_command_line() {
    assert_eq!(parse_number(&b"12".to_vec()), Some(12));
    assert_eq!(parse_number(&b"0".to_vec()), Some(0));
    assert_eq!(parse_number(&b"4294967295".to_vec()), Some(u32::MAX));
    assert_eq!(parse_number(&b"4294967296".to_vec()), None);
    assert_eq!(parse_number(&b"99999999999".to_vec()), None);
    assert_eq!(parse_number(&b"".to_vec()), None);
    assert_eq!(parse_number(&b"3x".to_vec()), None);
    assert_eq!(parse_number(&b"-1".to_vec()), None);
}

#[test]
fn default_options() {
    assert_eq!(parse_options(&args(&[])), Options { bg: None, fps: DEFAULT_FPS });
    assert_eq!(DEFAULT_FPS, 24);
}

#[test]
fn choosing_the_backdrop() {
    assert_eq!(parse_options(&args(&["--bg", "2"])), Options { bg: Some(2), fps: 24 });
    assert_eq!(parse_options(&args(&["--bg", "5"])), Options { bg: None, fps: 24 });
    assert_eq!(parse_options(&args(&["--bg"])), Options { bg: None, fps: 24 });
    assert_eq!(parse_options(&args(&["--bg", "1", "--bg", "4"])), Options { bg: Some(4), fps: 24 });
}

#[test]
fn choosing_the_frame_rate() {
    assert_eq!(parse_options(&args(&["--fps", "30"])), Options { bg: None, fps: 30 });
    assert_eq!(parse_options(&args(&["--fps", "0"])), Options { bg: None, fps: 24 });
    assert_eq!(parse_options(&args(&["--fps", "60", "--bg", "0"])), Options { bg: Some(0), fps: 60 });
    assert_eq!(parse_options(&args(&["--fps", "--bg", "3"])), Options { bg: None, fps: 24 });
    assert_eq!(parse_options(&args(&["x", "--bg", "3", "y"])), Options { bg: Some(3), fps: 24 });
}

#[test]
fn the_starting_backdrop() {
    assert_eq!(starting_backdrop(Some(3)), 3);
    let mut seen = [false; 5];
    for _ in 0..500 {
        let b = starting_backdrop(None);
        assert!(b < 5);
        seen[b] = true;
    }
    assert!(seen.iter().filter(|&&s| s).count() > 1);
}
