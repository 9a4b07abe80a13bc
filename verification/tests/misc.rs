use alicepi::config::ServerConfig;
use alicepi::text::{contains_substring, escape_single_quotes, find_from, str_all_space, str_trim};
use alicepi::voice_output::select_output_device;
use alicepi::gpio::{desired_led_mode, gpio_edge_command, LedMode};
use alicepi::protocol::{ClientCommand, RuntimeState};
use alicepi::voice_input::VadStatus;

#[test]
fn default_bind_is_loopback() {
    assert_eq!(ServerConfig::default_bind(), "127.0.0.1:7878");
}

#[test]
fn led_pulses_while_processing() {
    assert_eq!(desired_led_mode(RuntimeState::Processing, false), LedMode::Pulse);
    assert_eq!(desired_led_mode(RuntimeState::Speaking, true), LedMode::Pulse);
    assert_eq!(desired_led_mode(RuntimeState::Speaking, false), LedMode::Fixed);
    assert_eq!(desired_led_mode(RuntimeState::Idle, true), LedMode::Fixed);
    assert_eq!(desired_led_mode(RuntimeState::Listening, false), LedMode::Fixed);
}

#[test]
fn edges_are_active_low() {
    assert!(matches!(gpio_edge_command(true, true), ClientCommand::ButtonPress));
    assert!(matches!(gpio_edge_command(true, false), ClientCommand::ButtonRelease));
    assert!(matches!(gpio_edge_command(false, true), ClientCommand::LidClose));
    assert!(matches!(gpio_edge_command(false, false), ClientCommand::LidOpen));
}

#[test]
fn state_and_phase_spellings() {
    assert_eq!(RuntimeState::Idle.as_str(), "Idle");
    assert_eq!(RuntimeState::Listening.as_str(), "Listening");
    assert_eq!(RuntimeState::Processing.as_str(), "Processing");
    assert_eq!(RuntimeState::Speaking.as_str(), "Speaking");
    assert_eq!(VadStatus::Silence.label(), "SILENCE");
    assert_eq!(VadStatus::Speech.label(), "SPEECH_DETECTED");
    assert_eq!(VadStatus::Hangover.label(), "SPEECH_HANGOVER");
}

#[test]
fn single_quotes_are_shell_escaped() {
    assert_eq!(escape_single_quotes("it's"), "it'\\''s");
    assert_eq!(escape_single_quotes("plain"), "plain");
    assert_eq!(escape_single_quotes("''"), "'\\'''\\''");
    assert_eq!(escape_single_quotes(""), "");
}

#[test]
fn trimming_and_searching_text() {
    assert_eq!(str_trim("  padded \t"), "padded");
    assert_eq!(str_trim("\r\n"), "");
    assert!(str_all_space(" \t\n"));
    assert!(!str_all_space(" x "));
    assert!(contains_substring("plughw:CARD=Headphones", "Headphones"));
    assert!(!contains_substring("default", "Headphones"));
    assert_eq!(find_from("abcabc", 1, "abc"), Some(3));
    assert_eq!(find_from("abcabc", 0, "zz"), None);
}

#[test]
fn requested_device_picks_the_first_match() {
    let names = vec![
        "default".to_string(),
        "plughw:CARD=Speaker".to_string(),
        "plughw:CARD=Speaker,DEV=0".to_string(),
    ];
    assert_eq!(select_output_device(&names, "Speaker"), Some(1));
    assert_eq!(select_output_device(&names, "Headset"), None);
}
