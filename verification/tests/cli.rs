use collar_tx::cli::{CliCommand, CliOutcome, State, process_command};
use collar_tx::packet::{Action, Channel, Packet};

fn fresh_state() -> State {
    State {
        id: 42,
        channel: Channel::One,
        intensity: 55,
        action: Action::Beep,
        last_light_state: false,
    }
}

#[test]
fn startup_state_uses_defaults_when_nothing_is_stored() {
    let state = State::new(None, None, None, None);
    assert_eq!(state.id, 0);
    assert_eq!(state.intensity, 1);
    assert_eq!(state.action, Action::Shock);
    assert_eq!(state.channel, Channel::Zero);
    assert!(!state.last_light_state);
}

#[test]
fn startup_state_uses_stored_values() {
    let state = State::new(Some(900), Some(33), Some(3), Some(2));
    assert_eq!(state.id, 900);
    assert_eq!(state.intensity, 33);
    assert_eq!(state.action, Action::Beep);
    assert_eq!(state.channel, Channel::Two);
}

#[test]
fn help_changes_nothing() {
    let mut state = fresh_state();
    assert_eq!(process_command(CliCommand::Help, &mut state), CliOutcome::Help);
    assert_eq!(state, fresh_state());
}

#[test]
fn set_id_in_range_is_stored() {
    let mut state = fresh_state();
    assert_eq!(process_command(CliCommand::SetId(65535), &mut state), CliOutcome::Stored);
    assert_eq!(state.id, 65535);
}

#[test]
fn set_id_out_of_range_is_rejected() {
    let mut state = fresh_state();
    assert_eq!(process_command(CliCommand::SetId(65536), &mut state), CliOutcome::Rejected);
    assert_eq!(process_command(CliCommand::SetId(-1), &mut state), CliOutcome::Rejected);
    assert_eq!(state, fresh_state());
}

#[test]
fn set_channel_in_range_is_stored() {
    let mut state = fresh_state();
    assert_eq!(process_command(CliCommand::SetChannel(2), &mut state), CliOutcome::Stored);
    assert_eq!(state.channel, Channel::Two);
}

#[test]
fn set_channel_out_of_range_is_rejected() {
    let mut state = fresh_state();
    assert_eq!(process_command(CliCommand::SetChannel(3), &mut state), CliOutcome::Rejected);
    assert_eq!(state, fresh_state());
}

#[test]
fn set_intensity_bounds() {
    let mut state = fresh_state();
    assert_eq!(process_command(CliCommand::SetIntensity(99), &mut state), CliOutcome::Stored);
    assert_eq!(state.intensity, 99);
    assert_eq!(process_command(CliCommand::SetIntensity(100), &mut state), CliOutcome::Rejected);
    assert_eq!(state.intensity, 99);
}

#[test]
fn vibrate_with_intensity_sets_both() {
    let mut state = fresh_state();
    assert_eq!(process_command(CliCommand::Vibrate(70), &mut state), CliOutcome::Stored);
    assert_eq!(state.action, Action::Vibrate);
    assert_eq!(state.intensity, 70);
}

#[test]
fn vibrate_without_intensity_keeps_intensity() {
    let mut state = fresh_state();
    assert_eq!(process_command(CliCommand::Vibrate(-1), &mut state), CliOutcome::Stored);
    assert_eq!(state.action, Action::Vibrate);
    assert_eq!(state.intensity, 55);
}

#[test]
fn vibrate_out_of_range_is_rejected() {
    let mut state = fresh_state();
    assert_eq!(process_command(CliCommand::Vibrate(100), &mut state), CliOutcome::Rejected);
    assert_eq!(state, fresh_state());
}

#[test]
fn shock_with_intensity_sets_both() {
    let mut state = fresh_state();
    assert_eq!(process_command(CliCommand::Shock(5), &mut state), CliOutcome::Stored);
    assert_eq!(state.action, Action::Shock);
    assert_eq!(state.intensity, 5);
}

#[test]
fn beep_sets_the_action() {
    let mut state = fresh_state();
    assert_eq!(process_command(CliCommand::Beep, &mut state), CliOutcome::Stored);
    assert_eq!(state.action, Action::Beep);
}

#[test]
fn light_sends_four_toggle_packets_and_alternates() {
    let mut state = fresh_state();
    let first = process_command(CliCommand::Light, &mut state);
    assert_eq!(
        first,
        CliOutcome::Send {
            packet: Packet { id: 42, channel: Channel::One, action: Action::Light, intensity: 97 },
            copies: 4,
        }
    );
    assert!(state.last_light_state);

    let second = process_command(CliCommand::Light, &mut state);
    assert_eq!(
        second,
        CliOutcome::Send {
            packet: Packet { id: 42, channel: Channel::One, action: Action::Light, intensity: 96 },
            copies: 4,
        }
    );
    assert!(!state.last_light_state);
}

#[test]
fn transmit_defaults_to_four_copies() {
    let mut state = fresh_state();
    let outcome = process_command(CliCommand::Transmit(-1), &mut state);
    assert_eq!(
        outcome,
        CliOutcome::Send {
            packet: Packet { id: 42, channel: Channel::One, action: Action::Beep, intensity: 55 },
            copies: 4,
        }
    );
}

#[test]
fn transmit_takes_an_explicit_amount() {
    let mut state = fresh_state();
    let outcome = process_command(CliCommand::Transmit(1000), &mut state);
    assert_eq!(
        outcome,
        CliOutcome::Send {
            packet: Packet { id: 42, channel: Channel::One, action: Action::Beep, intensity: 55 },
            copies: 1000,
        }
    );
}

#[test]
fn transmit_out_of_range_is_rejected() {
    let mut state = fresh_state();
    assert_eq!(process_command(CliCommand::Transmit(65536), &mut state), CliOutcome::Rejected);
    assert_eq!(process_command(CliCommand::Transmit(-2), &mut state), CliOutcome::Rejected);
    assert_eq!(state, fresh_state());
}

#[test]
fn unknown_commands_change_nothing() {
    let mut state = fresh_state();
    assert_eq!(process_command(CliCommand::Unknown, &mut state), CliOutcome::Unknown);
    assert_eq!(state, fresh_state());
}

fn parse(line: &str) -> CliCommand {
    let chars: Vec<char> = line.chars().collect();
    collar_tx::cli::parse_line(&chars)
}

#[test]
fn parses_words_and_aliases() {
    assert_eq!(parse("help"), CliCommand::Help);
    assert_eq!(parse("id 123"), CliCommand::SetId(123));
    assert_eq!(parse("channel 2"), CliCommand::SetChannel(2));
    assert_eq!(parse("c 1"), CliCommand::SetChannel(1));
    assert_eq!(parse("intensity 55"), CliCommand::SetIntensity(55));
    assert_eq!(parse("i 9"), CliCommand::SetIntensity(9));
    assert_eq!(parse("vibrate 40"), CliCommand::Vibrate(40));
    assert_eq!(parse("v"), CliCommand::Vibrate(-1));
    assert_eq!(parse("shock 3"), CliCommand::Shock(3));
    assert_eq!(parse("s"), CliCommand::Shock(-1));
    assert_eq!(parse("beep"), CliCommand::Beep);
    assert_eq!(parse("b"), CliCommand::Beep);
    assert_eq!(parse("light"), CliCommand::Light);
    assert_eq!(parse("l"), CliCommand::Light);
    assert_eq!(parse("transmit 10"), CliCommand::Transmit(10));
    assert_eq!(parse("t"), CliCommand::Transmit(-1));
}

#[test]
fn unknown_words_parse_to_unknown() {
    assert_eq!(parse(""), CliCommand::Unknown);
    assert_eq!(parse("zap 3"), CliCommand::Unknown);
    assert_eq!(parse("helper"), CliCommand::Unknown);
    assert_eq!(parse("Id 5"), CliCommand::Unknown);
}

#[test]
fn arguments_parse_as_32_bit_decimals() {
    assert_eq!(parse("id -5"), CliCommand::SetId(-5));
    assert_eq!(parse("id +7"), CliCommand::SetId(7));
    assert_eq!(parse("id 00042"), CliCommand::SetId(42));
    assert_eq!(parse("id 2147483647"), CliCommand::SetId(2147483647));
    assert_eq!(parse("id -2147483648"), CliCommand::SetId(-2147483648));
}

#[test]
fn bad_arguments_are_worth_minus_one() {
    assert_eq!(parse("id"), CliCommand::SetId(-1));
    assert_eq!(parse("id x"), CliCommand::SetId(-1));
    assert_eq!(parse("id 12a"), CliCommand::SetId(-1));
    assert_eq!(parse("id 2147483648"), CliCommand::SetId(-1));
    assert_eq!(parse("id 99999999999999999999"), CliCommand::SetId(-1));
    assert_eq!(parse("id -"), CliCommand::SetId(-1));
    assert_eq!(parse("id  5"), CliCommand::SetId(-1));
}

#[test]
fn only_the_first_two_tokens_matter() {
    assert_eq!(parse("shock 1 2"), CliCommand::Shock(1));
    assert_eq!(parse("light now"), CliCommand::Light);
}
