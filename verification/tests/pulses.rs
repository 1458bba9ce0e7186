use collar_tx::pulses::{Pulse, Pulses};

#[test]
fn pulse_set_holds_the_protocol_constants() {
    let pulses = Pulses::new();
    assert_eq!(pulses.sync_high, Pulse { high: true, micros: 1400 });
    assert_eq!(pulses.sync_low, Pulse { high: false, micros: 800 });
    assert_eq!(pulses.one_high, Pulse { high: true, micros: 800 });
    assert_eq!(pulses.one_low, Pulse { high: false, micros: 300 });
    assert_eq!(pulses.zero_high, Pulse { high: true, micros: 300 });
    assert_eq!(pulses.zero_low, Pulse { high: false, micros: 800 });
}

#[test]
fn train_is_sync_then_one_pair_per_bit() {
    let pulses = Pulses::new();
    let train = pulses.encode_bits(&vec![true, false, true]);
    assert_eq!(
        train,
        vec![
            (pulses.sync_high, pulses.sync_low),
            (pulses.one_high, pulses.one_low),
            (pulses.zero_high, pulses.zero_low),
            (pulses.one_high, pulses.one_low),
        ]
    );
}

#[test]
fn empty_frame_still_gets_a_sync_marker() {
    let pulses = Pulses::new();
    let train = pulses.encode_bits(&Vec::new());
    assert_eq!(train, vec![(pulses.sync_high, pulses.sync_low)]);
}

#[test]
fn sync_marker_matches_no_data_pair() {
    let pulses = Pulses::new();
    let sync = (pulses.sync_high, pulses.sync_low);
    assert_ne!(sync, (pulses.one_high, pulses.one_low));
    assert_ne!(sync, (pulses.zero_high, pulses.zero_low));
}

#[test]
fn full_frame_train_has_44_pairs() {
    let pulses = Pulses::new();
    let packet = collar_tx::packet::Packet {
        id: 33,
        channel: collar_tx::packet::Channel::Two,
        action: collar_tx::packet::Action::Beep,
        intensity: 9,
    };
    let train = pulses.encode_bits(&packet.to_bits());
    assert_eq!(train.len(), 44);
}
