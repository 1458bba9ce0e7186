use collar_tx::packet::{Action, Channel, DecodeError, Packet};

/// Turn a string of '0'/'1' characters into bits, ignoring spaces.
fn string_to_vec(s: &str) -> Vec<bool> {
    s.chars().filter(|c| *c != ' ').map(|c| c == '1').collect()
}

/// Test encoding and decoding of packets
#[test]
fn test_packet() {
    let packet = Packet {
        id: 0b1111010101010000,
        channel: Channel::Zero,
        action: Action::Shock,
        intensity: 0b10101010,
    };
    let bits = packet.to_bits();
    let packet2 = Packet::new(&bits).unwrap();
    let bits2 = packet2.to_bits();
    assert_eq!(bits, bits2);
}

/// Test decoding of packets
#[test]
fn decodes_known_packet() {
    let decoded = string_to_vec("00101100 10111110 00000010 00110010 00011110 000");
    let _ = Packet::new(&decoded);
}

/// Test reencoding of decoded packets
#[test]
fn reencodes_known_packet() {
    let decoded = string_to_vec("00101100 10111110 00000010 00110010 00011110 000");
    let packet = Packet::new(&decoded).unwrap();
    let reencoded = packet.to_bits();
    assert_eq!(decoded, reencoded);
}

/// Test decoding of packets against known values
#[test]
fn decodes_known_packet_to_the_expected_value() {
    let decoded = string_to_vec("00101100 10111110 00000010 00110010 00011110 000");
    let packet = Packet {
        id: 0b0010110010111110,
        channel: Channel::Zero,
        action: Action::Vibrate,
        intensity: 0b00110010,
    };
    let generated_packet = packet.to_bits();
    assert_eq!(decoded, generated_packet);
}

#[test]
fn known_packet_decodes_to_expected_fields() {
    let decoded = string_to_vec("00101100 10111110 00000010 00110010 00011110 000");
    let packet = Packet::new(&decoded).unwrap();
    assert_eq!(packet.id, 0b0010110010111110);
    assert_eq!(packet.channel, Channel::Zero);
    assert_eq!(packet.action, Action::Vibrate);
    assert_eq!(packet.intensity, 0b00110010);
}

#[test]
fn frame_layout_is_43_bits_with_zero_terminator() {
    let packet = Packet { id: 1, channel: Channel::One, action: Action::Beep, intensity: 99 };
    let bits = packet.to_bits();
    assert_eq!(bits.len(), 43);
    assert_eq!(&bits[40..], &[false, false, false]);
}

#[test]
fn round_trip_assorted_packets() {
    let channels = [Channel::Zero, Channel::One, Channel::Two];
    let actions = [Action::Shock, Action::Vibrate, Action::Beep, Action::Light];
    for &channel in &channels {
        for &action in &actions {
            for &(id, intensity) in &[(0u16, 0u8), (65535, 255), (12345, 99), (1, 1)] {
                let packet = Packet { id, channel, action, intensity };
                let decoded = Packet::new(&packet.to_bits()).unwrap();
                assert_eq!(decoded, packet);
            }
        }
    }
}

#[test]
fn checksum_of_known_payload() {
    // Payload bytes 44, 190, 2, 50 sum to 286; 286 mod 256 is 30.
    let payload = string_to_vec("00101100 10111110 00000010 00110010");
    let checksum = Packet::checksum(&payload);
    assert_eq!(checksum, string_to_vec("00011110"));
}

#[test]
fn checksum_wraps_modulo_256() {
    // All-ones payload: 255 * 4 = 1020; 1020 mod 256 is 252.
    let payload = vec![true; 32];
    let checksum = Packet::checksum(&payload);
    assert_eq!(checksum, string_to_vec("11111100"));
}

#[test]
fn rejects_invalid_channel_nibbles() {
    // Every channel nibble from 0011 through 1111 is invalid, whatever the
    // rest of the frame holds.
    for nibble in 3u8..16 {
        let mut bits = Packet {
            id: 500,
            channel: Channel::Zero,
            action: Action::Vibrate,
            intensity: 40,
        }
        .to_bits();
        for k in 0..4 {
            bits[16 + k] = (nibble >> (3 - k)) & 1 == 1;
        }
        assert_eq!(Packet::new(&bits), Err(DecodeError::InvalidChannel));
    }
}

#[test]
fn rejects_invalid_action_nibbles() {
    for nibble in [0u8, 5, 6, 7, 8, 9, 10, 11, 12, 13, 14, 15] {
        let mut bits = Packet {
            id: 500,
            channel: Channel::Two,
            action: Action::Shock,
            intensity: 40,
        }
        .to_bits();
        for k in 0..4 {
            bits[20 + k] = (nibble >> (3 - k)) & 1 == 1;
        }
        assert_eq!(Packet::new(&bits), Err(DecodeError::InvalidAction));
    }
}

#[test]
fn rejects_corrupted_checksum() {
    let mut bits = Packet {
        id: 2026,
        channel: Channel::One,
        action: Action::Beep,
        intensity: 77,
    }
    .to_bits();
    // Corrupt one stored checksum bit; the payload still parses.
    bits[39] = !bits[39];
    assert_eq!(Packet::new(&bits), Err(DecodeError::ChecksumMismatch));
}

#[test]
fn detects_every_single_bit_flip_in_the_payload() {
    let packet = Packet { id: 0xA5C3, channel: Channel::One, action: Action::Light, intensity: 66 };
    for i in 0..32 {
        let mut bits = packet.to_bits();
        bits[i] = !bits[i];
        assert!(Packet::new(&bits).is_err(), "flip at bit {} went undetected", i);
    }
}

#[test]
fn channel_values_round_trip() {
    for v in 0u8..3 {
        assert_eq!(Channel::from_u8(v).value(), v);
    }
}

#[test]
fn action_values_round_trip() {
    for v in 1u8..5 {
        assert_eq!(Action::from_u8(v).value(), v);
    }
}

#[test]
fn nibble_bits_follow_wire_values() {
    assert_eq!(Channel::Zero.to_bits(), vec![false, false, false, false]);
    assert_eq!(Channel::One.to_bits(), vec![false, false, false, true]);
    assert_eq!(Channel::Two.to_bits(), vec![false, false, true, false]);
    assert_eq!(Action::Shock.to_bits(), vec![false, false, false, true]);
    assert_eq!(Action::Vibrate.to_bits(), vec![false, false, true, false]);
    assert_eq!(Action::Beep.to_bits(), vec![false, false, true, true]);
    assert_eq!(Action::Light.to_bits(), vec![false, true, false, false]);
}
