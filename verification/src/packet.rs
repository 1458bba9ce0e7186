//! The packet codec.
//!
//! A command record is framed as 43 bits, most-significant bit first:
//! `[id:16][channel:4][action:4][intensity:8][checksum:8][terminator:3 zero
//! bits]`. The checksum is the modulo-256 sum of the four bytes formed by
//! the 32 bits that precede it. Encoding is total; decoding validates the
//! channel nibble, the action nibble and the checksum, in that order.

use vstd::prelude::*;

verus! {

use crate::bits::{val_of, bits_be};
use vstd::arithmetic::power2::pow2;

/// Channels one can send a message on.
#[derive(Debug, Clone, Copy, PartialEq, Eq, Structural)]
pub enum Channel {
    Zero,
    One,
    Two,
}

/// Actions one can perform.
#[derive(Debug, Clone, Copy, PartialEq, Eq, Structural)]
pub enum Action {
    /// Shock the collar.
    Shock,
    /// Vibrate the collar.
    Vibrate,
    /// Beep the collar.
    Beep,
    /// Toggle the light on the collar.
    Light,
}

/// Why a bit string failed to decode.
#[derive(Debug, Clone, Copy, PartialEq, Eq, Structural)]
pub enum DecodeError {
    /// The channel nibble is outside `{0000, 0001, 0010}`.
    InvalidChannel,
    /// The action nibble is outside `{0001, 0010, 0011, 0100}`.
    InvalidAction,
    /// The stored checksum differs from the one recomputed over the payload.
    ChecksumMismatch,
}

impl Channel {
    /// The wire value of this channel.
    pub open spec fn spec_value(self) -> u8 {
        match self {
            Channel::Zero => 0,
            Channel::One => 1,
            Channel::Two => 2,
        }
    }

    /// The channel with the given wire value.
    pub open spec fn spec_of_value(v: nat) -> Channel
        recommends
            v <= 2,
    {
        if v == 0 {
            Channel::Zero
        } else if v == 1 {
            Channel::One
        } else {
            Channel::Two
        }
    }

    /// The wire value of this channel, `0` through `2`.
    pub fn value(self) -> (r: u8)
        ensures
            r == self.spec_value(),
    {
        match self {
            Channel::Zero => 0,
            Channel::One => 1,
            Channel::Two => 2,
        }
    }

    /// The channel with wire value `value`; values `3` and up name no channel.
    pub fn from_u8(value: u8) -> (r: Channel)
        requires
            value <= 2,
        ensures
            r == Channel::spec_of_value(value as nat),
            r.spec_value() == value,
    {
        match value {
            0 => Channel::Zero,
            1 => Channel::One,
            _ => Channel::Two,
        }
    }

    /// This channel's nibble as four bits, most-significant bit first.
    pub fn to_bits(self) -> (r: Vec<bool>)
        ensures
            r@ == bits_be(self.spec_value() as u16, 4),
    {
        let mut bits: Vec<bool> = Vec::new();
        crate::bits::push_bits_be(&mut bits, self.value() as u16, 4);
        bits
    }
}

impl Action {
    /// The wire value of this action.
    pub open spec fn spec_value(self) -> u8 {
        match self {
            Action::Shock => 1,
            Action::Vibrate => 2,
            Action::Beep => 3,
            Action::Light => 4,
        }
    }

    /// The action with the given wire value.
    pub open spec fn spec_of_value(v: nat) -> Action
        recommends
            1 <= v <= 4,
    {
        if v == 1 {
            Action::Shock
        } else if v == 2 {
            Action::Vibrate
        } else if v == 3 {
            Action::Beep
        } else {
            Action::Light
        }
    }

    /// The wire value of this action, `1` through `4`.
    pub fn value(self) -> (r: u8)
        ensures
            r == self.spec_value(),
    {
        match self {
            Action::Shock => 1,
            Action::Vibrate => 2,
            Action::Beep => 3,
            Action::Light => 4,
        }
    }

    /// The action with wire value `value`; `0` and values above `4` name no
    /// action.
    pub fn from_u8(value: u8) -> (r: Action)
        requires
            1 <= value <= 4,
        ensures
            r == Action::spec_of_value(value as nat),
            r.spec_value() == value,
    {
        match value {
            1 => Action::Shock,
            2 => Action::Vibrate,
            3 => Action::Beep,
            _ => Action::Light,
        }
    }

    /// This action's nibble as four bits, most-significant bit first.
    pub fn to_bits(self) -> (r: Vec<bool>)
        ensures
            r@ == bits_be(self.spec_value() as u16, 4),
    {
        let mut bits: Vec<bool> = Vec::new();
        crate::bits::push_bits_be(&mut bits, self.value() as u16, 4);
        bits
    }
}

/// Packet to send to the collar.
#[derive(Debug, Clone, Copy, PartialEq, Eq, Structural)]
pub struct Packet {
    /// ID of the collar.
    pub id: u16,
    /// Channel to send the message on.
    pub channel: Channel,
    /// Action to perform.
    pub action: Action,
    /// Intensity of the action (0-99 by convention; the codec accepts any
    /// byte).
    pub intensity: u8,
}

/// The modulo-256 sum of the four bytes formed by the first 32 bits of
/// `data`.
pub open spec fn spec_checksum(data: Seq<bool>) -> nat
    recommends
        data.len() >= 32,
{
    (val_of(data.subrange(0, 8)) + val_of(data.subrange(8, 16)) + val_of(data.subrange(16, 24))
        + val_of(data.subrange(24, 32))) % 256
}

/// The 32 payload bits of `p`: id, channel nibble, action nibble, intensity.
pub open spec fn spec_payload(p: Packet) -> Seq<bool> {
    bits_be(p.id, 16) + bits_be(p.channel.spec_value() as u16, 4) + bits_be(
        p.action.spec_value() as u16,
        4,
    ) + bits_be(p.intensity as u16, 8)
}

/// The full 43-bit frame of `p`: payload, checksum, three zero terminator
/// bits.
pub open spec fn spec_encode(p: Packet) -> Seq<bool> {
    spec_payload(p) + bits_be(spec_checksum(spec_payload(p)) as u16, 8) + seq![false, false, false]
}

impl Packet {
    /// Checksum the data of the packet: the modulo-256 sum of the four
    /// bytes formed by the first 32 bits, as eight bits, most-significant
    /// bit first.
    pub fn checksum(data: &[bool]) -> (r: Vec<bool>)
        requires
            data@.len() >= 32,
        ensures
            r@ == bits_be(spec_checksum(data@) as u16, 8),
            val_of(r@) == spec_checksum(data@),
    {
        let b0 = crate::bits::read_val(data, 0, 8);
        let b1 = crate::bits::read_val(data, 8, 8);
        let b2 = crate::bits::read_val(data, 16, 8);
        let b3 = crate::bits::read_val(data, 24, 8);
        proof {
            lemma_byte_bound(data@, 0);
            lemma_byte_bound(data@, 8);
            lemma_byte_bound(data@, 16);
            lemma_byte_bound(data@, 24);
        }
        let sum = (b0 + b1 + b2 + b3) % 256;
        let mut bits: Vec<bool> = Vec::new();
        crate::bits::push_bits_be(&mut bits, sum, 8);
        proof {
            vstd::arithmetic::power2::lemma2_to64();
            crate::bits::lemma_val_of_bits_be(sum, 8);
        }
        bits
    }

    /// Convert a packet to its 43-bit frame: payload, checksum, three zero
    /// terminator bits.
    pub fn to_bits(&self) -> (r: Vec<bool>)
        ensures
            r@ == spec_encode(*self),
            r@.len() == 43,
    {
        let mut bits: Vec<bool> = Vec::new();
        crate::bits::push_bits_be(&mut bits, self.id, 16);

        let mut channel = self.channel.to_bits();
        bits.append(&mut channel);

        let mut action = self.action.to_bits();
        bits.append(&mut action);

        crate::bits::push_bits_be(&mut bits, self.intensity as u16, 8);
        assert(bits@ =~= spec_payload(*self));

        let mut checksum = Self::checksum(bits.as_slice());
        bits.append(&mut checksum);

        bits.push(false);
        bits.push(false);
        bits.push(false);
        assert(bits@ =~= spec_encode(*self));
        bits
    }

    /// Decode a 40-bit-or-longer bit string into a packet, validating the
    /// channel nibble, the action nibble and the checksum, in that order.
    /// Bits beyond the first 40 (the wire terminator) are ignored.
    pub fn new(bits: &Vec<bool>) -> (r: Result<Packet, DecodeError>)
        requires
            bits@.len() >= 40,
        ensures
            r == spec_decode(bits@),
    {
        let data = bits.as_slice();
        let id = crate::bits::read_val(data, 0, 16);
        let ch = crate::bits::read_val(data, 16, 4);
        let ac = crate::bits::read_val(data, 20, 4);
        let intensity = crate::bits::read_val(data, 24, 8);
        if ch > 2 {
            return Err(DecodeError::InvalidChannel);
        }
        if ac < 1 || ac > 4 {
            return Err(DecodeError::InvalidAction);
        }
        let stored = crate::bits::read_val(data, 32, 8);
        let b0 = crate::bits::read_val(data, 0, 8);
        let b1 = crate::bits::read_val(data, 8, 8);
        let b2 = crate::bits::read_val(data, 16, 8);
        let b3 = crate::bits::read_val(data, 24, 8);
        proof {
            lemma_byte_bound(bits@, 0);
            lemma_byte_bound(bits@, 8);
            lemma_byte_bound(bits@, 16);
            lemma_byte_bound(bits@, 24);
            let payload = bits@.subrange(0, 32);
            assert(payload.subrange(0, 8) =~= bits@.subrange(0, 8));
            assert(payload.subrange(8, 16) =~= bits@.subrange(8, 16));
            assert(payload.subrange(16, 24) =~= bits@.subrange(16, 24));
            assert(payload.subrange(24, 32) =~= bits@.subrange(24, 32));
        }
        if stored != (b0 + b1 + b2 + b3) % 256 {
            return Err(DecodeError::ChecksumMismatch);
        }
        Ok(
            Packet {
                id,
                channel: Channel::from_u8(ch as u8),
                action: Action::from_u8(ac as u8),
                intensity: intensity as u8,
            },
        )
    }
}

/// An 8-bit slice of a bit string has a value below 256.
proof fn lemma_byte_bound(s: Seq<bool>, start: int)
    requires
        0 <= start,
        start + 8 <= s.len(),
    ensures
        val_of(s.subrange(start, start + 8)) < 256,
{
    crate::bits::lemma_val_of_bound(s.subrange(start, start + 8));
    vstd::arithmetic::power2::lemma2_to64();
}

/// What decoding a bit string yields: the channel nibble, the action nibble
/// and the checksum are checked in that order, and the first check that
/// fails names the error.
pub open spec fn spec_decode(s: Seq<bool>) -> Result<Packet, DecodeError>
    recommends
        s.len() >= 40,
{
    let ch = val_of(s.subrange(16, 20));
    let ac = val_of(s.subrange(20, 24));
    if ch > 2 {
        Err(DecodeError::InvalidChannel)
    } else if ac < 1 || ac > 4 {
        Err(DecodeError::InvalidAction)
    } else if val_of(s.subrange(32, 40)) != spec_checksum(s.subrange(0, 32)) {
        Err(DecodeError::ChecksumMismatch)
    } else {
        Ok(
            Packet {
                id: val_of(s.subrange(0, 16)) as u16,
                channel: Channel::spec_of_value(ch),
                action: Action::spec_of_value(ac),
                intensity: val_of(s.subrange(24, 32)) as u8,
            },
        )
    }
}

/// Round trip: every packet decodes back from its own frame.
pub proof fn lemma_round_trip(p: Packet)
    ensures
        spec_decode(spec_encode(p)) == Ok::<Packet, DecodeError>(p),
{
    let s = spec_encode(p);
    let payload = spec_payload(p);
    let ck = spec_checksum(payload);
    vstd::arithmetic::power2::lemma2_to64();
    assert(s.subrange(0, 16) =~= bits_be(p.id, 16));
    assert(s.subrange(16, 20) =~= bits_be(p.channel.spec_value() as u16, 4));
    assert(s.subrange(20, 24) =~= bits_be(p.action.spec_value() as u16, 4));
    assert(s.subrange(24, 32) =~= bits_be(p.intensity as u16, 8));
    assert(s.subrange(32, 40) =~= bits_be(ck as u16, 8));
    assert(s.subrange(0, 32) =~= payload);
    crate::bits::lemma_val_of_bits_be(p.id, 16);
    crate::bits::lemma_val_of_bits_be(p.channel.spec_value() as u16, 4);
    crate::bits::lemma_val_of_bits_be(p.action.spec_value() as u16, 4);
    crate::bits::lemma_val_of_bits_be(p.intensity as u16, 8);
    crate::bits::lemma_val_of_bits_be(ck as u16, 8);
}

/// Decoding rejects a channel nibble above `0010` with `InvalidChannel`,
/// and, when the channel nibble is in range, an action nibble outside
/// `0001` through `0100` with `InvalidAction`.
pub proof fn lemma_decode_rejects_invalid_nibbles(s: Seq<bool>)
    requires
        s.len() >= 40,
    ensures
        val_of(s.subrange(16, 20)) > 2 ==> spec_decode(s) == Err::<Packet, DecodeError>(
            DecodeError::InvalidChannel,
        ),
        val_of(s.subrange(16, 20)) <= 2 && !(1 <= val_of(s.subrange(20, 24)) <= 4)
            ==> spec_decode(s) == Err::<Packet, DecodeError>(DecodeError::InvalidAction),
{
}

/// `2^e` lies between 1 and 128 when `e` is at most 7.
proof fn lemma_delta_bound(e: int)
    requires
        0 <= e <= 7,
    ensures
        1 <= pow2(e as nat) <= 128,
{
    vstd::arithmetic::power2::lemma_pow2_pos(e as nat);
    vstd::arithmetic::power2::lemma2_to64();
    if e < 7 {
        vstd::arithmetic::power2::lemma_pow2_strictly_increases(e as nat, 7);
    }
}

/// Numbers that differ by less than the modulus have different residues.
proof fn lemma_mod256_ne(a: int, b: int)
    requires
        a >= 0,
        b >= 0,
        a != b,
        -256 < a - b < 256,
    ensures
        a % 256 != b % 256,
{
    vstd::arithmetic::div_mod::lemma_fundamental_div_mod(a, 256);
    vstd::arithmetic::div_mod::lemma_fundamental_div_mod(b, 256);
    if a % 256 == b % 256 {
        let qa = a / 256;
        let qb = b / 256;
        assert(a - b == 256 * qa - 256 * qb);
        assert(false);
    }
}

/// Flipping any one bit of a 32-bit payload changes its checksum: the
/// flipped byte moves by a power of two below the modulus, so the modulo-256
/// sum cannot come back around to its old value.
proof fn lemma_checksum_flip(d: Seq<bool>, i: int)
    requires
        d.len() == 32,
        0 <= i < 32,
    ensures
        spec_checksum(d.update(i, !d[i])) != spec_checksum(d),
{
    let d2 = d.update(i, !d[i]);
    let v0 = val_of(d.subrange(0, 8));
    let v1 = val_of(d.subrange(8, 16));
    let v2 = val_of(d.subrange(16, 24));
    let v3 = val_of(d.subrange(24, 32));
    let w0 = val_of(d2.subrange(0, 8));
    let w1 = val_of(d2.subrange(8, 16));
    let w2 = val_of(d2.subrange(16, 24));
    let w3 = val_of(d2.subrange(24, 32));
    if i < 8 {
        assert(d2.subrange(8, 16) =~= d.subrange(8, 16));
        assert(d2.subrange(16, 24) =~= d.subrange(16, 24));
        assert(d2.subrange(24, 32) =~= d.subrange(24, 32));
        assert(d2.subrange(0, 8) =~= d.subrange(0, 8).update(i, !d.subrange(0, 8)[i]));
        crate::bits::lemma_val_of_update(d.subrange(0, 8), i);
        lemma_delta_bound(7 - i);
        lemma_mod256_ne((v0 + v1 + v2 + v3) as int, (w0 + w1 + w2 + w3) as int);
    } else if i < 16 {
        assert(d2.subrange(0, 8) =~= d.subrange(0, 8));
        assert(d2.subrange(16, 24) =~= d.subrange(16, 24));
        assert(d2.subrange(24, 32) =~= d.subrange(24, 32));
        assert(d2.subrange(8, 16) =~= d.subrange(8, 16).update(i - 8, !d.subrange(8, 16)[i - 8]));
        crate::bits::lemma_val_of_update(d.subrange(8, 16), i - 8);
        lemma_delta_bound(15 - i);
        lemma_mod256_ne((v0 + v1 + v2 + v3) as int, (w0 + w1 + w2 + w3) as int);
    } else if i < 24 {
        assert(d2.subrange(0, 8) =~= d.subrange(0, 8));
        assert(d2.subrange(8, 16) =~= d.subrange(8, 16));
        assert(d2.subrange(24, 32) =~= d.subrange(24, 32));
        assert(d2.subrange(16, 24) =~= d.subrange(16, 24).update(
            i - 16,
            !d.subrange(16, 24)[i - 16],
        ));
        crate::bits::lemma_val_of_update(d.subrange(16, 24), i - 16);
        lemma_delta_bound(23 - i);
        lemma_mod256_ne((v0 + v1 + v2 + v3) as int, (w0 + w1 + w2 + w3) as int);
    } else {
        assert(d2.subrange(0, 8) =~= d.subrange(0, 8));
        assert(d2.subrange(8, 16) =~= d.subrange(8, 16));
        assert(d2.subrange(16, 24) =~= d.subrange(16, 24));
        assert(d2.subrange(24, 32) =~= d.subrange(24, 32).update(
            i - 24,
            !d.subrange(24, 32)[i - 24],
        ));
        crate::bits::lemma_val_of_update(d.subrange(24, 32), i - 24);
        lemma_delta_bound(31 - i);
        lemma_mod256_ne((v0 + v1 + v2 + v3) as int, (w0 + w1 + w2 + w3) as int);
    }
}

/// Checksum sensitivity: flipping any single bit among the first 32 bits of
/// a frame makes decoding fail; when the flipped frame's channel and action
/// nibbles still name a channel and an action, the failure is
/// `ChecksumMismatch`.
pub proof fn lemma_single_bit_flip_detected(p: Packet, i: int)
    requires
        0 <= i < 32,
    ensures
        ({
            let s = spec_encode(p);
            let f = s.update(i, !s[i]);
            &&& spec_decode(f) is Err
            &&& (val_of(f.subrange(16, 20)) <= 2 && 1 <= val_of(f.subrange(20, 24)) <= 4
                ==> spec_decode(f) == Err::<Packet, DecodeError>(DecodeError::ChecksumMismatch))
        }),
{
    let s = spec_encode(p);
    let f = s.update(i, !s[i]);
    let payload = spec_payload(p);
    let ck = spec_checksum(payload);
    vstd::arithmetic::power2::lemma2_to64();
    assert(s.subrange(0, 32) =~= payload);
    assert(f.subrange(32, 40) =~= bits_be(ck as u16, 8));
    crate::bits::lemma_val_of_bits_be(ck as u16, 8);
    assert(f.subrange(0, 32) =~= payload.update(i, !payload[i]));
    lemma_checksum_flip(payload, i);
}

} // verus!
