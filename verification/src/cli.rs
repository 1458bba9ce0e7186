//! The interactive shell's decision core.
//!
//! The shell itself (reading lines, printing text, persisting settings)
//! lives outside this crate; what lives here is the line grammar — a
//! command word and an optional decimal argument, `-1` standing for one
//! that is absent or unparsable — and what each command decides: how the
//! transmitter state changes, whether it must be persisted, and which
//! packet is sent how many times.

use vstd::prelude::*;

verus! {

use crate::packet::{Action, Channel, Packet};

/// State of the interactive shell.
#[derive(Debug, Clone, Copy, PartialEq, Eq, Structural)]
pub struct State {
    /// Shocker ID.
    pub id: u16,
    /// Channel to transmit on.
    pub channel: Channel,
    /// Intensity of the command.
    pub intensity: u8,
    /// Action to perform.
    pub action: Action,
    /// Whether the last light command switched the light on.
    pub last_light_state: bool,
}

impl State {
    /// Build the startup state from the persisted settings, each `None`
    /// when the store held no value: id defaults to 0, intensity to 1,
    /// action to 1 (shock) and channel to 0. A stored action or channel
    /// byte outside its wire range names no action or channel and is left
    /// out by the caller.
    pub fn new(id: Option<u16>, intensity: Option<u8>, action: Option<u8>, channel: Option<u8>) -> (r:
        State)
        requires
            action matches Some(a) ==> 1 <= a <= 4,
            channel matches Some(c) ==> c <= 2,
        ensures
            r.id == match id {
                Some(v) => v,
                None => 0u16,
            },
            r.intensity == match intensity {
                Some(v) => v,
                None => 1u8,
            },
            r.action == Action::spec_of_value(
                match action {
                    Some(v) => v,
                    None => 1u8,
                } as nat,
            ),
            r.channel == Channel::spec_of_value(
                match channel {
                    Some(v) => v,
                    None => 0u8,
                } as nat,
            ),
            !r.last_light_state,
    {
        let id = match id {
            Some(v) => v,
            None => 0,
        };
        let intensity = match intensity {
            Some(v) => v,
            None => 1,
        };
        let action = Action::from_u8(
            match action {
                Some(v) => v,
                None => 1,
            },
        );
        let channel = Channel::from_u8(
            match channel {
                Some(v) => v,
                None => 0,
            },
        );
        State { id, channel, intensity, action, last_light_state: false }
    }
}

/// A shell command, as parsed by the surrounding shell. An optional numeric
/// argument that was absent arrives as `-1`.
#[derive(Debug, Clone, Copy, PartialEq, Eq, Structural)]
pub enum CliCommand {
    /// `help`: print the help text.
    Help,
    /// `id <n>`: set the transmitter id.
    SetId(i32),
    /// `channel <n>`: set the channel.
    SetChannel(i32),
    /// `intensity <n>`: set the intensity.
    SetIntensity(i32),
    /// `vibrate [n]`: select vibrate, optionally at a new intensity.
    Vibrate(i32),
    /// `shock [n]`: select shock, optionally at a new intensity.
    Shock(i32),
    /// `beep`: select beep.
    Beep,
    /// `light`: transmit a light toggle.
    Light,
    /// `transmit [n]`: transmit the configured command `n` times.
    Transmit(i32),
    /// Anything else.
    Unknown,
}

/// What a processed command asks the shell to do.
#[derive(Debug, Clone, Copy, PartialEq, Eq, Structural)]
pub enum CliOutcome {
    /// Print the help text.
    Help,
    /// The argument was out of range: report it; nothing changed, nothing
    /// is sent.
    Rejected,
    /// The state changed and must be persisted; report the new setting.
    Stored,
    /// Enqueue `copies` encodings of `packet`.
    Send { packet: Packet, copies: u16 },
    /// The command named no known word: report it and print the help text.
    Unknown,
}

/// Whether `c` is an ASCII decimal digit.
pub open spec fn spec_is_digit(c: char) -> bool {
    48 <= c as u32 <= 57
}

/// The value of a string of decimal digits, most significant first.
pub open spec fn spec_digits_val(s: Seq<char>) -> int
    recommends
        forall|j: int| 0 <= j < s.len() ==> spec_is_digit(#[trigger] s[j]),
    decreases s.len(),
{
    if s.len() == 0 {
        0
    } else {
        10 * spec_digits_val(s.drop_last()) + (s.last() as u32 - 48)
    }
}

/// The digits of a number token: what stands after the optional leading
/// sign.
pub open spec fn spec_sign_digits(s: Seq<char>) -> Seq<char> {
    if s.len() > 0 && (s[0] == '+' || s[0] == '-') {
        s.drop_first()
    } else {
        s
    }
}

/// Whether `s` consists of decimal digits only.
pub open spec fn spec_all_digits(s: Seq<char>) -> bool {
    forall|j: int| 0 <= j < s.len() ==> spec_is_digit(#[trigger] s[j])
}

/// What parsing `s` as a 32-bit signed decimal number yields: an optional
/// sign, then one or more digits, and a value within the 32-bit range;
/// anything else parses to nothing.
pub open spec fn spec_parse_i32(s: Seq<char>) -> Option<int> {
    let negative = s.len() > 0 && s[0] == '-';
    let digits = spec_sign_digits(s);
    if digits.len() == 0 || !spec_all_digits(digits) {
        None
    } else {
        let value = if negative {
            -spec_digits_val(digits)
        } else {
            spec_digits_val(digits)
        };
        if -2147483648 <= value <= 2147483647 {
            Some(value)
        } else {
            None
        }
    }
}

/// The argument value of a token: what it parses to, or `-1` when it does
/// not parse.
pub open spec fn spec_arg_value(s: Seq<char>) -> i32 {
    match spec_parse_i32(s) {
        Some(v) => v as i32,
        None => -1i32,
    }
}

/// Parse the token `line[start..end]` as a 32-bit signed decimal number; a
/// token that does not parse is worth `-1`.
fn parse_arg(line: &[char], start: usize, end: usize) -> (r: i32)
    requires
        start <= end <= line@.len(),
    ensures
        r == spec_arg_value(line@.subrange(start as int, end as int)),
{
    let ghost token = line@.subrange(start as int, end as int);
    let mut k = start;
    let mut negative = false;
    if k < end && (line[k] == '+' || line[k] == '-') {
        negative = line[k] == '-';
        k = k + 1;
    }
    let ghost dstart = k as int;
    let ghost digits = line@.subrange(dstart, end as int);
    proof {
        if dstart > start {
            assert(digits =~= token.drop_first());
        } else {
            assert(digits =~= token);
        }
        assert(digits == spec_sign_digits(token));
    }
    if k == end {
        return -1;
    }
    let mut acc: u64 = 0;
    let mut too_big = false;
    while k < end
        invariant
            start <= dstart <= k <= end <= line@.len(),
            token == line@.subrange(start as int, end as int),
            digits == line@.subrange(dstart, end as int),
            digits == spec_sign_digits(token),
            forall|j: int| dstart <= j < k ==> spec_is_digit(#[trigger] line@[j]),
            !too_big ==> acc == spec_digits_val(line@.subrange(dstart, k as int)) && acc
                <= 2147483648,
            too_big ==> spec_digits_val(line@.subrange(dstart, k as int)) > 2147483648,
        decreases end - k,
    {
        let d = line[k] as u32;
        if d < 48 || d > 57 {
            proof {
                let idx = k as int - dstart;
                assert(digits[idx] == line@[dstart + idx]);
                assert(!spec_all_digits(digits)) by {
                    assert(0 <= idx < digits.len() && !spec_is_digit(digits[idx]));
                }
            }
            return -1;
        }
        proof {
            let prev = line@.subrange(dstart, k as int);
            let cur = line@.subrange(dstart, k as int + 1);
            assert(cur.drop_last() =~= prev);
            assert(cur.last() == line@[k as int]);
        }
        if !too_big {
            acc = acc * 10 + (d - 48) as u64;
            if acc > 2147483648 {
                too_big = true;
            }
        }
        k = k + 1;
    }
    proof {
        assert forall|j: int| 0 <= j < digits.len() implies spec_is_digit(#[trigger] digits[j]) by {
            assert(digits[j] == line@[dstart + j]);
        }
        assert(spec_all_digits(digits));
    }
    if too_big {
        return -1;
    }
    if negative {
        if acc == 2147483648 {
            i32::MIN
        } else {
            -(acc as i32)
        }
    } else {
        if acc > 2147483647 {
            return -1;
        }
        acc as i32
    }
}

/// Where the first space of `s` stands, or its length when it has none.
pub open spec fn spec_first_space(s: Seq<char>) -> int
    decreases s.len(),
{
    if s.len() == 0 {
        0
    } else if s[0] == ' ' {
        0
    } else {
        1 + spec_first_space(s.drop_first())
    }
}

/// A position with no space before it, and a space (or the end) at it, is
/// where the first space stands.
proof fn lemma_first_space_at(s: Seq<char>, i: int)
    requires
        0 <= i <= s.len(),
        forall|j: int| 0 <= j < i ==> s[j] != ' ',
        i < s.len() ==> s[i] == ' ',
    ensures
        spec_first_space(s) == i,
    decreases i,
{
    if i > 0 {
        lemma_first_space_at(s.drop_first(), i - 1);
    }
}

/// The command a line names: the first space-separated token picks the
/// command word, the second is its numeric argument, worth `-1` when
/// absent or unparsable.
pub open spec fn spec_parse_line(s: Seq<char>) -> CliCommand {
    let i = spec_first_space(s);
    let word = s.take(i);
    let arg = if i == s.len() {
        -1i32
    } else {
        let rest = s.skip(i + 1);
        spec_arg_value(rest.take(spec_first_space(rest)))
    };
    spec_command_of(word, arg)
}

/// The command a word names, with its argument.
pub open spec fn spec_command_of(word: Seq<char>, arg: i32) -> CliCommand {
    if word == seq!['h', 'e', 'l', 'p'] {
        CliCommand::Help
    } else if word == seq!['i', 'd'] {
        CliCommand::SetId(arg)
    } else if word == seq!['c', 'h', 'a', 'n', 'n', 'e', 'l'] || word == seq!['c'] {
        CliCommand::SetChannel(arg)
    } else if word == seq!['i', 'n', 't', 'e', 'n', 's', 'i', 't', 'y'] || word == seq!['i'] {
        CliCommand::SetIntensity(arg)
    } else if word == seq!['v', 'i', 'b', 'r', 'a', 't', 'e'] || word == seq!['v'] {
        CliCommand::Vibrate(arg)
    } else if word == seq!['s', 'h', 'o', 'c', 'k'] || word == seq!['s'] {
        CliCommand::Shock(arg)
    } else if word == seq!['b', 'e', 'e', 'p'] || word == seq!['b'] {
        CliCommand::Beep
    } else if word == seq!['l', 'i', 'g', 'h', 't'] || word == seq!['l'] {
        CliCommand::Light
    } else if word == seq!['t', 'r', 'a', 'n', 's', 'm', 'i', 't'] || word == seq!['t'] {
        CliCommand::Transmit(arg)
    } else {
        CliCommand::Unknown
    }
}

/// Parse one line into a command: `<word> [<int>]`, separated by single
/// spaces; anything after the second token is ignored.
pub fn parse_line(line: &[char]) -> (r: CliCommand)
    ensures
        r == spec_parse_line(line@),
{
    let n = line.len();
    let mut i: usize = 0;
    while i < n && line[i] != ' '
        invariant
            i <= n,
            n == line@.len(),
            forall|j: int| 0 <= j < i ==> line@[j] != ' ',
        decreases n - i,
    {
        i = i + 1;
    }
    proof {
        lemma_first_space_at(line@, i as int);
    }
    let arg: i32 = if i == n {
        -1
    } else {
        let start = i + 1;
        let mut j = start;
        while j < n && line[j] != ' '
            invariant
                start <= j <= n,
                n == line@.len(),
                forall|m: int| start <= m < j ==> line@[m] != ' ',
            decreases n - j,
        {
            j = j + 1;
        }
        proof {
            let rest = line@.skip(start as int);
            assert forall|m: int| 0 <= m < j - start implies rest[m] != ' ' by {
                assert(rest[m] == line@[start + m]);
            }
            if j < n {
                assert(rest[j - start as int] == line@[j as int]);
            }
            lemma_first_space_at(rest, j - start as int);
            assert(rest.take(j - start as int) =~= line@.subrange(start as int, j as int));
        }
        parse_arg(line, start, j)
    };
    proof {
        assert(spec_parse_line(line@) == spec_command_of(line@.take(i as int), arg));
    }
    command_of(line, i, arg)
}

/// The single-letter command aliases, spelled out for the solver.
proof fn lemma_alias_letters()
    ensures
        seq!['c'][0] == 'c',
        seq!['i'][0] == 'i',
        seq!['v'][0] == 'v',
        seq!['s'][0] == 's',
        seq!['b'][0] == 'b',
        seq!['l'][0] == 'l',
        seq!['t'][0] == 't',
{
}

/// The command named by the first token, `line[0..wlen]`, with its
/// argument.
fn command_of(line: &[char], wlen: usize, arg: i32) -> (r: CliCommand)
    requires
        wlen <= line@.len(),
    ensures
        r == spec_command_of(line@.take(wlen as int), arg),
{
    let ghost word = line@.take(wlen as int);
    proof {
        assert(word.len() == wlen);
        assert forall|j: int| 0 <= j < wlen implies word[j] == line@[j] by {}
        if wlen > 0 {
            assert(word[0] == line@[0]);
        }
        lemma_alias_letters();
    }
    if wlen == 4 && line[0] == 'h' && line[1] == 'e' && line[2] == 'l' && line[3] == 'p' {
        proof {
            assert(word =~= seq!['h', 'e', 'l', 'p']);
        }
        CliCommand::Help
    } else if wlen == 2 && line[0] == 'i' && line[1] == 'd' {
        proof {
            assert(word =~= seq!['i', 'd']);
        }
        CliCommand::SetId(arg)
    } else if wlen == 7 && line[0] == 'c' && line[1] == 'h' && line[2] == 'a' && line[3] == 'n'
        && line[4] == 'n' && line[5] == 'e' && line[6] == 'l' {
        proof {
            assert(word =~= seq!['c', 'h', 'a', 'n', 'n', 'e', 'l']);
        }
        CliCommand::SetChannel(arg)
    } else if wlen == 1 && line[0] == 'c' {
        proof {
            assert(word =~= seq!['c']);
        }
        CliCommand::SetChannel(arg)
    } else if wlen == 9 && line[0] == 'i' && line[1] == 'n' && line[2] == 't' && line[3] == 'e'
        && line[4] == 'n' && line[5] == 's' && line[6] == 'i' && line[7] == 't' && line[8] == 'y' {
        proof {
            assert(word =~= seq!['i', 'n', 't', 'e', 'n', 's', 'i', 't', 'y']);
        }
        CliCommand::SetIntensity(arg)
    } else if wlen == 1 && line[0] == 'i' {
        proof {
            assert(word =~= seq!['i']);
        }
        CliCommand::SetIntensity(arg)
    } else if wlen == 7 && line[0] == 'v' && line[1] == 'i' && line[2] == 'b' && line[3] == 'r'
        && line[4] == 'a' && line[5] == 't' && line[6] == 'e' {
        proof {
            assert(word =~= seq!['v', 'i', 'b', 'r', 'a', 't', 'e']);
        }
        CliCommand::Vibrate(arg)
    } else if wlen == 1 && line[0] == 'v' {
        proof {
            assert(word =~= seq!['v']);
        }
        CliCommand::Vibrate(arg)
    } else if wlen == 5 && line[0] == 's' && line[1] == 'h' && line[2] == 'o' && line[3] == 'c'
        && line[4] == 'k' {
        proof {
            assert(word =~= seq!['s', 'h', 'o', 'c', 'k']);
        }
        CliCommand::Shock(arg)
    } else if wlen == 1 && line[0] == 's' {
        proof {
            assert(word =~= seq!['s']);
        }
        CliCommand::Shock(arg)
    } else if wlen == 4 && line[0] == 'b' && line[1] == 'e' && line[2] == 'e' && line[3] == 'p' {
        proof {
            assert(word =~= seq!['b', 'e', 'e', 'p']);
        }
        CliCommand::Beep
    } else if wlen == 1 && line[0] == 'b' {
        proof {
            assert(word =~= seq!['b']);
        }
        CliCommand::Beep
    } else if wlen == 5 && line[0] == 'l' && line[1] == 'i' && line[2] == 'g' && line[3] == 'h'
        && line[4] == 't' {
        proof {
            assert(word =~= seq!['l', 'i', 'g', 'h', 't']);
        }
        CliCommand::Light
    } else if wlen == 1 && line[0] == 'l' {
        proof {
            assert(word =~= seq!['l']);
        }
        CliCommand::Light
    } else if wlen == 8 && line[0] == 't' && line[1] == 'r' && line[2] == 'a' && line[3] == 'n'
        && line[4] == 's' && line[5] == 'm' && line[6] == 'i' && line[7] == 't' {
        proof {
            assert(word =~= seq!['t', 'r', 'a', 'n', 's', 'm', 'i', 't']);
        }
        CliCommand::Transmit(arg)
    } else if wlen == 1 && line[0] == 't' {
        proof {
            assert(word =~= seq!['t']);
        }
        CliCommand::Transmit(arg)
    } else {
        CliCommand::Unknown
    }
}

/// How one command transforms the shell state, and what it asks the shell
/// to do.
pub open spec fn spec_process(cmd: CliCommand, s: State) -> (State, CliOutcome) {
    match cmd {
        CliCommand::Help => (s, CliOutcome::Help),
        CliCommand::SetId(id) => if id < 0 || id > 65535 {
            (s, CliOutcome::Rejected)
        } else {
            (State { id: id as u16, ..s }, CliOutcome::Stored)
        },
        CliCommand::SetChannel(c) => if c < 0 || c > 2 {
            (s, CliOutcome::Rejected)
        } else {
            (State { channel: Channel::spec_of_value(c as nat), ..s }, CliOutcome::Stored)
        },
        CliCommand::SetIntensity(i) => if i < 0 || i > 99 {
            (s, CliOutcome::Rejected)
        } else {
            (State { intensity: i as u8, ..s }, CliOutcome::Stored)
        },
        CliCommand::Vibrate(i) => if i != -1 && (i < 0 || i > 99) {
            (s, CliOutcome::Rejected)
        } else {
            (
                State {
                    intensity: if i == -1 {
                        s.intensity
                    } else {
                        i as u8
                    },
                    action: Action::Vibrate,
                    ..s
                },
                CliOutcome::Stored,
            )
        },
        CliCommand::Shock(i) => if i != -1 && (i < 0 || i > 99) {
            (s, CliOutcome::Rejected)
        } else {
            (
                State {
                    intensity: if i == -1 {
                        s.intensity
                    } else {
                        i as u8
                    },
                    action: Action::Shock,
                    ..s
                },
                CliOutcome::Stored,
            )
        },
        CliCommand::Beep => (State { action: Action::Beep, ..s }, CliOutcome::Stored),
        CliCommand::Light => (
            State { last_light_state: !s.last_light_state, ..s },
            CliOutcome::Send {
                packet: Packet {
                    id: s.id,
                    channel: s.channel,
                    action: Action::Light,
                    intensity: if s.last_light_state {
                        96u8
                    } else {
                        97u8
                    },
                },
                copies: 4,
            },
        ),
        CliCommand::Transmit(n) => {
            let amount = if n == -1 {
                4
            } else {
                n
            };
            if amount < 0 || amount > 65535 {
                (s, CliOutcome::Rejected)
            } else {
                (
                    s,
                    CliOutcome::Send {
                        packet: Packet {
                            id: s.id,
                            channel: s.channel,
                            action: s.action,
                            intensity: s.intensity,
                        },
                        copies: amount as u16,
                    },
                )
            }
        },
        CliCommand::Unknown => (s, CliOutcome::Unknown),
    }
}

/// Process a command: apply its state change and say what the shell must
/// do. Out-of-range arguments are rejected without touching the state;
/// `light` toggles the remembered light state and sends four copies;
/// `transmit` defaults to four copies.
pub fn process_command(cmd: CliCommand, state: &mut State) -> (r: CliOutcome)
    ensures
        *final(state) == spec_process(cmd, *old(state)).0,
        r == spec_process(cmd, *old(state)).1,
{
    match cmd {
        CliCommand::Help => CliOutcome::Help,
        CliCommand::SetId(id) => {
            if id < 0 || id > 65535 {
                return CliOutcome::Rejected;
            }
            state.id = id as u16;
            CliOutcome::Stored
        },
        CliCommand::SetChannel(c) => {
            if c < 0 || c > 2 {
                return CliOutcome::Rejected;
            }
            state.channel = Channel::from_u8(c as u8);
            CliOutcome::Stored
        },
        CliCommand::SetIntensity(i) => {
            if i < 0 || i > 99 {
                return CliOutcome::Rejected;
            }
            state.intensity = i as u8;
            CliOutcome::Stored
        },
        CliCommand::Vibrate(i) => {
            if i != -1 {
                if i < 0 || i > 99 {
                    return CliOutcome::Rejected;
                }
                state.intensity = i as u8;
            }
            state.action = Action::Vibrate;
            CliOutcome::Stored
        },
        CliCommand::Shock(i) => {
            if i != -1 {
                if i < 0 || i > 99 {
                    return CliOutcome::Rejected;
                }
                state.intensity = i as u8;
            }
            state.action = Action::Shock;
            CliOutcome::Stored
        },
        CliCommand::Beep => {
            state.action = Action::Beep;
            CliOutcome::Stored
        },
        CliCommand::Light => {
            let intensity: u8 = if state.last_light_state {
                96
            } else {
                97
            };
            let packet = Packet {
                id: state.id,
                channel: state.channel,
                action: Action::Light,
                intensity,
            };
            state.last_light_state = !state.last_light_state;
            CliOutcome::Send { packet, copies: 4 }
        },
        CliCommand::Transmit(n) => {
            let amount = if n == -1 {
                4
            } else {
                n
            };
            if amount < 0 || amount > 65535 {
                return CliOutcome::Rejected;
            }
            let packet = Packet {
                id: state.id,
                channel: state.channel,
                action: state.action,
                intensity: state.intensity,
            };
            CliOutcome::Send { packet, copies: amount as u16 }
        },
        CliCommand::Unknown => CliOutcome::Unknown,
    }
}

} // verus!
