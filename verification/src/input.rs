//! Decoding raw terminal input, one byte at a time, into commands.

use vstd::prelude::*;

verus! {

/// What the user can ask for with a key.
#[derive(Clone, Copy, Debug, PartialEq, Eq, Structural)]
pub enum Command {
    Quit,
    ToggleBlend,
    ToggleOsd,
    FpsUp,
    FpsDown,
    NextFile,
    PrevFile,
    /// Open the file with this index.
    OpenFile(u8),
    LastFile,
    /// Go back in time, by the small step if the flag is set.
    TimeBack(bool),
    /// Go forward in time, by the small step if the flag is set.
    TimeForward(bool),
    RealTime,
    ToggleFastForward,
    ColumnSwap,
    Up,
    Down,
    Left,
    Right,
    /// To the left edge.
    Home,
    /// To the right edge.
    End,
    /// To the upper edge.
    Top,
    /// To the lower edge.
    Bottom,
    PageUp,
    PageDown,
    PageLeft,
    PageRight,
}

/// Where the decoder stands inside an escape sequence. The states after
/// `ESC [` are named by the parameter bytes read so far.
#[derive(Clone, Copy, Debug, PartialEq, Eq, Structural)]
pub enum DecoderState {
    /// Outside any sequence.
    Ground,
    /// After `ESC`.
    Escape,
    /// After `ESC [`.
    Csi,
    /// After `ESC [ 1`.
    One,
    /// After `ESC [ 1 ;`.
    OneSemi,
    /// After `ESC [ 1 ; 5`.
    OneSemiFive,
    /// After `ESC [ 5`.
    Five,
    /// After `ESC [ 5 ;`.
    FiveSemi,
    /// After `ESC [ 5 ; 3`.
    FiveSemiThree,
    /// After `ESC [ 6`.
    Six,
    /// After `ESC [ 6 ;`.
    SixSemi,
    /// After `ESC [ 6 ; 3`.
    SixSemiThree,
    /// After `ESC [` and parameter bytes that no known key starts with.
    Unknown,
}

/// What one step of decoding gives.
#[derive(Clone, Copy, Debug, PartialEq, Eq, Structural)]
pub enum Decoded {
    /// The byte was taken and gives no command.
    Nothing,
    /// A key is complete.
    Key(Command),
    /// No byte was there: reading stops until the next frame.
    Idle,
}

/// The command of a byte outside any sequence.
pub open spec fn plain_command(byte: u8) -> Option<Command> {
    if byte == 'q' as u8 {
        Some(Command::Quit)
    } else if byte == 'b' as u8 {
        Some(Command::ToggleBlend)
    } else if byte == 'o' as u8 {
        Some(Command::ToggleOsd)
    } else if byte == '+' as u8 {
        Some(Command::FpsUp)
    } else if byte == '-' as u8 {
        Some(Command::FpsDown)
    } else if byte == 'n' as u8 {
        Some(Command::NextFile)
    } else if byte == 'p' as u8 {
        Some(Command::PrevFile)
    } else if byte == 'a' as u8 {
        Some(Command::TimeBack(false))
    } else if byte == 'A' as u8 {
        Some(Command::TimeBack(true))
    } else if byte == 'd' as u8 {
        Some(Command::TimeForward(false))
    } else if byte == 'D' as u8 {
        Some(Command::TimeForward(true))
    } else if byte == 's' as u8 {
        Some(Command::RealTime)
    } else if byte == 'w' as u8 {
        Some(Command::ToggleFastForward)
    } else if byte == 'i' as u8 {
        Some(Command::ColumnSwap)
    } else if byte == '0' as u8 {
        Some(Command::LastFile)
    } else if '1' as u8 <= byte <= '9' as u8 {
        Some(Command::OpenFile((byte - '1' as u8) as u8))
    } else {
        None
    }
}

/// The key that the final byte `byte` completes after `ESC [` and the
/// parameter bytes that `state` stands for.
pub open spec fn csi_command(state: DecoderState, byte: u8) -> Option<Command> {
    match state {
        DecoderState::Csi => if byte == 'A' as u8 {
            Some(Command::Up)
        } else if byte == 'B' as u8 {
            Some(Command::Down)
        } else if byte == 'C' as u8 {
            Some(Command::Right)
        } else if byte == 'D' as u8 {
            Some(Command::Left)
        } else if byte == 'H' as u8 {
            Some(Command::Home)
        } else if byte == 'F' as u8 {
            Some(Command::End)
        } else {
            None
        },
        DecoderState::OneSemiFive => if byte == 'H' as u8 {
            Some(Command::Top)
        } else if byte == 'F' as u8 {
            Some(Command::Bottom)
        } else {
            None
        },
        DecoderState::Five => if byte == '~' as u8 {
            Some(Command::PageUp)
        } else {
            None
        },
        DecoderState::FiveSemiThree => if byte == '~' as u8 {
            Some(Command::PageLeft)
        } else {
            None
        },
        DecoderState::Six => if byte == '~' as u8 {
            Some(Command::PageDown)
        } else {
            None
        },
        DecoderState::SixSemiThree => if byte == '~' as u8 {
            Some(Command::PageRight)
        } else {
            None
        },
        _ => None,
    }
}

/// A byte that belongs to the parameters of a sequence: a digit or `;`.
pub open spec fn is_parameter(byte: u8) -> bool {
    '0' as u8 <= byte <= '9' as u8 || byte == ';' as u8
}

/// The state after the parameter byte `byte` in the state `state`, which is
/// one of those after `ESC [`.
pub open spec fn after_parameter(state: DecoderState, byte: u8) -> DecoderState {
    match state {
        DecoderState::Csi => if byte == '1' as u8 {
            DecoderState::One
        } else if byte == '5' as u8 {
            DecoderState::Five
        } else if byte == '6' as u8 {
            DecoderState::Six
        } else {
            DecoderState::Unknown
        },
        DecoderState::One => if byte == ';' as u8 {
            DecoderState::OneSemi
        } else {
            DecoderState::Unknown
        },
        DecoderState::OneSemi => if byte == '5' as u8 {
            DecoderState::OneSemiFive
        } else {
            DecoderState::Unknown
        },
        DecoderState::Five => if byte == ';' as u8 {
            DecoderState::FiveSemi
        } else {
            DecoderState::Unknown
        },
        DecoderState::FiveSemi => if byte == '3' as u8 {
            DecoderState::FiveSemiThree
        } else {
            DecoderState::Unknown
        },
        DecoderState::Six => if byte == ';' as u8 {
            DecoderState::SixSemi
        } else {
            DecoderState::Unknown
        },
        DecoderState::SixSemi => if byte == '3' as u8 {
            DecoderState::SixSemiThree
        } else {
            DecoderState::Unknown
        },
        _ => DecoderState::Unknown,
    }
}

/// One step of decoding: the next state and what the step gives.
///
/// Without a byte, a lone `ESC` means quit; in any other state reading stops
/// and a sequence that was begun is dropped. Outside a sequence a byte is a
/// command, the start of a sequence, or nothing. After `ESC`, a second `ESC`
/// means quit, `[` opens a sequence, and any other byte is dropped. After
/// `ESC [`, parameter bytes are collected until another byte ends the
/// sequence, as a key or as nothing.
pub open spec fn decode_step(state: DecoderState, byte: Option<u8>) -> (DecoderState, Decoded) {
    match byte {
        None => match state {
            DecoderState::Escape => (DecoderState::Ground, Decoded::Key(Command::Quit)),
            _ => (DecoderState::Ground, Decoded::Idle),
        },
        Some(b) => match state {
            DecoderState::Ground => if b == 0x1b {
                (DecoderState::Escape, Decoded::Nothing)
            } else {
                match plain_command(b) {
                    Some(c) => (DecoderState::Ground, Decoded::Key(c)),
                    None => (DecoderState::Ground, Decoded::Nothing),
                }
            },
            DecoderState::Escape => if b == 0x1b {
                (DecoderState::Ground, Decoded::Key(Command::Quit))
            } else if b == '[' as u8 {
                (DecoderState::Csi, Decoded::Nothing)
            } else {
                (DecoderState::Ground, Decoded::Nothing)
            },
            _ => match csi_command(state, b) {
                Some(c) => (DecoderState::Ground, Decoded::Key(c)),
                None => if is_parameter(b) {
                    (after_parameter(state, b), Decoded::Nothing)
                } else {
                    (DecoderState::Ground, Decoded::Nothing)
                },
            },
        },
    }
}

fn plain(byte: u8) -> (c: Option<Command>)
    ensures
        c == plain_command(byte),
{
    match byte {
        113 => Some(Command::Quit),
        98 => Some(Command::ToggleBlend),
        111 => Some(Command::ToggleOsd),
        43 => Some(Command::FpsUp),
        45 => Some(Command::FpsDown),
        110 => Some(Command::NextFile),
        112 => Some(Command::PrevFile),
        97 => Some(Command::TimeBack(false)),
        65 => Some(Command::TimeBack(true)),
        100 => Some(Command::TimeForward(false)),
        68 => Some(Command::TimeForward(true)),
        115 => Some(Command::RealTime),
        119 => Some(Command::ToggleFastForward),
        105 => Some(Command::ColumnSwap),
        48 => Some(Command::LastFile),
        49..=57 => Some(Command::OpenFile(byte - 49)),
        _ => None,
    }
}

fn csi(state: DecoderState, byte: u8) -> (c: Option<Command>)
    ensures
        c == csi_command(state, byte),
{
    match (state, byte) {
        (DecoderState::Csi, 65) => Some(Command::Up),
        (DecoderState::Csi, 66) => Some(Command::Down),
        (DecoderState::Csi, 67) => Some(Command::Right),
        (DecoderState::Csi, 68) => Some(Command::Left),
        (DecoderState::Csi, 72) => Some(Command::Home),
        (DecoderState::Csi, 70) => Some(Command::End),
        (DecoderState::OneSemiFive, 72) => Some(Command::Top),
        (DecoderState::OneSemiFive, 70) => Some(Command::Bottom),
        (DecoderState::Five, 126) => Some(Command::PageUp),
        (DecoderState::FiveSemiThree, 126) => Some(Command::PageLeft),
        (DecoderState::Six, 126) => Some(Command::PageDown),
        (DecoderState::SixSemiThree, 126) => Some(Command::PageRight),
        _ => None,
    }
}

fn parameter(state: DecoderState, byte: u8) -> (next: DecoderState)
    ensures
        next == after_parameter(state, byte),
{
    match (state, byte) {
        (DecoderState::Csi, 49) => DecoderState::One,
        (DecoderState::Csi, 53) => DecoderState::Five,
        (DecoderState::Csi, 54) => DecoderState::Six,
        (DecoderState::One, 59) => DecoderState::OneSemi,
        (DecoderState::OneSemi, 53) => DecoderState::OneSemiFive,
        (DecoderState::Five, 59) => DecoderState::FiveSemi,
        (DecoderState::FiveSemi, 51) => DecoderState::FiveSemiThree,
        (DecoderState::Six, 59) => DecoderState::SixSemi,
        (DecoderState::SixSemi, 51) => DecoderState::SixSemiThree,
        _ => DecoderState::Unknown,
    }
}

/// Takes one byte of input, or the news that none is there, and gives the
/// next state and what was decoded.
pub fn decode(state: DecoderState, byte: Option<u8>) -> (r: (DecoderState, Decoded))
    ensures
        r == decode_step(state, byte),
{
    match byte {
        None => match state {
            DecoderState::Escape => (DecoderState::Ground, Decoded::Key(Command::Quit)),
            _ => (DecoderState::Ground, Decoded::Idle),
        },
        Some(b) => match state {
            DecoderState::Ground => {
                if b == 0x1b {
                    (DecoderState::Escape, Decoded::Nothing)
                } else {
                    match plain(b) {
                        Some(c) => (DecoderState::Ground, Decoded::Key(c)),
                        None => (DecoderState::Ground, Decoded::Nothing),
                    }
                }
            },
            DecoderState::Escape => {
                if b == 0x1b {
                    (DecoderState::Ground, Decoded::Key(Command::Quit))
                } else if b == 91 {
                    (DecoderState::Csi, Decoded::Nothing)
                } else {
                    (DecoderState::Ground, Decoded::Nothing)
                }
            },
            _ => match csi(state, b) {
                Some(c) => (DecoderState::Ground, Decoded::Key(c)),
                None => {
                    if (48 <= b && b <= 57) || b == 59 {
                        (parameter(state, b), Decoded::Nothing)
                    } else {
                        (DecoderState::Ground, Decoded::Nothing)
                    }
                },
            },
        },
    }
}

/// The state after a run of bytes, and the commands decoded on the way.
pub open spec fn decode_run(state: DecoderState, bytes: Seq<u8>) -> (DecoderState, Seq<Command>)
    decreases bytes.len(),
{
    if bytes.len() == 0 {
        (state, Seq::empty())
    } else {
        let (before, commands) = decode_run(state, bytes.drop_last());
        let (after, decoded) = decode_step(before, Some(bytes.last()));
        match decoded {
            Decoded::Key(c) => (after, commands.push(c)),
            _ => (after, commands),
        }
    }
}

/// Decodes all of `bytes`, starting in `state`, and gives the state
/// afterwards and the commands in their order.
pub fn decode_all(state: DecoderState, bytes: &Vec<u8>) -> (r: (DecoderState, Vec<Command>))
    ensures
        r.0 == decode_run(state, bytes@).0,
        r.1@ == decode_run(state, bytes@).1,
{
    let mut current = state;
    let mut commands: Vec<Command> = Vec::new();
    let mut i: usize = 0;
    assert(bytes@.take(0) =~= Seq::<u8>::empty());
    while i < bytes.len()
        invariant
            i <= bytes@.len(),
            current == decode_run(state, bytes@.take(i as int)).0,
            commands@ == decode_run(state, bytes@.take(i as int)).1,
        decreases bytes@.len() - i,
    {
        proof {
            assert(bytes@.take(i + 1).drop_last() =~= bytes@.take(i as int));
            assert(bytes@.take(i + 1).last() == bytes@[i as int]);
        }
        let (next, decoded) = decode(current, Some(bytes[i]));
        current = next;
        match decoded {
            Decoded::Key(c) => {
                commands.push(c);
            },
            _ => {},
        }
        i += 1;
    }
    assert(bytes@.take(bytes@.len() as int) =~= bytes@);
    (current, commands)
}

/// Every step ends outside a sequence or inside one, never in a state that
/// waits for something other than a byte: after a key the decoder is outside
/// any sequence, and without a byte it always returns there.
pub proof fn lemma_decode_returns_to_ground(state: DecoderState, byte: Option<u8>)
    ensures
        decode_step(state, byte).1 is Key ==> decode_step(state, byte).0 == DecoderState::Ground,
        byte is None ==> decode_step(state, byte).0 == DecoderState::Ground,
        byte is None ==> decode_step(state, byte).1 != Decoded::Nothing,
        byte is Some ==> decode_step(state, byte).1 != Decoded::Idle,
{
}

} // verus!
