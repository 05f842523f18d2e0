//! Byte-level decoder for the instrument's SLIP-framed serial protocol.

use vstd::prelude::*;
use vstd::string::*;

verus! {

/// Frame terminator.
pub const END: u8 = 0xC0;

/// Escape marker.
pub const ESC: u8 = 0xDB;

/// Escape code that stands for a literal `END` byte.
pub const ESC_END: u8 = 0xDC;

/// Escape code that stands for a literal `ESC` byte.
pub const ESC_ESC: u8 = 0xDD;

/// SLIP decode errors.
#[derive(Debug, Clone, Copy, PartialEq, Eq, Structural)]
pub enum SlipError {
    UnrecognizedEscapeByte(u8),
}

/// The mathematical state of a decoder: the bytes accumulated so far and
/// whether the previous byte was an escape marker.
pub struct DecoderState {
    pub buffer: Seq<u8>,
    pub escaped: bool,
}

/// What one step of decoding yields.
pub enum StepOutcome {
    /// Still accumulating.
    Pending,
    /// A complete, non-empty packet.
    Packet(Seq<u8>),
    /// The byte after an escape marker was not an escape code.
    Failed(SlipError),
}

/// The decoder's transition function: state and byte to next state and outcome.
pub open spec fn slip_step(state: DecoderState, byte: u8) -> (DecoderState, StepOutcome) {
    if state.escaped {
        if byte == ESC_END {
            (DecoderState { buffer: state.buffer.push(END), escaped: false }, StepOutcome::Pending)
        } else if byte == ESC_ESC {
            (DecoderState { buffer: state.buffer.push(ESC), escaped: false }, StepOutcome::Pending)
        } else {
            (
                DecoderState { buffer: state.buffer, escaped: false },
                StepOutcome::Failed(SlipError::UnrecognizedEscapeByte(byte)),
            )
        }
    } else if byte == ESC {
        (DecoderState { buffer: state.buffer, escaped: true }, StepOutcome::Pending)
    } else if byte == END {
        if state.buffer.len() > 0 {
            (
                DecoderState { buffer: Seq::empty(), escaped: false },
                StepOutcome::Packet(state.buffer),
            )
        } else {
            (state, StepOutcome::Pending)
        }
    } else {
        (DecoderState { buffer: state.buffer.push(byte), escaped: false }, StepOutcome::Pending)
    }
}

/// The state a caller puts the decoder in after an error.
pub open spec fn reset_state() -> DecoderState {
    DecoderState { buffer: Seq::empty(), escaped: false }
}

/// What feeding a run of bytes yields: the state afterwards, the outcome, and
/// how many bytes were taken. Feeding stops after the first byte that
/// completes a packet or fails; a failure resets the decoder.
pub open spec fn slip_run(state: DecoderState, bytes: Seq<u8>) -> (DecoderState, StepOutcome, nat)
    decreases bytes.len(),
{
    if bytes.len() == 0 {
        (state, StepOutcome::Pending, 0)
    } else {
        let (next, outcome) = slip_step(state, bytes[0]);
        match outcome {
            StepOutcome::Pending => {
                let rest = slip_run(next, bytes.drop_first());
                (rest.0, rest.1, rest.2 + 1)
            },
            StepOutcome::Packet(packet) => (next, outcome, 1),
            StepOutcome::Failed(error) => (reset_state(), outcome, 1),
        }
    }
}

/// The outcome of feeding a run of bytes to a decoder.
#[derive(Debug, PartialEq, Eq)]
pub enum FeedOutcome {
    /// Every byte was taken and no packet is complete yet.
    Pending,
    /// A packet was completed.
    Packet(Vec<u8>),
    /// A protocol error was met; the decoder has been reset.
    Failed(SlipError),
}

impl FeedOutcome {
    /// The mathematical value of the outcome.
    pub open spec fn view(&self) -> StepOutcome {
        match *self {
            FeedOutcome::Pending => StepOutcome::Pending,
            FeedOutcome::Packet(packet) => StepOutcome::Packet(packet@),
            FeedOutcome::Failed(error) => StepOutcome::Failed(error),
        }
    }
}

/// The view of what `process_byte` returns.
pub open spec fn outcome_of(result: Result<Option<Vec<u8>>, SlipError>) -> StepOutcome {
    match result {
        Ok(None) => StepOutcome::Pending,
        Ok(Some(packet)) => StepOutcome::Packet(packet@),
        Err(error) => StepOutcome::Failed(error),
    }
}

/// A simple SLIP decoder that consumes incoming bytes and yields complete commands.
pub struct SlipDecoder {
    pub buffer: Vec<u8>,
    pub escaped: bool,
}

impl View for SlipDecoder {
    type V = DecoderState;

    open spec fn view(&self) -> DecoderState {
        DecoderState { buffer: self.buffer@, escaped: self.escaped }
    }
}

impl Default for SlipDecoder {
    fn default() -> (decoder: Self)
        ensures
            decoder@ == reset_state(),
    {
        Self::new()
    }
}

impl SlipDecoder {
    /// A decoder with an empty buffer, not in an escape.
    pub fn new() -> (decoder: Self)
        ensures
            decoder@ == reset_state(),
    {
        Self { buffer: Vec::new(), escaped: false }
    }

    /// Clears the buffer and the escape flag, as a caller must after an error.
    pub fn reset(&mut self)
        ensures
            final(self)@ == reset_state(),
    {
        self.buffer.clear();
        self.escaped = false;
    }

    /// Process a single byte from the stream.
    ///
    /// Returns `Some(packet)` when an END byte (0xC0) terminates a non-empty command.
    pub fn process_byte(&mut self, byte: u8) -> (result: Result<Option<Vec<u8>>, SlipError>)
        ensures
            final(self)@ == slip_step(old(self)@, byte).0,
            outcome_of(result) == slip_step(old(self)@, byte).1,
    {
        if self.escaped {
            self.escaped = false;
            if byte == ESC_END {
                self.buffer.push(END);
            } else if byte == ESC_ESC {
                self.buffer.push(ESC);
            } else {
                return Err(SlipError::UnrecognizedEscapeByte(byte));
            }
        } else if byte == ESC {
            self.escaped = true;
        } else if byte == END {
            if self.buffer.len() > 0 {
                let mut packet: Vec<u8> = Vec::new();
                std::mem::swap(&mut packet, &mut self.buffer);
                return Ok(Some(packet));
            }
        } else {
            self.buffer.push(byte);
        }
        Ok(None)
    }

    /// Feeds bytes in order until one completes a packet or fails, or until
    /// none is left. On a protocol error the decoder is reset before
    /// returning. The second component is the number of bytes taken.
    pub fn feed(&mut self, bytes: &[u8]) -> (result: (FeedOutcome, usize))
        ensures
            final(self)@ == slip_run(old(self)@, bytes@).0,
            result.0@ == slip_run(old(self)@, bytes@).1,
            result.1 == slip_run(old(self)@, bytes@).2,
            result.1 <= bytes.len(),
    {
        let mut taken: usize = 0;
        assert(bytes@.skip(0) == bytes@);
        while taken < bytes.len()
            invariant
                taken <= bytes.len(),
                slip_run(old(self)@, bytes@).0 == slip_run(self@, bytes@.skip(taken as int)).0,
                slip_run(old(self)@, bytes@).1 == slip_run(self@, bytes@.skip(taken as int)).1,
                slip_run(old(self)@, bytes@).2 == slip_run(self@, bytes@.skip(taken as int)).2
                    + taken,
            decreases bytes.len() - taken,
        {
            let ghost before = self@;
            let ghost rest = bytes@.skip(taken as int);
            assert(rest.len() > 0 && rest[0] == bytes@[taken as int]);
            assert(rest.drop_first() == bytes@.skip(taken + 1));
            let step = self.process_byte(bytes[taken]);
            taken = taken + 1;
            match step {
                Ok(None) => {},
                Ok(Some(packet)) => {
                    return (FeedOutcome::Packet(packet), taken);
                },
                Err(error) => {
                    self.reset();
                    return (FeedOutcome::Failed(error), taken);
                },
            }
        }
        assert(bytes@.skip(taken as int).len() == 0);
        (FeedOutcome::Pending, taken)
    }
}

/// The character that writes the hexadecimal digit `d` in upper case.
pub open spec fn hex_digit_char(d: int) -> char {
    if d < 10 {
        ((48 + d) as u8) as char
    } else {
        ((55 + d) as u8) as char
    }
}

/// The upper-case hexadecimal text of a byte, without leading zeros.
pub open spec fn hex_upper(byte: u8) -> Seq<char> {
    if byte < 16 {
        seq![hex_digit_char(byte as int)]
    } else {
        seq![hex_digit_char(byte as int / 16), hex_digit_char(byte as int % 16)]
    }
}

/// The text that tells of a decode error.
pub open spec fn slip_error_message(error: SlipError) -> Seq<char> {
    match error {
        SlipError::UnrecognizedEscapeByte(byte) => "Unrecognized escape byte: 0x"@ + hex_upper(
            byte,
        ),
    }
}

fn hex_digit(d: u8) -> (text: &'static str)
    requires
        d < 16,
    ensures
        text@ == seq![hex_digit_char(d as int)],
{
    proof {
        reveal_strlit("0");
        reveal_strlit("1");
        reveal_strlit("2");
        reveal_strlit("3");
        reveal_strlit("4");
        reveal_strlit("5");
        reveal_strlit("6");
        reveal_strlit("7");
        reveal_strlit("8");
        reveal_strlit("9");
        reveal_strlit("A");
        reveal_strlit("B");
        reveal_strlit("C");
        reveal_strlit("D");
        reveal_strlit("E");
        reveal_strlit("F");
    }
    let text = match d {
        0 => "0",
        1 => "1",
        2 => "2",
        3 => "3",
        4 => "4",
        5 => "5",
        6 => "6",
        7 => "7",
        8 => "8",
        9 => "9",
        10 => "A",
        11 => "B",
        12 => "C",
        13 => "D",
        14 => "E",
        _ => "F",
    };
    assert(text@ =~= seq![hex_digit_char(d as int)]);
    text
}

impl SlipError {
    /// The text that tells of this error.
    pub fn message(&self) -> (text: String)
        ensures
            text@ == slip_error_message(*self),
    {
        match self {
            SlipError::UnrecognizedEscapeByte(byte) => {
                let head = String::from_str("Unrecognized escape byte: 0x");
                if *byte < 16 {
                    head.concat(hex_digit(*byte))
                } else {
                    let text = head.concat(hex_digit(*byte / 16)).concat(hex_digit(*byte % 16));
                    assert(text@ =~= slip_error_message(*self));
                    text
                }
            },
        }
    }
}

/// The first byte of a packet that reports the keys.
pub const KEY_COMMAND: u8 = 0xFB;

/// The first byte of a packet that reports the system information.
pub const SYSTEM_INFO_COMMAND: u8 = 0xFF;

/// What a packet of system information holds.
#[derive(Debug, Clone, Copy, PartialEq, Eq, Structural)]
pub struct SystemInfo {
    pub device_type: u8,
    pub firmware_major: u8,
    pub firmware_minor: u8,
    pub firmware_patch: u8,
    pub font_mode: u8,
}

/// A received packet, read by its first byte.
#[derive(Debug, Clone, Copy, PartialEq, Eq, Structural)]
pub enum Command {
    /// The state of the keys, where the packet is long enough to hold it.
    Key { keys: Option<u8> },
    /// The system information, where the packet is long enough to hold it.
    System { info: Option<SystemInfo> },
    /// A packet of another kind.
    Unknown { kind: u8 },
}

/// The command that a packet holds; nothing for an empty packet.
pub open spec fn command_of(packet: Seq<u8>) -> Option<Command> {
    if packet.len() == 0 {
        None
    } else if packet[0] == KEY_COMMAND {
        Some(
            Command::Key {
                keys: if packet.len() >= 3 {
                    Some(packet[1])
                } else {
                    None
                },
            },
        )
    } else if packet[0] == SYSTEM_INFO_COMMAND {
        Some(
            Command::System {
                info: if packet.len() >= 6 {
                    Some(
                        SystemInfo {
                            device_type: packet[1],
                            firmware_major: packet[2],
                            firmware_minor: packet[3],
                            firmware_patch: packet[4],
                            font_mode: packet[5],
                        },
                    )
                } else {
                    None
                },
            },
        )
    } else {
        Some(Command::Unknown { kind: packet[0] })
    }
}

/// Reads a received command packet by its first byte: `0xFB` is a key
/// command, whose second byte is the state of the keys in a packet of at
/// least 3 bytes; `0xFF` is a system information command, whose fields
/// follow in a packet of at least 6 bytes.
pub fn process_command(packet: &[u8]) -> (command: Option<Command>)
    ensures
        command == command_of(packet@),
{
    if packet.len() == 0 {
        return None;
    }
    let kind = packet[0];
    if kind == KEY_COMMAND {
        let keys = if packet.len() >= 3 {
            Some(packet[1])
        } else {
            None
        };
        Some(Command::Key { keys })
    } else if kind == SYSTEM_INFO_COMMAND {
        let info = if packet.len() >= 6 {
            Some(
                SystemInfo {
                    device_type: packet[1],
                    firmware_major: packet[2],
                    firmware_minor: packet[3],
                    firmware_patch: packet[4],
                    font_mode: packet[5],
                },
            )
        } else {
            None
        };
        Some(Command::System { info })
    } else {
        Some(Command::Unknown { kind })
    }
}

/// Bytes that are neither END nor ESC are accumulated as they are, and
/// nothing is emitted: fed to a decoder that is not in an escape, they are
/// all taken, the outcome is pending, and the buffer has grown by them.
pub proof fn lemma_plain_bytes_accumulate(state: DecoderState, bytes: Seq<u8>)
    requires
        !state.escaped,
        forall|i: int| 0 <= i < bytes.len() ==> bytes[i] != END && bytes[i] != ESC,
    ensures
        slip_run(state, bytes) == (
            DecoderState { buffer: state.buffer + bytes, escaped: false },
            StepOutcome::Pending,
            bytes.len(),
        ),
    decreases bytes.len(),
{
    if bytes.len() == 0 {
        assert(state.buffer + bytes =~= state.buffer);
    } else {
        let next = slip_step(state, bytes[0]).0;
        let rest = bytes.drop_first();
        assert forall|i: int| 0 <= i < rest.len() implies rest[i] != END && rest[i] != ESC by {
            assert(rest[i] == bytes[i + 1]);
        }
        lemma_plain_bytes_accumulate(next, rest);
        assert(state.buffer.push(bytes[0]) + rest =~= state.buffer + bytes);
    }
}

/// After bytes that are neither END nor ESC, an END byte emits all that
/// was accumulated as one packet and leaves the buffer empty.
pub proof fn lemma_end_emits_accumulated(state: DecoderState, bytes: Seq<u8>)
    requires
        !state.escaped,
        (state.buffer + bytes).len() > 0,
        forall|i: int| 0 <= i < bytes.len() ==> bytes[i] != END && bytes[i] != ESC,
    ensures
        slip_run(state, bytes.push(END)) == (
            reset_state(),
            StepOutcome::Packet(state.buffer + bytes),
            bytes.len() + 1,
        ),
    decreases bytes.len(),
{
    let all = bytes.push(END);
    if bytes.len() == 0 {
        assert(state.buffer + bytes =~= state.buffer);
        assert(all[0] == END);
    } else {
        let next = slip_step(state, bytes[0]).0;
        let rest = bytes.drop_first();
        assert(all[0] == bytes[0]);
        assert(all.drop_first() =~= rest.push(END));
        assert forall|i: int| 0 <= i < rest.len() implies rest[i] != END && rest[i] != ESC by {
            assert(rest[i] == bytes[i + 1]);
        }
        assert(state.buffer.push(bytes[0]) + rest =~= state.buffer + bytes);
        lemma_end_emits_accumulated(next, rest);
    }
}

/// An escape marker followed by the code for END buffers a literal END;
/// followed by the code for ESC it buffers a literal ESC; followed by any
/// other byte it fails with that byte, and leaves the escape.
pub proof fn lemma_escape_pairs(state: DecoderState, byte: u8)
    requires
        !state.escaped,
    ensures
        slip_step(state, ESC) == (
            DecoderState { buffer: state.buffer, escaped: true },
            StepOutcome::Pending,
        ),
        byte == ESC_END ==> slip_step(slip_step(state, ESC).0, byte) == (
            DecoderState { buffer: state.buffer.push(END), escaped: false },
            StepOutcome::Pending,
        ),
        byte == ESC_ESC ==> slip_step(slip_step(state, ESC).0, byte) == (
            DecoderState { buffer: state.buffer.push(ESC), escaped: false },
            StepOutcome::Pending,
        ),
        byte != ESC_END && byte != ESC_ESC ==> slip_step(slip_step(state, ESC).0, byte) == (
            DecoderState { buffer: state.buffer, escaped: false },
            StepOutcome::Failed(SlipError::UnrecognizedEscapeByte(byte)),
        ),
        byte != ESC_END && byte != ESC_ESC ==> slip_run(state, seq![ESC, byte]) == (
            reset_state(),
            StepOutcome::Failed(SlipError::UnrecognizedEscapeByte(byte)),
            2nat,
        ),
{
    let pair = seq![ESC, byte];
    assert(pair[0] == ESC);
    assert(pair.drop_first() =~= seq![byte]);
    assert(seq![byte][0] == byte);
    assert(seq![byte].drop_first() =~= Seq::<u8>::empty());
    reveal_with_fuel(slip_run, 3);
}

} // verus!
