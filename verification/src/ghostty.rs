//! Escape sequences for terminal features: OSC 133 semantic prompt zones
//! and the mode 2031 theme query. The interface writes these bytes to the
//! terminal.
use vstd::prelude::*;

verus! {

/// The four marks of OSC 133 that delimit a prompt, the user's input and a
/// command's output.
#[derive(Debug, Clone, Copy, PartialEq, Eq, Structural)]
pub enum PromptZone {
    /// Start of the prompt (`A`).
    Prompt,
    /// Start of the user's input (`B`).
    Input,
    /// Start of the command's output (`C`).
    Output,
    /// End of the command's output (`D`).
    EndOutput,
}

/// The letter that names a zone in the sequence.
pub open spec fn zone_letter(zone: PromptZone) -> u8 {
    match zone {
        PromptZone::Prompt => 0x41u8,
        PromptZone::Input => 0x42u8,
        PromptZone::Output => 0x43u8,
        PromptZone::EndOutput => 0x44u8,
    }
}

/// `ESC ] 133 ; <letter> BEL`.
pub open spec fn osc133_bytes(zone: PromptZone) -> Seq<u8> {
    seq![0x1bu8, 0x5du8, 0x31u8, 0x33u8, 0x33u8, 0x3bu8, zone_letter(zone), 0x07u8]
}

/// The OSC 133 sequence that marks the start of `zone`.
pub fn osc133_sequence(zone: PromptZone) -> (r: Vec<u8>)
    ensures
        r@ == osc133_bytes(zone),
{
    let letter: u8 = match zone {
        PromptZone::Prompt => 0x41,
        PromptZone::Input => 0x42,
        PromptZone::Output => 0x43,
        PromptZone::EndOutput => 0x44,
    };
    let r = vec![0x1bu8, 0x5du8, 0x31u8, 0x33u8, 0x33u8, 0x3bu8, letter, 0x07u8];
    proof {
        assert(r@ =~= osc133_bytes(zone));
    }
    r
}

/// The query for the terminal's dark or light theme: `ESC ] 996 BEL`.
pub fn theme_query_sequence() -> (r: Vec<u8>)
    ensures
        r@ == seq![0x1bu8, 0x5du8, 0x39u8, 0x39u8, 0x36u8, 0x07u8],
{
    let r = vec![0x1bu8, 0x5du8, 0x39u8, 0x39u8, 0x36u8, 0x07u8];
    proof {
        assert(r@ =~= seq![0x1bu8, 0x5du8, 0x39u8, 0x39u8, 0x36u8, 0x07u8]);
    }
    r
}

} // verus!
