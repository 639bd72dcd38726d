//! The terminal mode in which the line editor reads: every byte is delivered
//! as it is typed, and the terminal echoes nothing by itself.

use vstd::prelude::*;

verus! {

/// The settings of a terminal that the editor cares about.
#[derive(Debug, Clone, Copy, PartialEq, Eq, Structural)]
pub struct TerminalMode {
    /// The flags that govern how input is treated.
    pub input_flags: u32,
    /// The flags that govern line buffering and echo.
    pub local_flags: u32,
    /// How many bytes a read waits for at least.
    pub min_bytes: u8,
    /// How long a read waits, in tenths of a second; 0 is for ever.
    pub timeout: u8,
}

/// The bits that the platform gives to the flags of interest.
#[derive(Debug, Clone, Copy, PartialEq, Eq, Structural)]
pub struct ModeFlags {
    /// The input flag by which carriage returns are ignored.
    pub ignore_cr: u32,
    /// The local flag of line-buffered input.
    pub canonical: u32,
    /// The local flag of echo.
    pub echo: u32,
}

/// The mode for reading a line, made from the mode that the terminal is in.
pub open spec fn raw(previous: TerminalMode, flags: ModeFlags) -> TerminalMode {
    TerminalMode {
        input_flags: previous.input_flags & flags.ignore_cr,
        local_flags: previous.local_flags & !flags.canonical & !flags.echo,
        min_bytes: 1,
        timeout: 0,
    }
}

/// The mode for reading a line: without line buffering and without echo,
/// whatever the terminal was set to; a read returns as soon as one byte is
/// there, and waits for it without a limit. Of the input flags only the one
/// that ignores carriage returns stays as it was, and all others are off.
pub fn raw_mode(previous: TerminalMode, flags: ModeFlags) -> (mode: TerminalMode)
    ensures
        mode == raw(previous, flags),
        mode.local_flags & flags.canonical == 0,
        mode.local_flags & flags.echo == 0,
        mode.local_flags | flags.canonical | flags.echo == previous.local_flags | flags.canonical
            | flags.echo,
{
    let local = previous.local_flags;
    let canonical = flags.canonical;
    let echo = flags.echo;
    assert((local & !canonical & !echo) & canonical == 0) by (bit_vector);
    assert((local & !canonical & !echo) & echo == 0) by (bit_vector);
    assert((local & !canonical & !echo) | canonical | echo == local | canonical | echo)
        by (bit_vector);
    TerminalMode {
        input_flags: previous.input_flags & flags.ignore_cr,
        local_flags: local & !canonical & !echo,
        min_bytes: 1,
        timeout: 0,
    }
}

} // verus!
