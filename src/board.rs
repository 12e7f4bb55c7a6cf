//! Board constants: matrix sizes, timing, the bootloader flag and the LED wiring.
use vstd::prelude::*;

verus! {

/// Rate of the scan and report tick, in hertz.
pub const TICK_HZ: u32 = 1000;

/// Consecutive agreeing scans a key change needs before it is trusted.
pub const DEBOUNCE_TICKS: u16 = 5;

/// Backup-domain data register that holds the bootloader flag.
pub const BOOT_FLAG_REGISTER: usize = 9;

/// Value written to the bootloader flag register on every boot.
pub const BOOT_FLAG_VALUE: u16 = 0x424C;

/// Geometry of a key matrix: pull-up input lines crossed with push-pull
/// output lines. A scan grid has one row per output line and one column per
/// input line.
#[derive(Clone, Copy, Debug, PartialEq, Eq, Structural)]
pub struct BoardConfig {
    pub inputs: usize,
    pub outputs: usize,
}

impl BoardConfig {
    /// The 60% board: 12 inputs by 5 outputs.
    pub fn sixty() -> (b: BoardConfig)
        ensures
            b.inputs == 12 && b.outputs == 5,
    {
        BoardConfig { inputs: 12, outputs: 5 }
    }

    /// The 75% board: 15 inputs by 5 outputs.
    pub fn seventy_five() -> (b: BoardConfig)
        ensures
            b.inputs == 15 && b.outputs == 5,
    {
        BoardConfig { inputs: 15, outputs: 5 }
    }

    /// Number of physical keys.
    pub fn keys(&self) -> (n: usize)
        requires
            self.inputs * self.outputs <= usize::MAX,
        ensures
            n == self.inputs * self.outputs,
    {
        self.inputs * self.outputs
    }

    /// Whether (row, column) of a scan grid names a key of this matrix.
    pub fn contains(&self, row: usize, col: usize) -> (b: bool)
        ensures
            b == (row < self.outputs && col < self.inputs),
    {
        row < self.outputs && col < self.inputs
    }
}

/// Level to drive on the caps-lock LED line: the LED is wired active low, so
/// the line goes low when the host turns caps lock on.
pub fn caps_lock_level(on: bool) -> (high: bool)
    ensures
        high == !on,
{
    !on
}

} // verus!
