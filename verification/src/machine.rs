//! The state a condition is evaluated against: the register file and the
//! addressable memory.

use vstd::prelude::*;

verus! {

/// Value of the status register after a reset: the reserved and break flags set.
pub const STATUS_AFTER_RESET: u8 = 0b0011_0000;

/// The register file of the processor.
#[derive(Clone, Copy, Debug, PartialEq, Eq, Structural)]
pub struct Registers {
    pub accumulator: u8,
    pub register_x: u8,
    pub register_y: u8,
    pub status_register: u8,
    pub stack_pointer: u8,
    pub command_pointer: usize,
}

impl Registers {
    /// The register file after a reset, about to execute at `start_addr`.
    pub open spec fn reset(start_addr: usize) -> Registers {
        Registers {
            accumulator: 0,
            register_x: 0,
            register_y: 0,
            status_register: STATUS_AFTER_RESET,
            stack_pointer: 0,
            command_pointer: start_addr,
        }
    }

    /// Builds the register file of a processor that starts at `start_addr`:
    /// every 8-bit register is cleared except the status register.
    pub fn new(start_addr: usize) -> (registers: Registers)
        ensures
            registers == Registers::reset(start_addr),
    {
        Registers {
            accumulator: 0,
            register_x: 0,
            register_y: 0,
            status_register: STATUS_AFTER_RESET,
            stack_pointer: 0,
            command_pointer: start_addr,
        }
    }
}

/// Registers and memory together: a snapshot of the whole machine.
///
/// Memory is a sequence of bytes of fixed length; an address is an index into
/// it. Nothing here ever changes a snapshot.
pub struct MachineState {
    pub registers: Registers,
    pub memory: Vec<u8>,
}

impl MachineState {
    /// Builds a machine that starts at `start_addr` with the given memory.
    pub fn new(start_addr: usize, memory: Vec<u8>) -> (state: MachineState)
        ensures
            state.registers == Registers::reset(start_addr),
            state.memory@ == memory@,
    {
        MachineState { registers: Registers::new(start_addr), memory }
    }
}

} // verus!
