//! Conditions and the values they compare: where an 8-bit value comes from,
//! the comparison made on it, and the truth of the whole against a machine.

use vstd::prelude::*;
use crate::machine::{MachineState, Registers};

verus! {

/// Where an 8-bit value is read from: one of the registers, or one byte of
/// memory.
///
/// `RegisterS` is the status register and `RegisterSP` the stack pointer.
#[derive(Clone, Copy, Debug, PartialEq, Eq, Structural)]
pub enum Source8 {
    Accumulator,
    RegisterX,
    RegisterY,
    RegisterS,
    RegisterSP,
    Memory(usize),
}

/// A read of memory at an address that the memory does not hold.
#[derive(Clone, Copy, Debug, PartialEq, Eq, Structural)]
pub struct OutOfBoundsMemoryAccess {
    pub address: usize,
    pub memory_len: usize,
}

impl Source8 {
    /// Whether a memory of `memory_len` bytes holds what the source reads.
    /// A register can always be read.
    pub open spec fn in_bounds(self, memory_len: nat) -> bool {
        match self {
            Source8::Memory(address) => address < memory_len,
            _ => true,
        }
    }

    /// The byte the source yields on the given machine.
    pub open spec fn value(self, registers: Registers, memory: Seq<u8>) -> u8
        recommends
            self.in_bounds(memory.len()),
    {
        match self {
            Source8::Accumulator => registers.accumulator,
            Source8::RegisterX => registers.register_x,
            Source8::RegisterY => registers.register_y,
            Source8::RegisterS => registers.status_register,
            Source8::RegisterSP => registers.stack_pointer,
            Source8::Memory(address) => memory[address as int],
        }
    }

    /// Reads the source. The caller answers for the address: it must lie in
    /// `memory`.
    pub fn get_value(&self, registers: &Registers, memory: &Vec<u8>) -> (value: u8)
        requires
            self.in_bounds(memory@.len()),
        ensures
            value == self.value(*registers, memory@),
    {
        match *self {
            Source8::Accumulator => registers.accumulator,
            Source8::RegisterX => registers.register_x,
            Source8::RegisterY => registers.register_y,
            Source8::RegisterS => registers.status_register,
            Source8::RegisterSP => registers.stack_pointer,
            Source8::Memory(address) => memory[address],
        }
    }

    /// What `resolve` returns: the value, or the fault that names the address
    /// and the length of the memory it missed.
    pub open spec fn resolved(self, state: MachineState) -> Result<u8, OutOfBoundsMemoryAccess> {
        match self {
            Source8::Memory(address) if address >= state.memory@.len() => Err(
                OutOfBoundsMemoryAccess { address, memory_len: state.memory@.len() as usize },
            ),
            _ => Ok(self.value(state.registers, state.memory@)),
        }
    }

    /// Reads the source, or reports the address that lies outside the memory.
    /// The address is never reduced to fit.
    pub fn resolve(&self, state: &MachineState) -> (outcome: Result<u8, OutOfBoundsMemoryAccess>)
        ensures
            outcome == self.resolved(*state),
    {
        match *self {
            Source8::Memory(address) => {
                if address < state.memory.len() {
                    Ok(state.memory[address])
                } else {
                    Err(OutOfBoundsMemoryAccess { address, memory_len: state.memory.len() })
                }
            },
            _ => Ok(self.get_value(&state.registers, &state.memory)),
        }
    }
}

/// A boolean condition: an unsigned comparison between a source and a byte,
/// or a constant truth value.
#[derive(Clone, Copy, Debug, PartialEq, Eq, Structural)]
pub enum BooleanExpression {
    Equal(Source8, u8),
    GreaterOrEqual(Source8, u8),
    StrictlyGreater(Source8, u8),
    LesserOrEqual(Source8, u8),
    StrictlyLesser(Source8, u8),
    Different(Source8, u8),
    Value(bool),
}

impl BooleanExpression {
    /// The source the condition reads, if it reads one.
    pub open spec fn source(self) -> Option<Source8> {
        match self {
            BooleanExpression::Equal(source, _) => Some(source),
            BooleanExpression::GreaterOrEqual(source, _) => Some(source),
            BooleanExpression::StrictlyGreater(source, _) => Some(source),
            BooleanExpression::LesserOrEqual(source, _) => Some(source),
            BooleanExpression::StrictlyLesser(source, _) => Some(source),
            BooleanExpression::Different(source, _) => Some(source),
            BooleanExpression::Value(_) => None,
        }
    }

    /// Gives the source the condition reads, if it reads one.
    pub fn get_source(&self) -> (source: Option<Source8>)
        ensures
            source == self.source(),
    {
        match *self {
            BooleanExpression::Equal(source, _) => Some(source),
            BooleanExpression::GreaterOrEqual(source, _) => Some(source),
            BooleanExpression::StrictlyGreater(source, _) => Some(source),
            BooleanExpression::LesserOrEqual(source, _) => Some(source),
            BooleanExpression::StrictlyLesser(source, _) => Some(source),
            BooleanExpression::Different(source, _) => Some(source),
            BooleanExpression::Value(_) => None,
        }
    }

    /// Whether a memory of `memory_len` bytes holds every byte the condition
    /// reads.
    pub open spec fn in_bounds(self, memory_len: nat) -> bool {
        match self.source() {
            Some(source) => source.in_bounds(memory_len),
            None => true,
        }
    }

    /// The truth of the condition on the given machine. Bytes compare as
    /// unsigned numbers.
    pub open spec fn holds(self, registers: Registers, memory: Seq<u8>) -> bool
        recommends
            self.in_bounds(memory.len()),
    {
        match self {
            BooleanExpression::Equal(source, val) => source.value(registers, memory) == val,
            BooleanExpression::GreaterOrEqual(source, val) => source.value(registers, memory) >= val,
            BooleanExpression::StrictlyGreater(source, val) => source.value(registers, memory) > val,
            BooleanExpression::LesserOrEqual(source, val) => source.value(registers, memory) <= val,
            BooleanExpression::StrictlyLesser(source, val) => source.value(registers, memory) < val,
            BooleanExpression::Different(source, val) => source.value(registers, memory) != val,
            BooleanExpression::Value(val) => val,
        }
    }

    /// Decides the condition. The caller answers for the address of a memory
    /// source: it must lie in `memory`.
    pub fn solve(&self, registers: &Registers, memory: &Vec<u8>) -> (truth: bool)
        requires
            self.in_bounds(memory@.len()),
        ensures
            truth == self.holds(*registers, memory@),
    {
        match *self {
            BooleanExpression::Equal(source, val) => source.get_value(registers, memory) == val,
            BooleanExpression::GreaterOrEqual(source, val) => {
                source.get_value(registers, memory) >= val
            },
            BooleanExpression::StrictlyGreater(source, val) => {
                source.get_value(registers, memory) > val
            },
            BooleanExpression::LesserOrEqual(source, val) => {
                source.get_value(registers, memory) <= val
            },
            BooleanExpression::StrictlyLesser(source, val) => {
                source.get_value(registers, memory) < val
            },
            BooleanExpression::Different(source, val) => {
                source.get_value(registers, memory) != val
            },
            BooleanExpression::Value(val) => val,
        }
    }

    /// What `evaluate` returns: the truth of the condition where the memory
    /// holds what it reads, and otherwise the fault of its source.
    pub open spec fn evaluated(self, state: MachineState) -> Result<bool, OutOfBoundsMemoryAccess> {
        match self.source() {
            Some(Source8::Memory(address)) if address >= state.memory@.len() => Err(
                OutOfBoundsMemoryAccess { address, memory_len: state.memory@.len() as usize },
            ),
            _ => Ok(self.holds(state.registers, state.memory@)),
        }
    }
}

/// Decides a condition on a machine, without side effects. A condition on an
/// address at or beyond the length of the memory is a fault, whatever the
/// comparison: the address is never wrapped or cut to fit.
pub fn evaluate(ast: &BooleanExpression, state: &MachineState) -> (outcome: Result<
    bool,
    OutOfBoundsMemoryAccess,
>)
    ensures
        outcome == ast.evaluated(*state),
        outcome is Ok <==> ast.in_bounds(state.memory@.len()),
{
    match ast.get_source() {
        Some(Source8::Memory(address)) if address >= state.memory.len() => Err(
            OutOfBoundsMemoryAccess { address, memory_len: state.memory.len() },
        ),
        _ => Ok(ast.solve(&state.registers, &state.memory)),
    }
}

} // verus!
