//! The emulator loop: a bus, a linear program of move operations and an
//! instruction index.  Each step executes one instruction through the bus,
//! ticks every unit, and appends a log entry.
//!
//! The array index `pc` that drives instruction fetch is deliberately
//! independent of the simulated program-counter unit: jumps are data moves
//! into that unit's trigger, observed by whoever drives stepping, never by
//! this loop.

use vstd::prelude::*;

use crate::bus::ExecStatus;
use crate::bus::MoveOp;
use crate::bus::SystemBus;
use crate::bus::ticked_all;
use crate::bus::write_rel;
use crate::fu::ConsoleFU;
use crate::fu::FunctionalUnit;
use crate::fx::zeros_seq;

verus! {

/// One line of the execution log: the running step count, the instruction
/// index it executed, and what the bus reported.
#[derive(Clone, Copy, Debug, PartialEq, Eq, Structural)]
pub struct LogEntry {
    pub step: usize,
    pub pc: usize,
    pub status: ExecStatus,
}

/// The emulator: exclusive owner of the bus and the program.
pub struct SystemEmulator {
    pub bus: SystemBus,
    pub program: Vec<MoveOp>,
    pub pc: usize,
    pub total_steps: usize,
    pub logs: Vec<LogEntry>,
}

/// The status one step reports, decided by the state before the step: the
/// guard decides the skip, the destination region decides the target.
pub open spec fn step_status(pre: SystemEmulator) -> ExecStatus {
    let op = pre.program@[pre.pc as int];
    if pre.bus.guard_low(op) {
        ExecStatus::Skipped
    } else {
        ExecStatus::Moved(pre.bus.write_target(op.dest, pre.bus.read_spec(op.src)))
    }
}

/// How one step relates the bus before and after: the guarded move happens
/// first (or nothing, when the guard reads low), then every unit and device
/// advances by one tick.
pub open spec fn step_bus_rel(pre: SystemBus, post: SystemBus, op: MoveOp) -> bool {
    exists|mid: SystemBus|
        #![trigger ticked_all(mid.units.entries@, post.units.entries@)]
        {
            &&& (if pre.guard_low(op) {
                mid == pre
            } else {
                write_rel(pre, mid, op.dest, pre.read_spec(op.src))
            })
            &&& ticked_all(mid.units.entries@, post.units.entries@)
            &&& ticked_all(mid.mmio.entries@, post.mmio.entries@)
            &&& post.registers == mid.registers
            &&& post.ram == mid.ram
            &&& post.fu_io_cache == mid.fu_io_cache
        }
}

impl SystemEmulator {
    /// The emulator is well-formed when its bus is.
    pub open spec fn wf(&self) -> bool {
        self.bus.wf()
    }

    /// An emulator over the given bus, with an empty program and all
    /// counters at zero.
    pub fn new(bus: SystemBus) -> (r: Self)
        requires
            bus.wf(),
        ensures
            r.wf(),
            r.bus == bus,
            r.program@.len() == 0,
            r.pc == 0,
            r.total_steps == 0,
            r.logs@.len() == 0,
    {
        SystemEmulator { bus, program: Vec::new(), pc: 0, total_steps: 0, logs: Vec::new() }
    }

    /// The default system: registers 0 through 15 at width 8, and a console
    /// device at the bottom of the device region.
    pub fn default() -> (r: Self)
        ensures
            r.wf(),
            r.program@.len() == 0,
            r.pc == 0,
            r.total_steps == 0,
            r.logs@.len() == 0,
            forall|a: u16|
                a < 16 ==> (#[trigger] r.bus.registers.spec_get(a as u32) matches Some(reg)
                    && reg.wf() && reg.width == 8 && reg.state@ == zeros_seq(8)),
            r.bus.mmio.spec_get(0x8000) matches Some(d) && (d matches FunctionalUnit::Console(c)
                && c.written@.len() == 0),
    {
        let mut bus = SystemBus::new();
        for i in 0..16u16
            invariant
                bus.wf(),
                forall|a: u16|
                    a < i ==> (#[trigger] bus.registers.spec_get(a as u32) matches Some(reg)
                        && reg.wf() && reg.width == 8 && reg.state@ == zeros_seq(8)),
                forall|k: u32| bus.mmio.spec_get(k) is None,
        {
            bus.add_register(i, 8);
        }
        bus.add_mmio(0x8000, FunctionalUnit::Console(ConsoleFU::new()));
        Self::new(bus)
    }

    /// Initialise default functional units; the default system needs none.
    pub fn load_firmware(&mut self)
        ensures
            *final(self) == *old(self),
    {
    }

    /// Replace the program; the bus, counters and logs are untouched.
    pub fn load_program(&mut self, prog: Vec<MoveOp>)
        ensures
            final(self).program == prog,
            final(self).bus == old(self).bus,
            final(self).pc == old(self).pc,
            final(self).total_steps == old(self).total_steps,
            final(self).logs == old(self).logs,
    {
        self.program = prog;
    }

    /// Execute one instruction and advance the clock.  Returns `false`
    /// exactly when the instruction index has reached the program length;
    /// a halted emulator is left completely unchanged, so the index never
    /// advances past the program.
    pub fn step(&mut self) -> (r: bool)
        requires
            old(self).wf(),
            old(self).total_steps < usize::MAX,
        ensures
            final(self).wf(),
            r == (old(self).pc < old(self).program@.len()),
            !r ==> *final(self) == *old(self),
            r ==> final(self).pc == old(self).pc + 1,
            r ==> final(self).total_steps == old(self).total_steps + 1,
            r ==> final(self).program == old(self).program,
            r ==> final(self).logs@ == old(self).logs@.push(
                LogEntry {
                    step: old(self).total_steps,
                    pc: old(self).pc,
                    status: step_status(*old(self)),
                },
            ),
            r ==> step_bus_rel(old(self).bus, final(self).bus, old(self).program@[old(self).pc as int]),
    {
        if self.pc >= self.program.len() {
            return false;
        }
        let op: MoveOp = self.program[self.pc];
        let status = self.bus.execute(&op);
        self.logs.push(LogEntry { step: self.total_steps, pc: self.pc, status });
        let ghost mid = self.bus;
        self.bus.tick_all();
        proof {
            assert(step_bus_rel(old(self).bus, self.bus, op)) by {
                assert({
                    &&& (if old(self).bus.guard_low(op) {
                        mid == old(self).bus
                    } else {
                        write_rel(old(self).bus, mid, op.dest, old(self).bus.read_spec(op.src))
                    })
                    &&& ticked_all(mid.units.entries@, self.bus.units.entries@)
                    &&& ticked_all(mid.mmio.entries@, self.bus.mmio.entries@)
                    &&& self.bus.registers == mid.registers
                    &&& self.bus.ram == mid.ram
                    &&& self.bus.fu_io_cache == mid.fu_io_cache
                });
            }
        }
        self.pc = self.pc + 1;
        self.total_steps = self.total_steps + 1;
        true
    }
}

} // verus!
