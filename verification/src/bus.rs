//! The memory-mapped system bus: it owns all registers, functional units,
//! RAM cells and memory-mapped devices, decodes the 16-bit address space
//! into four disjoint regions, and dispatches guarded move operations.
//!
//! Address map: `[0x0000, 0x1000)` registers, `[0x1000, 0x2000)` functional
//! units, `[0x2000, 0x8000)` RAM, `[0x8000, 0xFFFF]` memory-mapped devices.
//! Moving a vector into a unit's address is the trigger that makes it
//! compute; an unresolved address reads as all zeros and is reported, never
//! fatal.

use vstd::prelude::*;

use crate::fu::FunctionalUnit;
use crate::fu::ProgramCounterFU;
use crate::fu::fu_step_rel;
use crate::fu::fu_tick_rel;
use crate::fx::FX_HALF;
use crate::fx::fx_copy;
use crate::fx::fx_zeros;
use crate::fx::zeros_seq;
use crate::register::NeuralRegister;
use crate::sparse::MemMap;
use crate::sparse::SparseMap;
use crate::sparse::lemma_lookup_update;

verus! {

/// One instruction: copy the vector at `src` to `dest`, but only when the
/// optional guard location currently reads high.
#[derive(Clone, Copy, Debug)]
pub struct MoveOp {
    pub src: u16,
    pub dest: u16,
    pub guard: Option<u16>,
}

/// Where a write landed, or why it had no effect; the bus reports this for
/// logging and inspection, never for control decisions.
#[derive(Clone, Copy, Debug, PartialEq, Eq, Structural)]
pub enum WriteTarget {
    Register(u16),
    RegisterSizeMismatch(u16),
    Unit(u16),
    UnitSizeMismatch(u16),
    Ram(u16),
    Mmio(u16),
    MmioSizeMismatch(u16),
    Unknown(u16),
}

/// The outcome of one guarded move: skipped because the guard read low, or
/// moved to the reported target.
#[derive(Clone, Copy, Debug, PartialEq, Eq, Structural)]
pub enum ExecStatus {
    Skipped,
    Moved(WriteTarget),
}

/// Every functional unit in a region map is well-shaped, shadowed entries
/// included.
pub open spec fn units_wf(s: Seq<(u32, FunctionalUnit)>) -> bool {
    forall|i: int| 0 <= i < s.len() ==> (#[trigger] s[i]).1.wf()
}

/// A region map relates to its earlier state by one clock tick on every
/// entry: keys are unchanged and each unit advanced by `fu_tick_rel`.
pub open spec fn ticked_all(pre: Seq<(u32, FunctionalUnit)>, post: Seq<(u32, FunctionalUnit)>) -> bool {
    &&& post.len() == pre.len()
    &&& forall|i: int|
        0 <= i < pre.len() ==> (#[trigger] post[i]).0 == pre[i].0 && fu_tick_rel(
            pre[i].1,
            post[i].1,
        )
}

/// The system bus: one owned mapping per address region, plus the
/// inspection cache of each unit's last input and output.
pub struct SystemBus {
    pub registers: SparseMap<NeuralRegister>,
    pub units: SparseMap<FunctionalUnit>,
    pub ram: MemMap,
    pub mmio: SparseMap<FunctionalUnit>,
    pub fu_io_cache: SparseMap<(Vec<i32>, Vec<i32>)>,
}

impl SystemBus {
    /// Every stored unit and device is well-shaped.
    pub open spec fn wf(&self) -> bool {
        units_wf(self.units.entries@) && units_wf(self.mmio.entries@)
    }

    /// What a read of `addr` returns: a register's state or a RAM cell's
    /// vector; the unit region is write-only (trigger-on-write) and reads,
    /// like every unresolved address, as the zero default.
    pub open spec fn read_spec(&self, addr: u16) -> Seq<i32> {
        if addr < 0x1000 {
            match self.registers.spec_get(addr as u32) {
                Some(r) => r.state@,
                None => zeros_seq(8),
            }
        } else if addr < 0x2000 {
            zeros_seq(8)
        } else if addr < 0x8000 {
            match self.ram.spec_get(addr as u32) {
                Some(v) => v@,
                None => zeros_seq(8),
            }
        } else {
            zeros_seq(8)
        }
    }

    /// Which target a write of `data` to `addr` reaches, decided by the
    /// address region, the populated maps, and the length checks.
    pub open spec fn write_target(&self, addr: u16, data: Seq<i32>) -> WriteTarget {
        if addr < 0x1000 {
            match self.registers.spec_get(addr as u32) {
                Some(r) => if data.len() == r.width {
                    WriteTarget::Register(addr)
                } else {
                    WriteTarget::RegisterSizeMismatch(addr)
                },
                None => WriteTarget::Unknown(addr),
            }
        } else if addr < 0x2000 {
            match self.units.spec_get(addr as u32) {
                Some(u) => if u.accepts(data.len() as int) {
                    WriteTarget::Unit(addr)
                } else {
                    WriteTarget::UnitSizeMismatch(addr)
                },
                None => WriteTarget::Unknown(addr),
            }
        } else if addr < 0x8000 {
            WriteTarget::Ram(addr)
        } else {
            match self.mmio.spec_get(addr as u32) {
                Some(u) => if u.accepts(data.len() as int) {
                    WriteTarget::Mmio(addr)
                } else {
                    WriteTarget::MmioSizeMismatch(addr)
                },
                None => WriteTarget::Unknown(addr),
            }
        }
    }

    /// A move with a guard is skipped when the guard location's first
    /// activation does not read high (an absent or empty guard reads as
    /// zero).
    pub open spec fn guard_low(&self, op: MoveOp) -> bool {
        match op.guard {
            Some(ga) => {
                let v = self.read_spec(ga);
                v.len() == 0 || v[0] <= FX_HALF
            },
            None => false,
        }
    }

    /// An empty bus with nothing mapped.
    pub fn new() -> (r: Self)
        ensures
            r.wf(),
            forall|k: u32| r.registers.spec_get(k) is None,
            forall|k: u32| r.units.spec_get(k) is None,
            forall|k: u32| r.ram.spec_get(k) is None,
            forall|k: u32| r.mmio.spec_get(k) is None,
            forall|k: u32| r.fu_io_cache.spec_get(k) is None,
    {
        SystemBus {
            registers: SparseMap::new(),
            units: SparseMap::new(),
            ram: SparseMap::new(),
            mmio: SparseMap::new(),
            fu_io_cache: SparseMap::new(),
        }
    }

    /// Map a fresh all-zero register of the given width at `addr`.
    pub fn add_register(&mut self, addr: u16, width: usize)
        requires
            old(self).wf(),
        ensures
            final(self).wf(),
            final(self).registers.spec_get(addr as u32) matches Some(r) && r.wf() && r.width
                == width && r.state@ == zeros_seq(width as nat),
            forall|k: u32|
                k != addr as u32 ==> final(self).registers.spec_get(k) == old(
                    self,
                ).registers.spec_get(k),
            final(self).units == old(self).units,
            final(self).ram == old(self).ram,
            final(self).mmio == old(self).mmio,
            final(self).fu_io_cache == old(self).fu_io_cache,
    {
        let reg = NeuralRegister::new(width);
        proof {
            assert(reg.state@ =~= zeros_seq(width as nat));
        }
        self.registers.insert(addr as u32, reg);
    }

    /// Map a functional unit at its base address in the unit region.
    pub fn add_unit(&mut self, base_addr: u16, unit: FunctionalUnit)
        requires
            old(self).wf(),
            unit.wf(),
        ensures
            final(self).wf(),
            final(self).units.spec_get(base_addr as u32) == Some(unit),
            forall|k: u32|
                k != base_addr as u32 ==> final(self).units.spec_get(k) == old(
                    self,
                ).units.spec_get(k),
            final(self).registers == old(self).registers,
            final(self).ram == old(self).ram,
            final(self).mmio == old(self).mmio,
            final(self).fu_io_cache == old(self).fu_io_cache,
    {
        self.units.insert(base_addr as u32, unit);
    }

    /// Map a memory-mapped device at `addr` in the device region.
    pub fn add_mmio(&mut self, addr: u16, device: FunctionalUnit)
        requires
            old(self).wf(),
            device.wf(),
        ensures
            final(self).wf(),
            final(self).mmio.spec_get(addr as u32) == Some(device),
            forall|k: u32|
                k != addr as u32 ==> final(self).mmio.spec_get(k) == old(self).mmio.spec_get(k),
            final(self).registers == old(self).registers,
            final(self).ram == old(self).ram,
            final(self).units == old(self).units,
            final(self).fu_io_cache == old(self).fu_io_cache,
    {
        self.mmio.insert(addr as u32, device);
    }

    /// Read `addr` through the address decoder; see `read_spec`.
    pub fn read_mem(&self, addr: u16) -> (r: Vec<i32>)
        ensures
            r@ == self.read_spec(addr),
    {
        if addr < 0x1000 {
            match self.registers.index_of(addr as u32) {
                Some(i) => self.registers.entries[i].1.read(),
                None => fx_zeros(8),
            }
        } else if addr < 0x2000 {
            fx_zeros(8)
        } else if addr < 0x8000 {
            match self.ram.get_copy(addr as u32) {
                Some(v) => v,
                None => fx_zeros(8),
            }
        } else {
            fx_zeros(8)
        }
    }

    /// Write `data` to `addr` through the address decoder.  A register
    /// stores the vector verbatim when the width matches; a unit or device
    /// is triggered with the vector as input and its input/output pair is
    /// cached; a RAM cell stores the vector; everything else is reported
    /// unknown and nothing changes.
    pub fn write_mem(&mut self, addr: u16, data: &Vec<i32>) -> (r: WriteTarget)
        requires
            old(self).wf(),
        ensures
            final(self).wf(),
            r == old(self).write_target(addr, data@),
            write_rel(*old(self), *final(self), addr, data@),
    {
        if addr < 0x1000 {
            match self.registers.index_of(addr as u32) {
                Some(i) => {
                    let mut slot: (u32, NeuralRegister) = (0, NeuralRegister::new(0));
                    self.registers.entries.set_and_swap(i, &mut slot);
                    let ok = slot.1.write(data);
                    proof {
                        lemma_lookup_update(old(self).registers.entries@, addr as u32, slot.1, i as int);
                    }
                    self.registers.entries.set(i, slot);
                    proof {
                        assert(self.registers.entries@ =~= old(self).registers.entries@.update(
                            i as int,
                            (addr as u32, slot.1),
                        ));
                    }
                    if ok {
                        WriteTarget::Register(addr)
                    } else {
                        WriteTarget::RegisterSizeMismatch(addr)
                    }
                },
                None => WriteTarget::Unknown(addr),
            }
        } else if addr < 0x2000 {
            match self.units.index_of(addr as u32) {
                Some(i) => {
                    let mut slot: (u32, FunctionalUnit) = (
                        0,
                        FunctionalUnit::Counter(ProgramCounterFU::new()),
                    );
                    self.units.entries.set_and_swap(i, &mut slot);
                    let out_opt = slot.1.forward(data);
                    proof {
                        lemma_lookup_update(old(self).units.entries@, addr as u32, slot.1, i as int);
                    }
                    self.units.entries.set(i, slot);
                    proof {
                        assert(self.units.entries@ =~= old(self).units.entries@.update(
                            i as int,
                            (addr as u32, slot.1),
                        ));
                    }
                    match out_opt {
                        Some(out) => {
                            self.fu_io_cache.insert(addr as u32, (fx_copy(data), out));
                            WriteTarget::Unit(addr)
                        },
                        None => {
                            proof {
                                assert(self.units.entries@ =~= old(self).units.entries@);
                            }
                            WriteTarget::UnitSizeMismatch(addr)
                        },
                    }
                },
                None => WriteTarget::Unknown(addr),
            }
        } else if addr < 0x8000 {
            self.ram.insert(addr as u32, fx_copy(data));
            WriteTarget::Ram(addr)
        } else {
            match self.mmio.index_of(addr as u32) {
                Some(i) => {
                    let mut slot: (u32, FunctionalUnit) = (
                        0,
                        FunctionalUnit::Counter(ProgramCounterFU::new()),
                    );
                    self.mmio.entries.set_and_swap(i, &mut slot);
                    let out_opt = slot.1.forward(data);
                    proof {
                        lemma_lookup_update(old(self).mmio.entries@, addr as u32, slot.1, i as int);
                    }
                    self.mmio.entries.set(i, slot);
                    proof {
                        assert(self.mmio.entries@ =~= old(self).mmio.entries@.update(
                            i as int,
                            (addr as u32, slot.1),
                        ));
                    }
                    match out_opt {
                        Some(out) => {
                            self.fu_io_cache.insert(addr as u32, (fx_copy(data), out));
                            WriteTarget::Mmio(addr)
                        },
                        None => {
                            proof {
                                assert(self.mmio.entries@ =~= old(self).mmio.entries@);
                            }
                            WriteTarget::MmioSizeMismatch(addr)
                        },
                    }
                },
                None => WriteTarget::Unknown(addr),
            }
        }
    }

    /// Execute one guarded move: check the guard, read the source, write
    /// the destination, and report what happened.  A skipped move touches
    /// nothing.
    pub fn execute(&mut self, op: &MoveOp) -> (r: ExecStatus)
        requires
            old(self).wf(),
        ensures
            final(self).wf(),
            old(self).guard_low(*op) ==> r == ExecStatus::Skipped && *final(self) == *old(self),
            !old(self).guard_low(*op) ==> r == ExecStatus::Moved(
                old(self).write_target(op.dest, old(self).read_spec(op.src)),
            ) && write_rel(*old(self), *final(self), op.dest, old(self).read_spec(op.src)),
    {
        match op.guard {
            Some(ga) => {
                let gv = self.read_mem(ga);
                if gv.len() == 0 || gv[0] <= FX_HALF {
                    return ExecStatus::Skipped;
                }
            },
            None => {},
        }
        let data = self.read_mem(op.src);
        let t = self.write_mem(op.dest, &data);
        ExecStatus::Moved(t)
    }

    /// Advance every functional unit and every device by one clock tick, in
    /// mapping order.
    pub fn tick_all(&mut self)
        requires
            old(self).wf(),
        ensures
            final(self).wf(),
            ticked_all(old(self).units.entries@, final(self).units.entries@),
            ticked_all(old(self).mmio.entries@, final(self).mmio.entries@),
            final(self).registers == old(self).registers,
            final(self).ram == old(self).ram,
            final(self).fu_io_cache == old(self).fu_io_cache,
    {
        let n: usize = self.units.entries.len();
        for i in 0..n
            invariant
                n == self.units.entries@.len(),
                self.units.entries@.len() == old(self).units.entries@.len(),
                units_wf(self.units.entries@),
                forall|j: int|
                    0 <= j < i ==> (#[trigger] self.units.entries@[j]).0 == old(
                        self,
                    ).units.entries@[j].0 && fu_tick_rel(
                        old(self).units.entries@[j].1,
                        self.units.entries@[j].1,
                    ),
                forall|j: int|
                    i <= j < n ==> (#[trigger] self.units.entries@[j]) == old(
                        self,
                    ).units.entries@[j],
                self.registers == old(self).registers,
                self.ram == old(self).ram,
                self.mmio == old(self).mmio,
                self.fu_io_cache == old(self).fu_io_cache,
        {
            let mut slot: (u32, FunctionalUnit) = (
                0,
                FunctionalUnit::Counter(ProgramCounterFU::new()),
            );
            self.units.entries.set_and_swap(i, &mut slot);
            slot.1.tick();
            self.units.entries.set(i, slot);
        }
        let m: usize = self.mmio.entries.len();
        for i in 0..m
            invariant
                m == self.mmio.entries@.len(),
                self.mmio.entries@.len() == old(self).mmio.entries@.len(),
                units_wf(self.mmio.entries@),
                ticked_all(old(self).units.entries@, self.units.entries@),
                forall|j: int|
                    0 <= j < i ==> (#[trigger] self.mmio.entries@[j]).0 == old(
                        self,
                    ).mmio.entries@[j].0 && fu_tick_rel(
                        old(self).mmio.entries@[j].1,
                        self.mmio.entries@[j].1,
                    ),
                forall|j: int|
                    i <= j < m ==> (#[trigger] self.mmio.entries@[j]) == old(
                        self,
                    ).mmio.entries@[j],
                self.registers == old(self).registers,
                self.ram == old(self).ram,
                self.fu_io_cache == old(self).fu_io_cache,
        {
            let mut slot: (u32, FunctionalUnit) = (
                0,
                FunctionalUnit::Counter(ProgramCounterFU::new()),
            );
            self.mmio.entries.set_and_swap(i, &mut slot);
            slot.1.tick();
            self.mmio.entries.set(i, slot);
        }
    }

    /// The cached input/output pair of the unit or device at `addr`, if it
    /// has been triggered.
    pub fn cached_io(&self, addr: u16) -> (r: Option<(Vec<i32>, Vec<i32>)>)
        ensures
            match r {
                Some(io) => self.fu_io_cache.spec_get(addr as u32) matches Some(c) && c.0@ == io.0@
                    && c.1@ == io.1@,
                None => self.fu_io_cache.spec_get(addr as u32) is None,
            },
    {
        match self.fu_io_cache.index_of(addr as u32) {
            Some(i) => {
                let e: &(u32, (Vec<i32>, Vec<i32>)) = &self.fu_io_cache.entries[i];
                Some((fx_copy(&e.1.0), fx_copy(&e.1.1)))
            },
            None => None,
        }
    }
}

/// Two region maps hold the same entries.
pub open spec fn same_map<V>(a: SparseMap<V>, b: SparseMap<V>) -> bool {
    a.entries@ == b.entries@
}

/// How one write relates the bus before and after: the untouched regions
/// are unchanged, and the touched region changes exactly at the written
/// address, as decided by the region of `addr` and the checks of
/// `write_target`.
pub open spec fn write_rel(pre: SystemBus, post: SystemBus, addr: u16, data: Seq<i32>) -> bool {
    if addr < 0x1000 {
        &&& same_map(post.units, pre.units)
        &&& same_map(post.ram, pre.ram)
        &&& same_map(post.mmio, pre.mmio)
        &&& same_map(post.fu_io_cache, pre.fu_io_cache)
        &&& match pre.registers.spec_get(addr as u32) {
            Some(r0) => {
                &&& post.registers.spec_get(addr as u32) matches Some(r1) && r1.width == r0.width
                    && r1.state@ == (if data.len() == r0.width {
                    data
                } else {
                    r0.state@
                })
                &&& forall|k: u32|
                    k != addr as u32 ==> post.registers.spec_get(k) == pre.registers.spec_get(k)
            },
            None => same_map(post.registers, pre.registers),
        }
    } else if addr < 0x2000 {
        &&& same_map(post.registers, pre.registers)
        &&& same_map(post.ram, pre.ram)
        &&& same_map(post.mmio, pre.mmio)
        &&& match pre.units.spec_get(addr as u32) {
            Some(u0) => if u0.accepts(data.len() as int) {
                &&& post.units.spec_get(addr as u32) matches Some(u1) && fu_step_rel(u0, u1, data)
                &&& forall|k: u32|
                    k != addr as u32 ==> post.units.spec_get(k) == pre.units.spec_get(k)
                &&& post.fu_io_cache.spec_get(addr as u32) matches Some(io) && io.0@ == data
                    && io.1@ == u0.out_of(data)
                &&& forall|k: u32|
                    k != addr as u32 ==> post.fu_io_cache.spec_get(k) == pre.fu_io_cache.spec_get(
                        k,
                    )
            } else {
                &&& same_map(post.units, pre.units)
                &&& same_map(post.fu_io_cache, pre.fu_io_cache)
            },
            None => same_map(post.units, pre.units) && same_map(post.fu_io_cache, pre.fu_io_cache),
        }
    } else if addr < 0x8000 {
        &&& same_map(post.registers, pre.registers)
        &&& same_map(post.units, pre.units)
        &&& same_map(post.mmio, pre.mmio)
        &&& same_map(post.fu_io_cache, pre.fu_io_cache)
        &&& post.ram.spec_get(addr as u32) matches Some(v) && v@ == data
        &&& forall|k: u32| k != addr as u32 ==> post.ram.spec_get(k) == pre.ram.spec_get(k)
    } else {
        &&& same_map(post.registers, pre.registers)
        &&& same_map(post.ram, pre.ram)
        &&& same_map(post.units, pre.units)
        &&& match pre.mmio.spec_get(addr as u32) {
            Some(u0) => if u0.accepts(data.len() as int) {
                &&& post.mmio.spec_get(addr as u32) matches Some(u1) && fu_step_rel(u0, u1, data)
                &&& forall|k: u32|
                    k != addr as u32 ==> post.mmio.spec_get(k) == pre.mmio.spec_get(k)
                &&& post.fu_io_cache.spec_get(addr as u32) matches Some(io) && io.0@ == data
                    && io.1@ == u0.out_of(data)
                &&& forall|k: u32|
                    k != addr as u32 ==> post.fu_io_cache.spec_get(k) == pre.fu_io_cache.spec_get(
                        k,
                    )
            } else {
                &&& same_map(post.mmio, pre.mmio)
                &&& same_map(post.fu_io_cache, pre.fu_io_cache)
            },
            None => same_map(post.mmio, pre.mmio) && same_map(post.fu_io_cache, pre.fu_io_cache),
        }
    }
}

} // verus!
