//! Building a complete system from a manifest: the plain-data model of the
//! manifest file, and the assembly of a fully populated bus from it.
//!
//! Reading and parsing the manifest file is the surrounding program's job;
//! this module takes the parsed plain values and owes the emulator
//! constructor a fully populated bus: registers 0 through 15 at width 8,
//! the initial RAM image, and one unit per declaration, placed by its
//! address region.

use vstd::prelude::*;

use crate::bus::SystemBus;
use crate::fu::BaseFU;
use crate::fu::ConsoleFU;
use crate::fu::FunctionalUnit;
use crate::fx::zeros_seq;
use crate::system::SystemEmulator;

verus! {

/// The fixed small set of unit-type tags a manifest may declare.
#[derive(Clone, Copy, Debug, PartialEq, Eq, Structural)]
pub enum UnitKind {
    Comparator,
    Bitwise,
    Console,
    Generic,
}

/// One unit declaration: a name for display, a 16-bit address, a type tag,
/// and an optional path to a weights file (resolved by the caller).
pub struct UnitConfig {
    pub name: String,
    pub address: u16,
    pub unit_type: UnitKind,
    pub weights_path: Option<String>,
}

/// The system manifest: RAM size, unit declarations, an optional program
/// file path (resolved by the caller), and an initial RAM image.
pub struct Manifest {
    pub ram_size: usize,
    pub units: Vec<UnitConfig>,
    pub program_path: Option<String>,
    pub ram_init: Vec<(u16, Vec<i32>)>,
}

/// The last value an initial RAM image assigns to address `k`, if any.
pub open spec fn init_ram_lookup(s: Seq<(u16, Vec<i32>)>, k: u32) -> Option<Seq<i32>>
    decreases s.len(),
{
    if s.len() == 0 {
        None
    } else if s.last().0 as u32 == k {
        Some(s.last().1@)
    } else {
        init_ram_lookup(s.drop_last(), k)
    }
}

/// Whether a functional unit is what a unit-type tag declares: the
/// trainable presets by their shapes, the console device by its variant.
pub open spec fn kind_matches(u: FunctionalUnit, k: UnitKind) -> bool {
    match k {
        UnitKind::Comparator => u matches FunctionalUnit::Trainable(b) && b.in_size() == 16
            && b.out_size() == 3,
        UnitKind::Bitwise => u matches FunctionalUnit::Trainable(b) && b.in_size() == 19
            && b.out_size() == 8,
        UnitKind::Console => u matches FunctionalUnit::Console(_),
        UnitKind::Generic => u matches FunctionalUnit::Trainable(_),
    }
}

/// Assemble a fully populated system from a parsed manifest: registers 0
/// through 15 at width 8, the initial RAM image (later entries win), and
/// one unit per declaration, mapped into the device region at and above
/// 0x8000 and into the unit region below it.  Declared weights files are
/// left to the caller; declared units start untrained.
pub fn build_system(manifest: &Manifest) -> (r: SystemEmulator)
    ensures
        r.wf(),
        r.program@.len() == 0,
        r.pc == 0,
        r.total_steps == 0,
        forall|a: u16|
            a < 16 ==> (#[trigger] r.bus.registers.spec_get(a as u32) matches Some(reg)
                && reg.wf() && reg.width == 8 && reg.state@ == zeros_seq(8)),
        forall|k: u32|
            (#[trigger] r.bus.ram.spec_get(k) matches Some(v) && init_ram_lookup(
                manifest.ram_init@,
                k,
            ) == Some(v@)) || (r.bus.ram.spec_get(k) is None && init_ram_lookup(
                manifest.ram_init@,
                k,
            ) is None),
        forall|j: int|
            0 <= j < manifest.units@.len() && (forall|j2: int|
                j < j2 < manifest.units@.len() ==> (#[trigger] manifest.units@[j2]).address
                    != manifest.units@[j].address) ==> {
                let cfg = #[trigger] manifest.units@[j];
                if cfg.address >= 0x8000 {
                    r.bus.mmio.spec_get(cfg.address as u32) matches Some(u) && kind_matches(
                        u,
                        cfg.unit_type,
                    )
                } else {
                    r.bus.units.spec_get(cfg.address as u32) matches Some(u) && kind_matches(
                        u,
                        cfg.unit_type,
                    )
                }
            },
{
    let mut bus = SystemBus::new();
    let rn: usize = manifest.ram_init.len();
    for i in 0..rn
        invariant
            bus.wf(),
            rn == manifest.ram_init@.len(),
            forall|k: u32|
                (#[trigger] bus.ram.spec_get(k) matches Some(v) && init_ram_lookup(
                    manifest.ram_init@.take(i as int),
                    k,
                ) == Some(v@)) || (bus.ram.spec_get(k) is None && init_ram_lookup(
                    manifest.ram_init@.take(i as int),
                    k,
                ) is None),
            forall|k: u32| bus.registers.spec_get(k) is None,
            forall|k: u32| bus.units.spec_get(k) is None,
            forall|k: u32| bus.mmio.spec_get(k) is None,
    {
        let entry: &(u16, Vec<i32>) = &manifest.ram_init[i];
        bus.ram.insert(entry.0 as u32, crate::fx::fx_copy(&entry.1));
        proof {
            let tp = manifest.ram_init@.take(i + 1);
            assert(tp.drop_last() =~= manifest.ram_init@.take(i as int));
            assert(tp.last() == manifest.ram_init@[i as int]);
        }
    }
    proof {
        assert(manifest.ram_init@.take(rn as int) =~= manifest.ram_init@);
    }
    for i in 0..16u16
        invariant
            bus.wf(),
            forall|a: u16|
                a < i ==> (#[trigger] bus.registers.spec_get(a as u32) matches Some(reg)
                    && reg.wf() && reg.width == 8 && reg.state@ == zeros_seq(8)),
            forall|k: u32|
                (#[trigger] bus.ram.spec_get(k) matches Some(v) && init_ram_lookup(
                    manifest.ram_init@,
                    k,
                ) == Some(v@)) || (bus.ram.spec_get(k) is None && init_ram_lookup(
                    manifest.ram_init@,
                    k,
                ) is None),
            forall|k: u32| bus.units.spec_get(k) is None,
            forall|k: u32| bus.mmio.spec_get(k) is None,
    {
        bus.add_register(i, 8);
    }
    let un: usize = manifest.units.len();
    for i in 0..un
        invariant
            bus.wf(),
            un == manifest.units@.len(),
            forall|a: u16|
                a < 16 ==> (#[trigger] bus.registers.spec_get(a as u32) matches Some(reg)
                    && reg.wf() && reg.width == 8 && reg.state@ == zeros_seq(8)),
            forall|k: u32|
                (#[trigger] bus.ram.spec_get(k) matches Some(v) && init_ram_lookup(
                    manifest.ram_init@,
                    k,
                ) == Some(v@)) || (bus.ram.spec_get(k) is None && init_ram_lookup(
                    manifest.ram_init@,
                    k,
                ) is None),
            forall|j: int|
                0 <= j < i && (forall|j2: int|
                    j < j2 < i ==> (#[trigger] manifest.units@[j2]).address
                        != manifest.units@[j].address) ==> {
                    let cfg = #[trigger] manifest.units@[j];
                    if cfg.address >= 0x8000 {
                        bus.mmio.spec_get(cfg.address as u32) matches Some(u) && kind_matches(
                            u,
                            cfg.unit_type,
                        )
                    } else {
                        bus.units.spec_get(cfg.address as u32) matches Some(u) && kind_matches(
                            u,
                            cfg.unit_type,
                        )
                    }
                },
    {
        let cfg: &UnitConfig = &manifest.units[i];
        let unit: FunctionalUnit = match cfg.unit_type {
            UnitKind::Comparator => FunctionalUnit::Trainable(BaseFU::create_comparator()),
            UnitKind::Bitwise => FunctionalUnit::Trainable(BaseFU::create_bitwise()),
            UnitKind::Console => FunctionalUnit::Console(ConsoleFU::new()),
            UnitKind::Generic => FunctionalUnit::Trainable(BaseFU::create_random(8, 8, 8)),
        };
        if cfg.address >= 0x8000 {
            bus.add_mmio(cfg.address, unit);
        } else {
            bus.add_unit(cfg.address, unit);
        }
    }
    SystemEmulator::new(bus)
}

} // verus!
