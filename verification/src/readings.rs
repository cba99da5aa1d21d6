//! Which reading of a LibreHardwareMonitor plan fills each sensor field.
//!
//! The plan (see `lhm`) lists the routed readings in tree order. Folding it
//! follows fixed precedence rules: an authoritative package temperature
//! overwrites, a fallback one only fills an empty field; a preferred GPU or
//! drive temperature overwrites, another only fills; the fan duty is set
//! once; GPU sub-rail powers count only while no board total is known;
//! drive and memory-module readings go to the most recently opened device.
//! Here the fold is carried out over reading positions; only the arithmetic
//! on the fractional values is left to the caller, as is whether a reading's
//! value could be read at all (`usable`).

use crate::lhm::{events_view, CpuTempClass, EventSpec, LeafRoute, LhmEvent};
use vstd::prelude::*;

verus! {

/// How a drive's remaining life is known.
#[derive(Clone, Copy, Debug, PartialEq, Eq, Structural)]
pub enum LifePick {
    /// A `Life` reading.
    Direct(usize),
    /// Derived from a SMART "Percentage Used" reading as `100 - value`.
    FromUsed(usize),
}

/// The readings of one drive, by plan position.
#[derive(Clone, Copy, Debug, PartialEq, Eq, Structural)]
pub struct StoragePicks {
    /// The event that opened the drive (it carries the device name).
    pub open: usize,
    pub temp: Option<usize>,
    pub used_space: Option<usize>,
    pub life: Option<LifePick>,
    pub total_space: Option<usize>,
    pub free_space: Option<usize>,
}

/// The readings of one memory module, by plan position.
#[derive(Clone, Copy, Debug, PartialEq, Eq, Structural)]
pub struct DimmPicks {
    /// The event that opened the module (it carries the slot name).
    pub open: usize,
    pub temp: Option<usize>,
    pub capacity: Option<usize>,
}

/// Plan positions of the readings that fill each field. Lists keep plan
/// order; the caller sums the partial powers and takes the largest encoder
/// and decoder loads (from zero).
#[derive(Debug)]
pub struct LhmPicks {
    pub cpu_package_temp: Option<usize>,
    pub cpu_core_temps: Vec<usize>,
    pub cpu_package_power: Option<usize>,
    pub cpu_cores_power: Option<usize>,
    pub cpu_core_powers: Vec<usize>,
    pub cpu_fans: Vec<usize>,
    pub gpu_name: Option<usize>,
    pub gpu_temp: Option<usize>,
    pub gpu_total_power: Option<usize>,
    pub gpu_partial_powers: Vec<usize>,
    pub gpu_fan_duty: Option<usize>,
    pub gpu_fans: Vec<usize>,
    pub gpu_load: Option<usize>,
    pub gpu_encoder_loads: Vec<usize>,
    pub gpu_decoder_loads: Vec<usize>,
    pub gpu_graphics_clock: Option<usize>,
    pub gpu_memory_clock: Option<usize>,
    pub gpu_video_clock: Option<usize>,
    pub gpu_mem_used: Option<usize>,
    pub gpu_mem_free: Option<usize>,
    pub gpu_mem_total: Option<usize>,
    pub storages: Vec<StoragePicks>,
    pub dimms: Vec<DimmPicks>,
}

/// `LhmPicks` as plain values.
#[verifier::ext_equal]
pub struct PicksView {
    pub cpu_package_temp: Option<usize>,
    pub cpu_core_temps: Seq<usize>,
    pub cpu_package_power: Option<usize>,
    pub cpu_cores_power: Option<usize>,
    pub cpu_core_powers: Seq<usize>,
    pub cpu_fans: Seq<usize>,
    pub gpu_name: Option<usize>,
    pub gpu_temp: Option<usize>,
    pub gpu_total_power: Option<usize>,
    pub gpu_partial_powers: Seq<usize>,
    pub gpu_fan_duty: Option<usize>,
    pub gpu_fans: Seq<usize>,
    pub gpu_load: Option<usize>,
    pub gpu_encoder_loads: Seq<usize>,
    pub gpu_decoder_loads: Seq<usize>,
    pub gpu_graphics_clock: Option<usize>,
    pub gpu_memory_clock: Option<usize>,
    pub gpu_video_clock: Option<usize>,
    pub gpu_mem_used: Option<usize>,
    pub gpu_mem_free: Option<usize>,
    pub gpu_mem_total: Option<usize>,
    pub storages: Seq<StoragePicks>,
    pub dimms: Seq<DimmPicks>,
}

impl View for LhmPicks {
    type V = PicksView;

    open spec fn view(&self) -> PicksView {
        PicksView {
            cpu_package_temp: self.cpu_package_temp,
            cpu_core_temps: self.cpu_core_temps@,
            cpu_package_power: self.cpu_package_power,
            cpu_cores_power: self.cpu_cores_power,
            cpu_core_powers: self.cpu_core_powers@,
            cpu_fans: self.cpu_fans@,
            gpu_name: self.gpu_name,
            gpu_temp: self.gpu_temp,
            gpu_total_power: self.gpu_total_power,
            gpu_partial_powers: self.gpu_partial_powers@,
            gpu_fan_duty: self.gpu_fan_duty,
            gpu_fans: self.gpu_fans@,
            gpu_load: self.gpu_load,
            gpu_encoder_loads: self.gpu_encoder_loads@,
            gpu_decoder_loads: self.gpu_decoder_loads@,
            gpu_graphics_clock: self.gpu_graphics_clock,
            gpu_memory_clock: self.gpu_memory_clock,
            gpu_video_clock: self.gpu_video_clock,
            gpu_mem_used: self.gpu_mem_used,
            gpu_mem_free: self.gpu_mem_free,
            gpu_mem_total: self.gpu_mem_total,
            storages: self.storages@,
            dimms: self.dimms@,
        }
    }
}

/// Nothing picked yet.
pub open spec fn no_picks() -> PicksView {
    PicksView {
        cpu_package_temp: None,
        cpu_core_temps: seq![],
        cpu_package_power: None,
        cpu_cores_power: None,
        cpu_core_powers: seq![],
        cpu_fans: seq![],
        gpu_name: None,
        gpu_temp: None,
        gpu_total_power: None,
        gpu_partial_powers: seq![],
        gpu_fan_duty: None,
        gpu_fans: seq![],
        gpu_load: None,
        gpu_encoder_loads: seq![],
        gpu_decoder_loads: seq![],
        gpu_graphics_clock: None,
        gpu_memory_clock: None,
        gpu_video_clock: None,
        gpu_mem_used: None,
        gpu_mem_free: None,
        gpu_mem_total: None,
        storages: seq![],
        dimms: seq![],
    }
}

/// The picks with the last drive changed by `f`; unchanged when no drive is open.
pub open spec fn on_last_storage(p: PicksView, f: spec_fn(StoragePicks) -> StoragePicks) -> PicksView {
    if p.storages.len() > 0 {
        PicksView { storages: p.storages.update(p.storages.len() - 1, f(p.storages.last())), ..p }
    } else {
        p
    }
}

/// The picks with the last memory module changed by `f`; unchanged when none is open.
pub open spec fn on_last_dimm(p: PicksView, f: spec_fn(DimmPicks) -> DimmPicks) -> PicksView {
    if p.dimms.len() > 0 {
        PicksView { dimms: p.dimms.update(p.dimms.len() - 1, f(p.dimms.last())), ..p }
    } else {
        p
    }
}

/// What a usable reading at position `i` does to the picks.
pub open spec fn route_step(p: PicksView, route: LeafRoute, i: usize) -> PicksView {
    match route {
        LeafRoute::CpuTemperature(CpuTempClass::PerCore) => PicksView {
            cpu_core_temps: p.cpu_core_temps.push(i),
            ..p
        },
        LeafRoute::CpuTemperature(CpuTempClass::Package) => PicksView {
            cpu_package_temp: Some(i),
            ..p
        },
        LeafRoute::CpuTemperature(CpuTempClass::PackageIfUnset) => if p.cpu_package_temp is None {
            PicksView { cpu_package_temp: Some(i), ..p }
        } else {
            p
        },
        LeafRoute::GpuTemperature { prefer } => if p.gpu_temp is None || prefer {
            PicksView { gpu_temp: Some(i), ..p }
        } else {
            p
        },
        LeafRoute::StorageTemperature { prefer } => on_last_storage(
            p,
            |s: StoragePicks|
                if s.temp is None || prefer {
                    StoragePicks { temp: Some(i), ..s }
                } else {
                    s
                },
        ),
        LeafRoute::DimmTemperature => on_last_dimm(p, |d: DimmPicks| DimmPicks { temp: Some(i), ..d }),
        LeafRoute::GpuFan => PicksView { gpu_fans: p.gpu_fans.push(i), ..p },
        LeafRoute::CpuFan => PicksView { cpu_fans: p.cpu_fans.push(i), ..p },
        LeafRoute::CpuPackagePower => PicksView { cpu_package_power: Some(i), ..p },
        LeafRoute::CpuCoresPower => PicksView { cpu_cores_power: Some(i), ..p },
        LeafRoute::CpuPerCorePower => PicksView { cpu_core_powers: p.cpu_core_powers.push(i), ..p },
        LeafRoute::GpuTotalPower => PicksView { gpu_total_power: Some(i), ..p },
        LeafRoute::GpuPartialPower => if p.gpu_total_power is None {
            PicksView { gpu_partial_powers: p.gpu_partial_powers.push(i), ..p }
        } else {
            p
        },
        LeafRoute::GpuFanDuty => if p.gpu_fan_duty is None {
            PicksView { gpu_fan_duty: Some(i), ..p }
        } else {
            p
        },
        LeafRoute::GpuLoad => PicksView { gpu_load: Some(i), ..p },
        LeafRoute::GpuEncoderLoad => PicksView {
            gpu_encoder_loads: p.gpu_encoder_loads.push(i),
            ..p
        },
        LeafRoute::GpuDecoderLoad => PicksView {
            gpu_decoder_loads: p.gpu_decoder_loads.push(i),
            ..p
        },
        LeafRoute::GpuGraphicsClock => PicksView { gpu_graphics_clock: Some(i), ..p },
        LeafRoute::GpuMemoryClock => PicksView { gpu_memory_clock: Some(i), ..p },
        LeafRoute::GpuVideoClock => PicksView { gpu_video_clock: Some(i), ..p },
        LeafRoute::GpuMemoryUsed => PicksView { gpu_mem_used: Some(i), ..p },
        LeafRoute::GpuMemoryFree => PicksView { gpu_mem_free: Some(i), ..p },
        LeafRoute::GpuMemoryTotal => PicksView { gpu_mem_total: Some(i), ..p },
        LeafRoute::StorageUsedSpace => on_last_storage(
            p,
            |s: StoragePicks| StoragePicks { used_space: Some(i), ..s },
        ),
        LeafRoute::StorageLife => on_last_storage(
            p,
            |s: StoragePicks| StoragePicks { life: Some(LifePick::Direct(i)), ..s },
        ),
        LeafRoute::StorageLifeFromUsed => on_last_storage(
            p,
            |s: StoragePicks|
                if s.life is None {
                    StoragePicks { life: Some(LifePick::FromUsed(i)), ..s }
                } else {
                    s
                },
        ),
        LeafRoute::StorageTotalSpace => on_last_storage(
            p,
            |s: StoragePicks| StoragePicks { total_space: Some(i), ..s },
        ),
        LeafRoute::StorageFreeSpace => on_last_storage(
            p,
            |s: StoragePicks| StoragePicks { free_space: Some(i), ..s },
        ),
        LeafRoute::DimmCapacity => on_last_dimm(
            p,
            |d: DimmPicks| DimmPicks { capacity: Some(i), ..d },
        ),
    }
}

/// What the event at position `i` does to the picks; a reading whose value
/// could not be read does nothing.
pub open spec fn pick_step(p: PicksView, e: EventSpec, usable: bool, i: usize) -> PicksView {
    match e {
        EventSpec::GpuName(_) => PicksView { gpu_name: Some(i), ..p },
        EventSpec::OpenStorage(_) => PicksView {
            storages: p.storages.push(
                StoragePicks {
                    open: i,
                    temp: None,
                    used_space: None,
                    life: None,
                    total_space: None,
                    free_space: None,
                },
            ),
            ..p
        },
        EventSpec::OpenDimm(_) => PicksView {
            dimms: p.dimms.push(DimmPicks { open: i, temp: None, capacity: None }),
            ..p
        },
        EventSpec::Reading { route, .. } => if usable {
            route_step(p, route, i)
        } else {
            p
        },
    }
}

/// The picks after the first `n` events of the plan.
pub open spec fn picks_upto(plan: Seq<EventSpec>, usable: Seq<bool>, n: nat) -> PicksView
    decreases n,
{
    if n == 0 {
        no_picks()
    } else {
        pick_step(
            picks_upto(plan, usable, (n - 1) as nat),
            plan[n - 1],
            usable[n - 1],
            (n - 1) as usize,
        )
    }
}

fn set_last_storage(picks: &mut LhmPicks, s: StoragePicks)
    requires
        old(picks).storages@.len() > 0,
    ensures
        final(picks)@ == (PicksView {
            storages: old(picks)@.storages.update(old(picks)@.storages.len() - 1, s),
            ..old(picks)@
        }),
{
    let k = picks.storages.len() - 1;
    picks.storages.set(k, s);
    assert(picks@ =~= (PicksView {
        storages: old(picks)@.storages.update(old(picks)@.storages.len() - 1, s),
        ..old(picks)@
    }));
}

fn set_last_dimm(picks: &mut LhmPicks, d: DimmPicks)
    requires
        old(picks).dimms@.len() > 0,
    ensures
        final(picks)@ == (PicksView {
            dimms: old(picks)@.dimms.update(old(picks)@.dimms.len() - 1, d),
            ..old(picks)@
        }),
{
    let k = picks.dimms.len() - 1;
    picks.dimms.set(k, d);
    assert(picks@ =~= (PicksView {
        dimms: old(picks)@.dimms.update(old(picks)@.dimms.len() - 1, d),
        ..old(picks)@
    }));
}

fn apply_route(picks: &mut LhmPicks, route: LeafRoute, i: usize)
    ensures
        final(picks)@ == route_step(old(picks)@, route, i),
{
    let ghost p = picks@;
    let ns = picks.storages.len();
    let nd = picks.dimms.len();
    match route {
        LeafRoute::CpuTemperature(CpuTempClass::PerCore) => picks.cpu_core_temps.push(i),
        LeafRoute::CpuTemperature(CpuTempClass::Package) => picks.cpu_package_temp = Some(i),
        LeafRoute::CpuTemperature(CpuTempClass::PackageIfUnset) => {
            if picks.cpu_package_temp.is_none() {
                picks.cpu_package_temp = Some(i);
            }
        },
        LeafRoute::GpuTemperature { prefer } => {
            if picks.gpu_temp.is_none() || prefer {
                picks.gpu_temp = Some(i);
            }
        },
        LeafRoute::StorageTemperature { prefer } => {
            if ns > 0 {
                let s = picks.storages[ns - 1];
                if s.temp.is_none() || prefer {
                    set_last_storage(picks, StoragePicks { temp: Some(i), ..s });
                }
            }
        },
        LeafRoute::DimmTemperature => {
            if nd > 0 {
                let d = picks.dimms[nd - 1];
                set_last_dimm(picks, DimmPicks { temp: Some(i), ..d });
            }
        },
        LeafRoute::GpuFan => picks.gpu_fans.push(i),
        LeafRoute::CpuFan => picks.cpu_fans.push(i),
        LeafRoute::CpuPackagePower => picks.cpu_package_power = Some(i),
        LeafRoute::CpuCoresPower => picks.cpu_cores_power = Some(i),
        LeafRoute::CpuPerCorePower => picks.cpu_core_powers.push(i),
        LeafRoute::GpuTotalPower => picks.gpu_total_power = Some(i),
        LeafRoute::GpuPartialPower => {
            if picks.gpu_total_power.is_none() {
                picks.gpu_partial_powers.push(i);
            }
        },
        LeafRoute::GpuFanDuty => {
            if picks.gpu_fan_duty.is_none() {
                picks.gpu_fan_duty = Some(i);
            }
        },
        LeafRoute::GpuLoad => picks.gpu_load = Some(i),
        LeafRoute::GpuEncoderLoad => picks.gpu_encoder_loads.push(i),
        LeafRoute::GpuDecoderLoad => picks.gpu_decoder_loads.push(i),
        LeafRoute::GpuGraphicsClock => picks.gpu_graphics_clock = Some(i),
        LeafRoute::GpuMemoryClock => picks.gpu_memory_clock = Some(i),
        LeafRoute::GpuVideoClock => picks.gpu_video_clock = Some(i),
        LeafRoute::GpuMemoryUsed => picks.gpu_mem_used = Some(i),
        LeafRoute::GpuMemoryFree => picks.gpu_mem_free = Some(i),
        LeafRoute::GpuMemoryTotal => picks.gpu_mem_total = Some(i),
        LeafRoute::StorageUsedSpace => {
            if ns > 0 {
                let s = picks.storages[ns - 1];
                set_last_storage(picks, StoragePicks { used_space: Some(i), ..s });
            }
        },
        LeafRoute::StorageLife => {
            if ns > 0 {
                let s = picks.storages[ns - 1];
                set_last_storage(picks, StoragePicks { life: Some(LifePick::Direct(i)), ..s });
            }
        },
        LeafRoute::StorageLifeFromUsed => {
            if ns > 0 {
                let s = picks.storages[ns - 1];
                if s.life.is_none() {
                    set_last_storage(
                        picks,
                        StoragePicks { life: Some(LifePick::FromUsed(i)), ..s },
                    );
                }
            }
        },
        LeafRoute::StorageTotalSpace => {
            if ns > 0 {
                let s = picks.storages[ns - 1];
                set_last_storage(picks, StoragePicks { total_space: Some(i), ..s });
            }
        },
        LeafRoute::StorageFreeSpace => {
            if ns > 0 {
                let s = picks.storages[ns - 1];
                set_last_storage(picks, StoragePicks { free_space: Some(i), ..s });
            }
        },
        LeafRoute::DimmCapacity => {
            if nd > 0 {
                let d = picks.dimms[nd - 1];
                set_last_dimm(picks, DimmPicks { capacity: Some(i), ..d });
            }
        },
    }
    assert(picks@ =~= route_step(p, route, i));
}

/// Folds a plan into the positions of the readings that fill each field.
/// `usable[i]` tells whether the value of reading `i` could be read (for a
/// data-size reading, also its size).
pub fn resolve_readings(plan: &Vec<LhmEvent>, usable: &Vec<bool>) -> (r: LhmPicks)
    requires
        usable@.len() == plan@.len(),
    ensures
        r@ == picks_upto(events_view(plan@), usable@, plan@.len()),
{
    let mut picks = LhmPicks {
        cpu_package_temp: None,
        cpu_core_temps: Vec::new(),
        cpu_package_power: None,
        cpu_cores_power: None,
        cpu_core_powers: Vec::new(),
        cpu_fans: Vec::new(),
        gpu_name: None,
        gpu_temp: None,
        gpu_total_power: None,
        gpu_partial_powers: Vec::new(),
        gpu_fan_duty: None,
        gpu_fans: Vec::new(),
        gpu_load: None,
        gpu_encoder_loads: Vec::new(),
        gpu_decoder_loads: Vec::new(),
        gpu_graphics_clock: None,
        gpu_memory_clock: None,
        gpu_video_clock: None,
        gpu_mem_used: None,
        gpu_mem_free: None,
        gpu_mem_total: None,
        storages: Vec::new(),
        dimms: Vec::new(),
    };
    assert(picks@ =~= no_picks());
    let ghost ev = events_view(plan@);
    let n = plan.len();
    for i in 0..n
        invariant
            n == plan@.len(),
            usable@.len() == n,
            ev == events_view(plan@),
            picks@ == picks_upto(ev, usable@, i as nat),
    {
        let ghost p = picks@;
        assert(ev[i as int] == plan@[i as int]@);
        match &plan[i] {
            LhmEvent::GpuName(_) => {
                picks.gpu_name = Some(i);
            },
            LhmEvent::OpenStorage(_) => {
                picks.storages.push(
                    StoragePicks {
                        open: i,
                        temp: None,
                        used_space: None,
                        life: None,
                        total_space: None,
                        free_space: None,
                    },
                );
            },
            LhmEvent::OpenDimm(_) => {
                picks.dimms.push(DimmPicks { open: i, temp: None, capacity: None });
            },
            LhmEvent::Reading { route, .. } => {
                if usable[i] {
                    apply_route(&mut picks, *route, i);
                }
            },
        }
        assert(picks@ =~= pick_step(p, ev[i as int], usable@[i as int], i));
    }
    picks
}

/// The event at position `k` is a usable reading routed to `r`.
pub open spec fn reading_at(plan: Seq<EventSpec>, usable: Seq<bool>, k: int, r: LeafRoute) -> bool {
    usable[k] && (plan[k] matches EventSpec::Reading { route, .. } && route == r)
}

/// The position of the last usable reading routed to `r` among the first `n` events.
pub open spec fn last_at(plan: Seq<EventSpec>, usable: Seq<bool>, n: nat, r: LeafRoute) -> Option<
    usize,
>
    decreases n,
{
    if n == 0 {
        None
    } else if reading_at(plan, usable, n - 1, r) {
        Some((n - 1) as usize)
    } else {
        last_at(plan, usable, (n - 1) as nat, r)
    }
}

/// The position of the first usable reading routed to `r` among the first `n` events.
pub open spec fn first_at(plan: Seq<EventSpec>, usable: Seq<bool>, n: nat, r: LeafRoute) -> Option<
    usize,
>
    decreases n,
{
    if n == 0 {
        None
    } else if first_at(plan, usable, (n - 1) as nat, r) is Some {
        first_at(plan, usable, (n - 1) as nat, r)
    } else if reading_at(plan, usable, n - 1, r) {
        Some((n - 1) as usize)
    } else {
        None
    }
}

/// An overriding reading wins over a fallback one: the last overriding
/// reading if there is one, else the first fallback reading.
pub open spec fn override_or_first(
    plan: Seq<EventSpec>,
    usable: Seq<bool>,
    n: nat,
    over: LeafRoute,
    fallback: LeafRoute,
) -> Option<usize> {
    match last_at(plan, usable, n, over) {
        Some(k) => Some(k),
        None => first_at(plan, usable, n, fallback),
    }
}

/// The precedence rules, stated directly: the package temperature is the
/// last authoritative reading, else the first fallback one; the GPU
/// temperature is the last preferred reading, else the first other one; the
/// GPU fan duty is the first duty reading; the board power is the last
/// board-total reading.
pub proof fn law_lhm_precedence(plan: Seq<EventSpec>, usable: Seq<bool>, n: nat)
    requires
        n <= plan.len(),
        usable.len() == plan.len(),
    ensures
        picks_upto(plan, usable, n).cpu_package_temp == override_or_first(
            plan,
            usable,
            n,
            LeafRoute::CpuTemperature(CpuTempClass::Package),
            LeafRoute::CpuTemperature(CpuTempClass::PackageIfUnset),
        ),
        picks_upto(plan, usable, n).gpu_temp == override_or_first(
            plan,
            usable,
            n,
            LeafRoute::GpuTemperature { prefer: true },
            LeafRoute::GpuTemperature { prefer: false },
        ),
        picks_upto(plan, usable, n).gpu_fan_duty == first_at(plan, usable, n, LeafRoute::GpuFanDuty),
        picks_upto(plan, usable, n).gpu_total_power == last_at(
            plan,
            usable,
            n,
            LeafRoute::GpuTotalPower,
        ),
    decreases n,
{
    if n > 0 {
        law_lhm_precedence(plan, usable, (n - 1) as nat);
    }
}

/// Position `k` holds a usable reading routed to `r`.
pub open spec fn is_reading(plan: Seq<EventSpec>, usable: Seq<bool>, k: usize, r: LeafRoute) -> bool {
    k < plan.len() && reading_at(plan, usable, k as int, r)
}

/// An optional pick, when present, is a usable reading routed to `r`.
pub open spec fn opt_is(plan: Seq<EventSpec>, usable: Seq<bool>, o: Option<usize>, r: LeafRoute) -> bool {
    o matches Some(k) ==> is_reading(plan, usable, k, r)
}

/// An optional pick, when present, is a usable reading routed to `r1` or `r2`.
pub open spec fn opt_is2(
    plan: Seq<EventSpec>,
    usable: Seq<bool>,
    o: Option<usize>,
    r1: LeafRoute,
    r2: LeafRoute,
) -> bool {
    o matches Some(k) ==> is_reading(plan, usable, k, r1) || is_reading(plan, usable, k, r2)
}

/// Every listed pick is a usable reading routed to `r`.
pub open spec fn all_are(plan: Seq<EventSpec>, usable: Seq<bool>, s: Seq<usize>, r: LeafRoute) -> bool {
    forall|j: int| 0 <= j < s.len() ==> is_reading(plan, usable, #[trigger] s[j], r)
}

/// A drive's picks point at what they claim: its opening event opens a
/// drive, and each of its fields holds a reading of that field's kind.
pub open spec fn storage_sound(plan: Seq<EventSpec>, usable: Seq<bool>, s: StoragePicks) -> bool {
    &&& s.open < plan.len() && plan[s.open as int] is OpenStorage
    &&& opt_is2(
        plan,
        usable,
        s.temp,
        LeafRoute::StorageTemperature { prefer: true },
        LeafRoute::StorageTemperature { prefer: false },
    )
    &&& opt_is(plan, usable, s.used_space, LeafRoute::StorageUsedSpace)
    &&& opt_is(plan, usable, s.total_space, LeafRoute::StorageTotalSpace)
    &&& opt_is(plan, usable, s.free_space, LeafRoute::StorageFreeSpace)
    &&& (s.life matches Some(LifePick::Direct(k)) ==> is_reading(plan, usable, k, LeafRoute::StorageLife))
    &&& (s.life matches Some(LifePick::FromUsed(k)) ==> is_reading(
        plan,
        usable,
        k,
        LeafRoute::StorageLifeFromUsed,
    ))
}

/// A module's picks point at what they claim.
pub open spec fn dimm_sound(plan: Seq<EventSpec>, usable: Seq<bool>, d: DimmPicks) -> bool {
    &&& d.open < plan.len() && plan[d.open as int] is OpenDimm
    &&& opt_is(plan, usable, d.temp, LeafRoute::DimmTemperature)
    &&& opt_is(plan, usable, d.capacity, LeafRoute::DimmCapacity)
}

/// Every field of the picks holds readings of its own kind only.
pub open spec fn picks_sound(plan: Seq<EventSpec>, usable: Seq<bool>, p: PicksView) -> bool {
    &&& opt_is2(
        plan,
        usable,
        p.cpu_package_temp,
        LeafRoute::CpuTemperature(CpuTempClass::Package),
        LeafRoute::CpuTemperature(CpuTempClass::PackageIfUnset),
    )
    &&& all_are(plan, usable, p.cpu_core_temps, LeafRoute::CpuTemperature(CpuTempClass::PerCore))
    &&& opt_is(plan, usable, p.cpu_package_power, LeafRoute::CpuPackagePower)
    &&& opt_is(plan, usable, p.cpu_cores_power, LeafRoute::CpuCoresPower)
    &&& all_are(plan, usable, p.cpu_core_powers, LeafRoute::CpuPerCorePower)
    &&& all_are(plan, usable, p.cpu_fans, LeafRoute::CpuFan)
    &&& (p.gpu_name matches Some(k) ==> k < plan.len() && plan[k as int] is GpuName)
    &&& opt_is2(
        plan,
        usable,
        p.gpu_temp,
        LeafRoute::GpuTemperature { prefer: true },
        LeafRoute::GpuTemperature { prefer: false },
    )
    &&& opt_is(plan, usable, p.gpu_total_power, LeafRoute::GpuTotalPower)
    &&& all_are(plan, usable, p.gpu_partial_powers, LeafRoute::GpuPartialPower)
    &&& opt_is(plan, usable, p.gpu_fan_duty, LeafRoute::GpuFanDuty)
    &&& all_are(plan, usable, p.gpu_fans, LeafRoute::GpuFan)
    &&& opt_is(plan, usable, p.gpu_load, LeafRoute::GpuLoad)
    &&& all_are(plan, usable, p.gpu_encoder_loads, LeafRoute::GpuEncoderLoad)
    &&& all_are(plan, usable, p.gpu_decoder_loads, LeafRoute::GpuDecoderLoad)
    &&& opt_is(plan, usable, p.gpu_graphics_clock, LeafRoute::GpuGraphicsClock)
    &&& opt_is(plan, usable, p.gpu_memory_clock, LeafRoute::GpuMemoryClock)
    &&& opt_is(plan, usable, p.gpu_video_clock, LeafRoute::GpuVideoClock)
    &&& opt_is(plan, usable, p.gpu_mem_used, LeafRoute::GpuMemoryUsed)
    &&& opt_is(plan, usable, p.gpu_mem_free, LeafRoute::GpuMemoryFree)
    &&& opt_is(plan, usable, p.gpu_mem_total, LeafRoute::GpuMemoryTotal)
    &&& forall|j: int| 0 <= j < p.storages.len() ==> storage_sound(plan, usable, #[trigger] p.storages[j])
    &&& forall|j: int| 0 <= j < p.dimms.len() ==> dimm_sound(plan, usable, #[trigger] p.dimms[j])
}

proof fn lemma_route_step_sound(plan: Seq<EventSpec>, usable: Seq<bool>, p: PicksView, i: usize, route: LeafRoute)
    requires
        picks_sound(plan, usable, p),
        is_reading(plan, usable, i, route),
    ensures
        picks_sound(plan, usable, route_step(p, route, i)),
{
    let q = route_step(p, route, i);
    if p.storages.len() > 0 {
        let last = p.storages.len() - 1;
        assert(storage_sound(plan, usable, p.storages[last]));
        assert forall|j: int| 0 <= j < q.storages.len() implies storage_sound(
            plan,
            usable,
            #[trigger] q.storages[j],
        ) by {
            if j != last {
                assert(q.storages[j] == p.storages[j]);
                assert(storage_sound(plan, usable, p.storages[j]));
            }
        }
    }
    if p.dimms.len() > 0 {
        let last = p.dimms.len() - 1;
        assert(dimm_sound(plan, usable, p.dimms[last]));
        assert forall|j: int| 0 <= j < q.dimms.len() implies dimm_sound(
            plan,
            usable,
            #[trigger] q.dimms[j],
        ) by {
            if j != last {
                assert(q.dimms[j] == p.dimms[j]);
                assert(dimm_sound(plan, usable, p.dimms[j]));
            }
        }
    }
    assert forall|j: int| 0 <= j < q.cpu_core_temps.len() implies is_reading(
        plan,
        usable,
        #[trigger] q.cpu_core_temps[j],
        LeafRoute::CpuTemperature(CpuTempClass::PerCore),
    ) by {
        if j < p.cpu_core_temps.len() {
            assert(q.cpu_core_temps[j] == p.cpu_core_temps[j]);
        }
    }
    assert forall|j: int| 0 <= j < q.cpu_core_powers.len() implies is_reading(
        plan,
        usable,
        #[trigger] q.cpu_core_powers[j],
        LeafRoute::CpuPerCorePower,
    ) by {
        if j < p.cpu_core_powers.len() {
            assert(q.cpu_core_powers[j] == p.cpu_core_powers[j]);
        }
    }
    assert forall|j: int| 0 <= j < q.cpu_fans.len() implies is_reading(
        plan,
        usable,
        #[trigger] q.cpu_fans[j],
        LeafRoute::CpuFan,
    ) by {
        if j < p.cpu_fans.len() {
            assert(q.cpu_fans[j] == p.cpu_fans[j]);
        }
    }
    assert forall|j: int| 0 <= j < q.gpu_partial_powers.len() implies is_reading(
        plan,
        usable,
        #[trigger] q.gpu_partial_powers[j],
        LeafRoute::GpuPartialPower,
    ) by {
        if j < p.gpu_partial_powers.len() {
            assert(q.gpu_partial_powers[j] == p.gpu_partial_powers[j]);
        }
    }
    assert forall|j: int| 0 <= j < q.gpu_fans.len() implies is_reading(
        plan,
        usable,
        #[trigger] q.gpu_fans[j],
        LeafRoute::GpuFan,
    ) by {
        if j < p.gpu_fans.len() {
            assert(q.gpu_fans[j] == p.gpu_fans[j]);
        }
    }
    assert forall|j: int| 0 <= j < q.gpu_encoder_loads.len() implies is_reading(
        plan,
        usable,
        #[trigger] q.gpu_encoder_loads[j],
        LeafRoute::GpuEncoderLoad,
    ) by {
        if j < p.gpu_encoder_loads.len() {
            assert(q.gpu_encoder_loads[j] == p.gpu_encoder_loads[j]);
        }
    }
    assert forall|j: int| 0 <= j < q.gpu_decoder_loads.len() implies is_reading(
        plan,
        usable,
        #[trigger] q.gpu_decoder_loads[j],
        LeafRoute::GpuDecoderLoad,
    ) by {
        if j < p.gpu_decoder_loads.len() {
            assert(q.gpu_decoder_loads[j] == p.gpu_decoder_loads[j]);
        }
    }
}

/// Every pick points at an event of the right kind, whatever the plan: a
/// field filled from plan position `k` holds a usable reading routed to that
/// field (the package, GPU and drive temperatures to one of their two
/// routes), the GPU name comes from a GPU-name event, and each drive and
/// memory module is opened by an event that opens one. No reading is ever
/// filed under another field.
pub proof fn law_picks_hold_their_own_readings(plan: Seq<EventSpec>, usable: Seq<bool>, n: nat)
    requires
        n <= plan.len(),
        plan.len() <= usize::MAX,
        usable.len() == plan.len(),
    ensures
        picks_sound(plan, usable, picks_upto(plan, usable, n)),
    decreases n,
{
    if n > 0 {
        law_picks_hold_their_own_readings(plan, usable, (n - 1) as nat);
        let p = picks_upto(plan, usable, (n - 1) as nat);
        let i = (n - 1) as usize;
        assert(i as int == n - 1);
        let e = plan[n - 1];
        match e {
            EventSpec::Reading { route, .. } => {
                if usable[n - 1] {
                    lemma_route_step_sound(plan, usable, p, i, route);
                }
            },
            EventSpec::OpenStorage(_) => {
                let q = pick_step(p, e, usable[n - 1], i);
                assert forall|j: int| 0 <= j < q.storages.len() implies storage_sound(
                    plan,
                    usable,
                    #[trigger] q.storages[j],
                ) by {
                    if j < p.storages.len() {
                        assert(q.storages[j] == p.storages[j]);
                        assert(storage_sound(plan, usable, p.storages[j]));
                    }
                }
            },
            EventSpec::OpenDimm(_) => {
                let q = pick_step(p, e, usable[n - 1], i);
                assert forall|j: int| 0 <= j < q.dimms.len() implies dimm_sound(
                    plan,
                    usable,
                    #[trigger] q.dimms[j],
                ) by {
                    if j < p.dimms.len() {
                        assert(q.dimms[j] == p.dimms[j]);
                        assert(dimm_sound(plan, usable, p.dimms[j]));
                    }
                }
            },
            EventSpec::GpuName(_) => {},
        }
    }
}

/// A drive's size readings fill their own fields: a usable total-space
/// reading at position `n` sets the last open drive's total space to `n`,
/// and a free-space one its free space, each leaving the other field and
/// every other drive as they were.
pub proof fn law_storage_space_fields(plan: Seq<EventSpec>, usable: Seq<bool>, n: nat)
    requires
        n < plan.len(),
        plan.len() <= usize::MAX,
        usable.len() == plan.len(),
        usable[n as int],
        picks_upto(plan, usable, n).storages.len() > 0,
        plan[n as int] matches EventSpec::Reading { route, .. } && (route
            == LeafRoute::StorageTotalSpace || route == LeafRoute::StorageFreeSpace),
    ensures
        ({
            let p = picks_upto(plan, usable, n);
            let q = picks_upto(plan, usable, n + 1);
            let last = p.storages.len() - 1;
            &&& q.storages.len() == p.storages.len()
            &&& forall|j: int| 0 <= j < last ==> q.storages[j] == p.storages[j]
            &&& plan[n as int] matches EventSpec::Reading { route: LeafRoute::StorageTotalSpace, .. }
                ==> q.storages[last].total_space == Some(n as usize) && q.storages[last].free_space
                == p.storages[last].free_space
            &&& plan[n as int] matches EventSpec::Reading { route: LeafRoute::StorageFreeSpace, .. }
                ==> q.storages[last].free_space == Some(n as usize) && q.storages[last].total_space
                == p.storages[last].total_space
        }),
{
    let p = picks_upto(plan, usable, n);
    let q = picks_upto(plan, usable, n + 1);
    let i = n as usize;
    assert(i as int == n);
    assert(q == pick_step(p, plan[n as int], usable[n as int], i));
    let last = p.storages.len() - 1;
    let s = p.storages[last];
    match plan[n as int] {
        EventSpec::Reading { route: LeafRoute::StorageTotalSpace, .. } => {
            assert(q == route_step(p, LeafRoute::StorageTotalSpace, i));
            assert(q.storages == p.storages.update(last, StoragePicks { total_space: Some(i), ..s }));
        },
        EventSpec::Reading { route: LeafRoute::StorageFreeSpace, .. } => {
            assert(q == route_step(p, LeafRoute::StorageFreeSpace, i));
            assert(q.storages == p.storages.update(last, StoragePicks { free_space: Some(i), ..s }));
        },
        _ => {},
    }
}

/// The VRAM figures: the used size is the `used` reading's; the total is the
/// `total` reading's, or else used plus free when both are known.
pub open spec fn vram_spec(used: Option<u32>, free: Option<u32>, total: Option<u32>) -> (
    Option<u32>,
    Option<u32>,
) {
    (
        used,
        match total {
            Some(t) => Some(t),
            None => match (used, free) {
                (Some(u), Some(f)) => Some((u + f) as u32),
                _ => None,
            },
        },
    )
}

/// Derives `(used, total)` VRAM in megabytes from the picked sizes.
pub fn vram_totals(used: Option<u32>, free: Option<u32>, total: Option<u32>) -> (r: (
    Option<u32>,
    Option<u32>,
))
    requires
        total is None && used is Some && free is Some ==> used->0 + free->0 <= u32::MAX,
    ensures
        r == vram_spec(used, free, total),
{
    let t = match total {
        Some(t) => Some(t),
        None => match (used, free) {
            (Some(u), Some(f)) => Some(u + f),
            _ => None,
        },
    };
    (used, t)
}

} // verus!
