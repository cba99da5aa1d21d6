//! LibreHardwareMonitor's `data.json` sensor tree.
//!
//! Every node may carry a `HardwareId` (on hardware roots such as `/amdcpu/0`,
//! `/gpu-nvidia/0`, `/nvme/1`) and a sensor `Type` with a `Value` (on leaves).
//! Walking the tree depth first, each leaf is routed to the reading it feeds
//! according to the hardware it sits under, its sensor type and its lower-cased
//! name. The walk yields these routings in order as a plan; folding the plan
//! into numeric readings (which are fractional) is left to the caller.

use vstd::prelude::*;
use crate::text::{
    chars_of, contains, contains_spec, seq_views, starts_with, starts_with_spec, string_of,
    ws_split, ws_tokens, chars_eq, opt_view, occurs_at,
};

verus! {

/// One node of the tree as LHM publishes it.
pub struct LhmNode {
    pub text: String,
    pub value: String,
    pub hardware_id: String,
    pub sensor_type: String,
    pub children: Vec<LhmNode>,
}

#[derive(Clone, Copy, Debug, PartialEq, Eq, Structural)]
pub enum HardwareKind {
    Cpu,
    Gpu,
    Mainboard,
    Storage,
    MemoryDimm,
    Unknown,
}

/// The hardware kind that a `HardwareId` prefix names.
pub open spec fn kind_of_id(id: Seq<char>) -> HardwareKind {
    if starts_with_spec(id, "/amdcpu/"@) || starts_with_spec(id, "/intelcpu/"@) {
        HardwareKind::Cpu
    } else if starts_with_spec(id, "/gpu-"@) {
        HardwareKind::Gpu
    } else if id == "/motherboard"@ || starts_with_spec(id, "/lpc/"@) {
        HardwareKind::Mainboard
    } else if starts_with_spec(id, "/nvme/"@) || starts_with_spec(id, "/hdd/"@) || starts_with_spec(
        id,
        "/storage/"@,
    ) {
        HardwareKind::Storage
    } else if starts_with_spec(id, "/memory/dimm/"@) {
        HardwareKind::MemoryDimm
    } else {
        HardwareKind::Unknown
    }
}

/// How a CPU temperature reading is applied to the package temperature.
#[derive(Clone, Copy, Debug, PartialEq, Eq, Structural)]
pub enum CpuTempClass {
    /// Appended to the per-core temperatures (`Core #N`).
    PerCore,
    /// Authoritative package reading (`Package`, AMD `Tctl`/`Tdie`): always overwrites.
    Package,
    /// Fallback package reading: used only while no package temperature is known.
    PackageIfUnset,
}

/// Where one sensor leaf's reading goes.
#[derive(Clone, Copy, Debug, PartialEq, Eq, Structural)]
pub enum LeafRoute {
    CpuTemperature(CpuTempClass),
    /// GPU temperature; when `prefer` is false only while none is known.
    GpuTemperature { prefer: bool },
    /// Temperature of the most recently opened drive; when `prefer` is false
    /// only while none is known for it.
    StorageTemperature { prefer: bool },
    DimmTemperature,
    GpuFan,
    CpuFan,
    CpuPackagePower,
    CpuCoresPower,
    CpuPerCorePower,
    GpuTotalPower,
    /// A GPU sub-rail: accumulated while no board-total power is known.
    GpuPartialPower,
    /// GPU fan duty cycle, only while none is known.
    GpuFanDuty,
    GpuLoad,
    /// Encoder engine load: the largest seen.
    GpuEncoderLoad,
    /// Decoder engine load: the largest seen.
    GpuDecoderLoad,
    GpuGraphicsClock,
    GpuMemoryClock,
    GpuVideoClock,
    /// VRAM sizes, read from the value as a data size in megabytes.
    GpuMemoryUsed,
    GpuMemoryFree,
    GpuMemoryTotal,
    StorageUsedSpace,
    StorageLife,
    /// Remaining life derived from SMART "Percentage Used", only while none is known.
    StorageLifeFromUsed,
    /// Drive sizes, read from the value as a data size in gigabytes.
    StorageTotalSpace,
    StorageFreeSpace,
    DimmCapacity,
}

/// Classification of a CPU (or Super I/O) temperature by its lower-cased name.
pub open spec fn cpu_temp_class(n: Seq<char>) -> Option<CpuTempClass> {
    let per_core = contains_spec(n, "core #"@);
    let package = contains_spec(n, "package"@);
    let chiplet = contains_spec(n, "ccd"@);
    let overall = (contains_spec(n, "tctl"@) || contains_spec(n, "tdie"@)) && !chiplet;
    let aggregate = contains_spec(n, "max"@) || contains_spec(n, "average"@) || contains_spec(
        n,
        "avg"@,
    );
    if per_core {
        Some(CpuTempClass::PerCore)
    } else if package || overall {
        Some(CpuTempClass::Package)
    } else if chiplet || (!aggregate && contains_spec(n, "cpu"@)) {
        Some(CpuTempClass::PackageIfUnset)
    } else {
        None
    }
}

pub open spec fn is_cpu_like(k: HardwareKind) -> bool {
    k == HardwareKind::Cpu || k == HardwareKind::Mainboard
}

pub open spec fn is_data_type(ty: Seq<char>) -> bool {
    ty == "Data"@ || ty == "SmallData"@
}

pub open spec fn temperature_route(kind: HardwareKind, n: Seq<char>) -> Option<LeafRoute> {
    if is_cpu_like(kind) {
        match cpu_temp_class(n) {
            Some(c) => Some(LeafRoute::CpuTemperature(c)),
            None => None,
        }
    } else if kind == HardwareKind::Gpu {
        Some(
            LeafRoute::GpuTemperature {
                prefer: contains_spec(n, "core"@) || contains_spec(n, "hot"@),
            },
        )
    } else if kind == HardwareKind::Storage {
        if contains_spec(n, "warning"@) || contains_spec(n, "critical"@) {
            None
        } else {
            Some(LeafRoute::StorageTemperature { prefer: contains_spec(n, "composite"@) })
        }
    } else if kind == HardwareKind::MemoryDimm {
        if contains_spec(n, "limit"@) || contains_spec(n, "resolution"@) || contains_spec(
            n,
            "threshold"@,
        ) {
            None
        } else {
            Some(LeafRoute::DimmTemperature)
        }
    } else {
        None
    }
}

pub open spec fn fan_route(kind: HardwareKind, n: Seq<char>) -> Option<LeafRoute> {
    if kind == HardwareKind::Gpu {
        Some(LeafRoute::GpuFan)
    } else if is_cpu_like(kind) && (contains_spec(n, "cpu"@) || contains_spec(n, "pump"@)) {
        Some(LeafRoute::CpuFan)
    } else {
        None
    }
}

pub open spec fn power_route(kind: HardwareKind, n: Seq<char>) -> Option<LeafRoute> {
    if kind == HardwareKind::Cpu {
        if contains_spec(n, "package"@) {
            Some(LeafRoute::CpuPackagePower)
        } else if n == "cpu cores"@ || n == "cores"@ || contains_spec(n, "ia cores"@) {
            Some(LeafRoute::CpuCoresPower)
        } else if starts_with_spec(n, "core #"@) || starts_with_spec(n, "cpu core #"@) || (
        starts_with_spec(n, "core "@) && contains_spec(n, "(smu)"@)) {
            Some(LeafRoute::CpuPerCorePower)
        } else {
            None
        }
    } else if kind == HardwareKind::Gpu {
        if contains_spec(n, "package"@) || contains_spec(n, "total"@) || contains_spec(n, "tbp"@) {
            Some(LeafRoute::GpuTotalPower)
        } else {
            Some(LeafRoute::GpuPartialPower)
        }
    } else {
        None
    }
}

pub open spec fn gpu_load_route(n: Seq<char>) -> Option<LeafRoute> {
    if n == "gpu core"@ || n == "core"@ || n == "gpu"@ {
        Some(LeafRoute::GpuLoad)
    } else if contains_spec(n, "video codec"@) || contains_spec(n, "video encode"@)
        || contains_spec(n, "encoder"@) {
        Some(LeafRoute::GpuEncoderLoad)
    } else if contains_spec(n, "video decode"@) || contains_spec(n, "decoder"@) {
        Some(LeafRoute::GpuDecoderLoad)
    } else {
        None
    }
}

pub open spec fn gpu_clock_route(n: Seq<char>) -> Option<LeafRoute> {
    if contains_spec(n, "effective"@) {
        None
    } else if n == "gpu core"@ || n == "core"@ || contains_spec(n, "graphics"@) {
        Some(LeafRoute::GpuGraphicsClock)
    } else if contains_spec(n, "memory"@) {
        Some(LeafRoute::GpuMemoryClock)
    } else if contains_spec(n, "video"@) || contains_spec(n, "encoder"@) {
        Some(LeafRoute::GpuVideoClock)
    } else {
        None
    }
}

pub open spec fn gpu_data_route(n: Seq<char>) -> Option<LeafRoute> {
    if contains_spec(n, "used"@) {
        Some(LeafRoute::GpuMemoryUsed)
    } else if contains_spec(n, "free"@) {
        Some(LeafRoute::GpuMemoryFree)
    } else if contains_spec(n, "total"@) {
        Some(LeafRoute::GpuMemoryTotal)
    } else {
        None
    }
}

pub open spec fn storage_level_route(n: Seq<char>) -> Option<LeafRoute> {
    if n == "life"@ {
        Some(LeafRoute::StorageLife)
    } else if n == "percentage used"@ {
        Some(LeafRoute::StorageLifeFromUsed)
    } else {
        None
    }
}

pub open spec fn storage_data_route(n: Seq<char>) -> Option<LeafRoute> {
    if n == "total space"@ {
        Some(LeafRoute::StorageTotalSpace)
    } else if n == "free space"@ {
        Some(LeafRoute::StorageFreeSpace)
    } else {
        None
    }
}

/// The routing of a leaf of sensor type `ty` and lower-cased name `n` under
/// hardware `kind`, tried in this order: temperature, fan, power, GPU fan
/// control, GPU load, GPU clock, GPU data, drive load, drive level, drive
/// data, memory-module data.
pub open spec fn leaf_route(kind: HardwareKind, ty: Seq<char>, n: Seq<char>) -> Option<LeafRoute> {
    if ty == "Temperature"@ {
        temperature_route(kind, n)
    } else if ty == "Fan"@ {
        fan_route(kind, n)
    } else if ty == "Power"@ {
        power_route(kind, n)
    } else if ty == "Control"@ && kind == HardwareKind::Gpu && contains_spec(n, "fan"@) {
        Some(LeafRoute::GpuFanDuty)
    } else if ty == "Load"@ && kind == HardwareKind::Gpu {
        gpu_load_route(n)
    } else if ty == "Clock"@ && kind == HardwareKind::Gpu {
        gpu_clock_route(n)
    } else if is_data_type(ty) && kind == HardwareKind::Gpu {
        gpu_data_route(n)
    } else if ty == "Load"@ && kind == HardwareKind::Storage {
        if n == "used space"@ {
            Some(LeafRoute::StorageUsedSpace)
        } else {
            None
        }
    } else if ty == "Level"@ && kind == HardwareKind::Storage {
        storage_level_route(n)
    } else if is_data_type(ty) && kind == HardwareKind::Storage {
        storage_data_route(n)
    } else if is_data_type(ty) && kind == HardwareKind::MemoryDimm {
        if n == "capacity"@ {
            Some(LeafRoute::DimmCapacity)
        } else {
            None
        }
    } else {
        None
    }
}

/// `c` with a comma decimal separator turned into a point.
pub open spec fn comma_to_point(c: char) -> char {
    if c == ',' {
        '.'
    } else {
        c
    }
}

/// The sensor type and hardware a route belongs to: temperatures come from
/// `Temperature` leaves, fan speeds from `Fan`, powers from `Power`, duty
/// from `Control`, loads and used space from `Load`, clocks from `Clock`,
/// drive life from `Level`, and sizes from `Data`/`SmallData`; CPU routes
/// under a processor or mainboard, GPU routes under a GPU, drive routes under
/// a drive, module routes under a memory module.
pub open spec fn route_fits(r: LeafRoute, kind: HardwareKind, ty: Seq<char>) -> bool {
    match r {
        LeafRoute::CpuTemperature(_) => ty == "Temperature"@ && is_cpu_like(kind),
        LeafRoute::GpuTemperature { .. } => ty == "Temperature"@ && kind == HardwareKind::Gpu,
        LeafRoute::StorageTemperature { .. } => ty == "Temperature"@ && kind == HardwareKind::Storage,
        LeafRoute::DimmTemperature => ty == "Temperature"@ && kind == HardwareKind::MemoryDimm,
        LeafRoute::GpuFan => ty == "Fan"@ && kind == HardwareKind::Gpu,
        LeafRoute::CpuFan => ty == "Fan"@ && is_cpu_like(kind),
        LeafRoute::CpuPackagePower | LeafRoute::CpuCoresPower | LeafRoute::CpuPerCorePower => ty
            == "Power"@ && kind == HardwareKind::Cpu,
        LeafRoute::GpuTotalPower | LeafRoute::GpuPartialPower => ty == "Power"@ && kind
            == HardwareKind::Gpu,
        LeafRoute::GpuFanDuty => ty == "Control"@ && kind == HardwareKind::Gpu,
        LeafRoute::GpuLoad | LeafRoute::GpuEncoderLoad | LeafRoute::GpuDecoderLoad => ty == "Load"@
            && kind == HardwareKind::Gpu,
        LeafRoute::GpuGraphicsClock | LeafRoute::GpuMemoryClock | LeafRoute::GpuVideoClock => ty
            == "Clock"@ && kind == HardwareKind::Gpu,
        LeafRoute::GpuMemoryUsed | LeafRoute::GpuMemoryFree | LeafRoute::GpuMemoryTotal =>
            is_data_type(ty) && kind == HardwareKind::Gpu,
        LeafRoute::StorageUsedSpace => ty == "Load"@ && kind == HardwareKind::Storage,
        LeafRoute::StorageLife | LeafRoute::StorageLifeFromUsed => ty == "Level"@ && kind
            == HardwareKind::Storage,
        LeafRoute::StorageTotalSpace | LeafRoute::StorageFreeSpace => is_data_type(ty) && kind
            == HardwareKind::Storage,
        LeafRoute::DimmCapacity => is_data_type(ty) && kind == HardwareKind::MemoryDimm,
    }
}

/// A leaf is only ever routed to a reading of its own sensor type and its
/// own hardware.
pub proof fn law_route_fits_leaf(kind: HardwareKind, ty: Seq<char>, n: Seq<char>)
    ensures
        leaf_route(kind, ty, n) matches Some(r) ==> route_fits(r, kind, ty),
{
}

proof fn lemma_sensor_types_differ()
    ensures
        "Temperature"@ != "Data"@,
        "Temperature"@ != "SmallData"@,
        "Fan"@ != "Data"@,
        "Fan"@ != "SmallData"@,
        "Power"@ != "Data"@,
        "Power"@ != "SmallData"@,
        "Power"@ != "Level"@,
        "Control"@ != "Data"@,
        "Control"@ != "SmallData"@,
        "Load"@ != "Data"@,
        "Load"@ != "SmallData"@,
        "Load"@ != "Level"@,
        "Clock"@ != "Data"@,
        "Clock"@ != "SmallData"@,
        "Clock"@ != "Level"@,
        "Temperature"@ != "Level"@,
        "Fan"@ != "Level"@,
        "Control"@ != "Level"@,
        "Temperature"@ != "Load"@,
        "Fan"@ != "Load"@,
        "Power"@ != "Load"@,
        "Control"@ != "Load"@,
        "Temperature"@ != "Clock"@,
        "Fan"@ != "Clock"@,
        "Power"@ != "Clock"@,
        "Control"@ != "Clock"@,
        "Load"@ != "Clock"@,
        "Temperature"@ != "Fan"@,
        "Temperature"@ != "Power"@,
        "Fan"@ != "Power"@,
        "Temperature"@ != "Control"@,
        "Fan"@ != "Control"@,
        "Power"@ != "Control"@,
        "Level"@ != "Data"@,
        "Level"@ != "SmallData"@,
{
    reveal_strlit("Temperature");
    reveal_strlit("Fan");
    reveal_strlit("Power");
    reveal_strlit("Control");
    reveal_strlit("Load");
    reveal_strlit("Clock");
    reveal_strlit("Data");
    reveal_strlit("SmallData");
    reveal_strlit("Level");
    assert("Temperature"@.len() == 11 && "Fan"@.len() == 3 && "Power"@.len() == 5);
    assert("Control"@.len() == 7 && "Load"@.len() == 4 && "Clock"@.len() == 5);
    assert("Data"@.len() == 4 && "SmallData"@.len() == 9 && "Level"@.len() == 5);
    assert("Power"@[0] != "Level"@[0]);
    assert("Data"@[0] != "Level"@[0]);
    assert("Power"@[0] != "Clock"@[0]);
    assert("Clock"@[0] != "Level"@[0]);
    assert("Load"@[0] != "Data"@[0]);
}

/// Which reading a leaf feeds follows the quantity its (lower-cased) name
/// mentions:
/// - under a GPU, a data leaf naming "used" memory is the used VRAM, one
///   naming "free" (and not "used") the free VRAM, one naming only "total"
///   the total;
/// - under a GPU, a clock naming "graphics" (and not "effective") is the
///   graphics clock, one naming "memory" (neither "effective" nor
///   "graphics", and not the bare core) the memory clock;
/// - under a GPU, a load naming the "encoder" (and not the bare core) is the
///   encoder load, one naming the "decoder" (and no encoder) the decoder load;
/// - under a drive, data leaves "total space" and "free space" are the total
///   and free size, level leaves "life" and "percentage used" the life;
/// - under a processor, a power leaf naming the "package" is the package
///   power, "cpu cores" the cores power;
/// - under a GPU, a power leaf naming the "total" is the board power and one
///   naming none of "package", "total", "tbp" a sub-rail;
/// - a GPU fan leaf is a GPU fan; a memory module's "capacity" its size.
pub proof fn law_route_follows_name(n: Seq<char>)
    ensures
        contains_spec(n, "used"@) ==> leaf_route(HardwareKind::Gpu, "Data"@, n) == Some(
            LeafRoute::GpuMemoryUsed,
        ) && leaf_route(HardwareKind::Gpu, "SmallData"@, n) == Some(LeafRoute::GpuMemoryUsed),
        contains_spec(n, "free"@) && !contains_spec(n, "used"@) ==> leaf_route(
            HardwareKind::Gpu,
            "Data"@,
            n,
        ) == Some(LeafRoute::GpuMemoryFree),
        contains_spec(n, "total"@) && !contains_spec(n, "free"@) && !contains_spec(n, "used"@)
            ==> leaf_route(HardwareKind::Gpu, "Data"@, n) == Some(LeafRoute::GpuMemoryTotal),
        contains_spec(n, "graphics"@) && !contains_spec(n, "effective"@) ==> leaf_route(
            HardwareKind::Gpu,
            "Clock"@,
            n,
        ) == Some(LeafRoute::GpuGraphicsClock),
        contains_spec(n, "memory"@) && !contains_spec(n, "graphics"@) && !contains_spec(
            n,
            "effective"@,
        ) && n != "gpu core"@ && n != "core"@ ==> leaf_route(HardwareKind::Gpu, "Clock"@, n)
            == Some(LeafRoute::GpuMemoryClock),
        contains_spec(n, "encoder"@) && n != "gpu core"@ && n != "core"@ && n != "gpu"@
            ==> leaf_route(HardwareKind::Gpu, "Load"@, n) == Some(LeafRoute::GpuEncoderLoad),
        contains_spec(n, "decoder"@) && !contains_spec(n, "encoder"@) && !contains_spec(
            n,
            "video codec"@,
        ) && !contains_spec(n, "video encode"@) && n != "gpu core"@ && n != "core"@ && n
            != "gpu"@ ==> leaf_route(HardwareKind::Gpu, "Load"@, n) == Some(
            LeafRoute::GpuDecoderLoad,
        ),
        leaf_route(HardwareKind::Storage, "Data"@, "total space"@) == Some(
            LeafRoute::StorageTotalSpace,
        ),
        leaf_route(HardwareKind::Storage, "Data"@, "free space"@) == Some(
            LeafRoute::StorageFreeSpace,
        ),
        leaf_route(HardwareKind::Storage, "Level"@, "life"@) == Some(LeafRoute::StorageLife),
        leaf_route(HardwareKind::Storage, "Level"@, "percentage used"@) == Some(
            LeafRoute::StorageLifeFromUsed,
        ),
        contains_spec(n, "package"@) ==> leaf_route(HardwareKind::Cpu, "Power"@, n) == Some(
            LeafRoute::CpuPackagePower,
        ),
        leaf_route(HardwareKind::Cpu, "Power"@, "cpu cores"@) == Some(LeafRoute::CpuCoresPower),
        contains_spec(n, "total"@) ==> leaf_route(HardwareKind::Gpu, "Power"@, n) == Some(
            LeafRoute::GpuTotalPower,
        ),
        !contains_spec(n, "package"@) && !contains_spec(n, "total"@) && !contains_spec(n, "tbp"@)
            ==> leaf_route(HardwareKind::Gpu, "Power"@, n) == Some(LeafRoute::GpuPartialPower),
        leaf_route(HardwareKind::Gpu, "Fan"@, n) == Some(LeafRoute::GpuFan),
        leaf_route(HardwareKind::MemoryDimm, "Data"@, "capacity"@) == Some(
            LeafRoute::DimmCapacity,
        ),
        leaf_route(HardwareKind::Storage, "Load"@, "used space"@) == Some(
            LeafRoute::StorageUsedSpace,
        ),
        leaf_route(HardwareKind::Gpu, "Load"@, "gpu core"@) == Some(LeafRoute::GpuLoad),
        leaf_route(HardwareKind::Gpu, "Temperature"@, n) == Some(
            LeafRoute::GpuTemperature { prefer: contains_spec(n, "core"@) || contains_spec(n, "hot"@) },
        ),
        !contains_spec(n, "warning"@) && !contains_spec(n, "critical"@) ==> leaf_route(
            HardwareKind::Storage,
            "Temperature"@,
            n,
        ) == Some(LeafRoute::StorageTemperature { prefer: contains_spec(n, "composite"@) }),
        contains_spec(n, "core #"@) ==> leaf_route(HardwareKind::Cpu, "Temperature"@, n) == Some(
            LeafRoute::CpuTemperature(CpuTempClass::PerCore),
        ),
        contains_spec(n, "package"@) && !contains_spec(n, "core #"@) ==> leaf_route(
            HardwareKind::Cpu,
            "Temperature"@,
            n,
        ) == Some(LeafRoute::CpuTemperature(CpuTempClass::Package)),
        contains_spec(n, "cpu"@) ==> leaf_route(HardwareKind::Mainboard, "Fan"@, n) == Some(
            LeafRoute::CpuFan,
        ),
        starts_with_spec(n, "core #"@) && !contains_spec(n, "package"@) && n != "cpu cores"@ && n
            != "cores"@ && !contains_spec(n, "ia cores"@) ==> leaf_route(
            HardwareKind::Cpu,
            "Power"@,
            n,
        ) == Some(LeafRoute::CpuPerCorePower),
{
    lemma_sensor_types_differ();
    reveal_strlit("total space");
    reveal_strlit("free space");
    reveal_strlit("life");
    reveal_strlit("percentage used");
    reveal_strlit("cpu cores");
    reveal_strlit("package");
    reveal_strlit("capacity");
    reveal_strlit("used space");
    reveal_strlit("gpu core");
    reveal_strlit("core");
    reveal_strlit("gpu");
    assert("total space"@[0] != "free space"@[0]);
    assert("life"@.len() != "percentage used"@.len());
    assert(!contains_spec("cpu cores"@, "package"@)) by {
        let c = "cpu cores"@;
        let p = "package"@;
        assert(c.len() == 9 && p.len() == 7);
        assert forall|i: int| !occurs_at(c, p, i) by {
            if occurs_at(c, p, i) {
                assert(c.subrange(i, i + 7)[0] == p[0]);
                assert(c.subrange(i, i + 7)[1] == p[1]);
            }
        }
    }
}

/// The numeric text of a sensor value ("45,5 °C" gives "45.5"): its first
/// whitespace-separated token with commas turned into points.
pub open spec fn value_token(v: Seq<char>) -> Option<Seq<char>> {
    let t = ws_tokens(v);
    if t.len() == 0 {
        None
    } else {
        Some(t[0].map_values(|c: char| comma_to_point(c)))
    }
}

/// What `str::to_lowercase` returns (full Unicode lower-casing).
pub uninterp spec fn unicode_lowercase(s: Seq<char>) -> Seq<char>;

/// Calls `str::to_lowercase`. The contract claims only that the result is a
/// function of the input characters, named `unicode_lowercase`; Unicode's
/// case tables are not restated here.
#[verifier::external_body]
fn lowercase(s: &str) -> (r: String)
    ensures
        r@ == unicode_lowercase(s@),
{
    s.to_lowercase()
}

/// One step of the plan, as plain values.
pub enum EventSpec {
    GpuName(Seq<char>),
    OpenStorage(Seq<char>),
    OpenDimm(Seq<char>),
    Reading { route: LeafRoute, token: Seq<char>, raw_value: Seq<char>, name: Seq<char> },
}

/// One step of the plan.
pub enum LhmEvent {
    /// The first named GPU hardware node: its display name.
    GpuName(String),
    /// A drive node was entered; following storage readings belong to it.
    OpenStorage(String),
    /// A memory module node was entered; following DIMM readings belong to it.
    OpenDimm(String),
    /// A sensor reading: its route, the numeric text of its value, its full
    /// value text and its display name.
    Reading { route: LeafRoute, token: String, raw_value: String, name: String },
}

impl View for LhmEvent {
    type V = EventSpec;

    open spec fn view(&self) -> EventSpec {
        match self {
            LhmEvent::GpuName(s) => EventSpec::GpuName(s@),
            LhmEvent::OpenStorage(s) => EventSpec::OpenStorage(s@),
            LhmEvent::OpenDimm(s) => EventSpec::OpenDimm(s@),
            LhmEvent::Reading { route, token, raw_value, name } => EventSpec::Reading {
                route: *route,
                token: token@,
                raw_value: raw_value@,
                name: name@,
            },
        }
    }
}

pub open spec fn events_view(s: Seq<LhmEvent>) -> Seq<EventSpec> {
    s.map_values(|e: LhmEvent| e@)
}

/// The kind a node's subtree is read under: its own, when its id names one.
pub open spec fn effective_kind(n: LhmNode, inherited: HardwareKind) -> HardwareKind {
    let k = kind_of_id(n.hardware_id@);
    if k == HardwareKind::Unknown {
        inherited
    } else {
        k
    }
}

/// The reading a node contributes as a leaf, if any.
pub open spec fn leaf_event(n: LhmNode, kind: HardwareKind) -> Option<EventSpec> {
    if n.sensor_type@.len() > 0 && n.value@.len() > 0 {
        match value_token(n.value@) {
            None => None,
            Some(token) => match leaf_route(kind, n.sensor_type@, unicode_lowercase(n.text@)) {
                None => None,
                Some(route) => Some(
                    EventSpec::Reading { route, token, raw_value: n.value@, name: n.text@ },
                ),
            },
        }
    } else {
        None
    }
}

/// The events a node emits on entry, and whether a GPU name is known afterwards.
pub open spec fn opening_events(n: LhmNode, named: bool) -> (Seq<EventSpec>, bool) {
    let k = kind_of_id(n.hardware_id@);
    if k == HardwareKind::Gpu && !named && n.text@.len() > 0 {
        (seq![EventSpec::GpuName(n.text@)], true)
    } else if k == HardwareKind::Storage {
        (seq![EventSpec::OpenStorage(n.text@)], named)
    } else if k == HardwareKind::MemoryDimm {
        (seq![EventSpec::OpenDimm(n.text@)], named)
    } else {
        (Seq::<EventSpec>::empty(), named)
    }
}

/// The plan of a subtree read under `inherited`, with `named` telling whether a
/// GPU name is already known: the node's opening events, its children's plans
/// in order, then its own reading.
pub open spec fn plan_node(n: LhmNode, inherited: HardwareKind, named: bool) -> (
    Seq<EventSpec>,
    bool,
)
    decreases n,
{
    let kind = effective_kind(n, inherited);
    let (opening, named1) = opening_events(n, named);
    let (inner, named2) = plan_nodes(n.children@, kind, named1);
    let leaf = match leaf_event(n, kind) {
        Some(e) => seq![e],
        None => Seq::<EventSpec>::empty(),
    };
    (opening + inner + leaf, named2)
}

/// The plans of a sequence of sibling subtrees, one after the other.
pub open spec fn plan_nodes(cs: Seq<LhmNode>, kind: HardwareKind, named: bool) -> (
    Seq<EventSpec>,
    bool,
)
    decreases cs,
{
    if cs.len() == 0 {
        (Seq::<EventSpec>::empty(), named)
    } else {
        let (first, named1) = plan_nodes(cs.drop_last(), kind, named);
        let (last, named2) = plan_node(cs.last(), kind, named1);
        (first + last, named2)
    }
}


fn has(s: &[char], p: &str) -> (r: bool)
    ensures
        r == contains_spec(s@, p@),
{
    let pc = chars_of(p);
    contains(s, pc.as_slice())
}

fn begins(s: &[char], p: &str) -> (r: bool)
    ensures
        r == starts_with_spec(s@, p@),
{
    let pc = chars_of(p);
    starts_with(s, pc.as_slice())
}

fn is(s: &[char], p: &str) -> (r: bool)
    ensures
        r == (s@ == p@),
{
    let pc = chars_of(p);
    chars_eq(s, pc.as_slice())
}

impl HardwareKind {
    /// Resolves the hardware kind from LHM's `HardwareId` prefix.
    pub fn of_id(id: &str) -> (k: HardwareKind)
        ensures
            k == kind_of_id(id@),
    {
        let s = chars_of(id);
        let s = s.as_slice();
        if begins(s, "/amdcpu/") || begins(s, "/intelcpu/") {
            HardwareKind::Cpu
        } else if begins(s, "/gpu-") {
            HardwareKind::Gpu
        } else if is(s, "/motherboard") || begins(s, "/lpc/") {
            HardwareKind::Mainboard
        } else if begins(s, "/nvme/") || begins(s, "/hdd/") || begins(s, "/storage/") {
            HardwareKind::Storage
        } else if begins(s, "/memory/dimm/") {
            HardwareKind::MemoryDimm
        } else {
            HardwareKind::Unknown
        }
    }
}

/// Classifies a CPU temperature sensor by its lower-cased name.
pub fn classify_cpu_temperature(name_l: &[char]) -> (r: Option<CpuTempClass>)
    ensures
        r == cpu_temp_class(name_l@),
{
    let n = name_l;
    let per_core = has(n, "core #");
    let package = has(n, "package");
    let chiplet = has(n, "ccd");
    let overall = (has(n, "tctl") || has(n, "tdie")) && !chiplet;
    let aggregate = has(n, "max") || has(n, "average") || has(n, "avg");
    if per_core {
        Some(CpuTempClass::PerCore)
    } else if package || overall {
        Some(CpuTempClass::Package)
    } else if chiplet || (!aggregate && has(n, "cpu")) {
        Some(CpuTempClass::PackageIfUnset)
    } else {
        None
    }
}

fn route_temperature(kind: HardwareKind, n: &[char]) -> (r: Option<LeafRoute>)
    ensures
        r == temperature_route(kind, n@),
{
    if kind == HardwareKind::Cpu || kind == HardwareKind::Mainboard {
        match classify_cpu_temperature(n) {
            Some(c) => Some(LeafRoute::CpuTemperature(c)),
            None => None,
        }
    } else if kind == HardwareKind::Gpu {
        Some(LeafRoute::GpuTemperature { prefer: has(n, "core") || has(n, "hot") })
    } else if kind == HardwareKind::Storage {
        if has(n, "warning") || has(n, "critical") {
            None
        } else {
            Some(LeafRoute::StorageTemperature { prefer: has(n, "composite") })
        }
    } else if kind == HardwareKind::MemoryDimm {
        if has(n, "limit") || has(n, "resolution") || has(n, "threshold") {
            None
        } else {
            Some(LeafRoute::DimmTemperature)
        }
    } else {
        None
    }
}

fn route_fan(kind: HardwareKind, n: &[char]) -> (r: Option<LeafRoute>)
    ensures
        r == fan_route(kind, n@),
{
    if kind == HardwareKind::Gpu {
        Some(LeafRoute::GpuFan)
    } else if (kind == HardwareKind::Cpu || kind == HardwareKind::Mainboard) && (has(n, "cpu")
        || has(n, "pump")) {
        Some(LeafRoute::CpuFan)
    } else {
        None
    }
}

fn route_power(kind: HardwareKind, n: &[char]) -> (r: Option<LeafRoute>)
    ensures
        r == power_route(kind, n@),
{
    if kind == HardwareKind::Cpu {
        if has(n, "package") {
            Some(LeafRoute::CpuPackagePower)
        } else if is(n, "cpu cores") || is(n, "cores") || has(n, "ia cores") {
            Some(LeafRoute::CpuCoresPower)
        } else if begins(n, "core #") || begins(n, "cpu core #") || (begins(n, "core ") && has(
            n,
            "(smu)",
        )) {
            Some(LeafRoute::CpuPerCorePower)
        } else {
            None
        }
    } else if kind == HardwareKind::Gpu {
        if has(n, "package") || has(n, "total") || has(n, "tbp") {
            Some(LeafRoute::GpuTotalPower)
        } else {
            Some(LeafRoute::GpuPartialPower)
        }
    } else {
        None
    }
}

fn route_gpu_load(n: &[char]) -> (r: Option<LeafRoute>)
    ensures
        r == gpu_load_route(n@),
{
    if is(n, "gpu core") || is(n, "core") || is(n, "gpu") {
        Some(LeafRoute::GpuLoad)
    } else if has(n, "video codec") || has(n, "video encode") || has(n, "encoder") {
        Some(LeafRoute::GpuEncoderLoad)
    } else if has(n, "video decode") || has(n, "decoder") {
        Some(LeafRoute::GpuDecoderLoad)
    } else {
        None
    }
}

fn route_gpu_clock(n: &[char]) -> (r: Option<LeafRoute>)
    ensures
        r == gpu_clock_route(n@),
{
    if has(n, "effective") {
        None
    } else if is(n, "gpu core") || is(n, "core") || has(n, "graphics") {
        Some(LeafRoute::GpuGraphicsClock)
    } else if has(n, "memory") {
        Some(LeafRoute::GpuMemoryClock)
    } else if has(n, "video") || has(n, "encoder") {
        Some(LeafRoute::GpuVideoClock)
    } else {
        None
    }
}

fn route_gpu_data(n: &[char]) -> (r: Option<LeafRoute>)
    ensures
        r == gpu_data_route(n@),
{
    if has(n, "used") {
        Some(LeafRoute::GpuMemoryUsed)
    } else if has(n, "free") {
        Some(LeafRoute::GpuMemoryFree)
    } else if has(n, "total") {
        Some(LeafRoute::GpuMemoryTotal)
    } else {
        None
    }
}

fn route_storage_level(n: &[char]) -> (r: Option<LeafRoute>)
    ensures
        r == storage_level_route(n@),
{
    if is(n, "life") {
        Some(LeafRoute::StorageLife)
    } else if is(n, "percentage used") {
        Some(LeafRoute::StorageLifeFromUsed)
    } else {
        None
    }
}

fn route_storage_data(n: &[char]) -> (r: Option<LeafRoute>)
    ensures
        r == storage_data_route(n@),
{
    if is(n, "total space") {
        Some(LeafRoute::StorageTotalSpace)
    } else if is(n, "free space") {
        Some(LeafRoute::StorageFreeSpace)
    } else {
        None
    }
}

/// Routes a leaf of sensor type `ty` and lower-cased name `name_l` found under `kind`.
pub fn route_leaf(kind: HardwareKind, ty: &[char], name_l: &[char]) -> (r: Option<LeafRoute>)
    ensures
        r == leaf_route(kind, ty@, name_l@),
{
    let n = name_l;
    let data = is(ty, "Data") || is(ty, "SmallData");
    if is(ty, "Temperature") {
        route_temperature(kind, n)
    } else if is(ty, "Fan") {
        route_fan(kind, n)
    } else if is(ty, "Power") {
        route_power(kind, n)
    } else if is(ty, "Control") && kind == HardwareKind::Gpu && has(n, "fan") {
        Some(LeafRoute::GpuFanDuty)
    } else if is(ty, "Load") && kind == HardwareKind::Gpu {
        route_gpu_load(n)
    } else if is(ty, "Clock") && kind == HardwareKind::Gpu {
        route_gpu_clock(n)
    } else if data && kind == HardwareKind::Gpu {
        route_gpu_data(n)
    } else if is(ty, "Load") && kind == HardwareKind::Storage {
        if is(n, "used space") {
            Some(LeafRoute::StorageUsedSpace)
        } else {
            None
        }
    } else if is(ty, "Level") && kind == HardwareKind::Storage {
        route_storage_level(n)
    } else if data && kind == HardwareKind::Storage {
        route_storage_data(n)
    } else if data && kind == HardwareKind::MemoryDimm {
        if is(n, "capacity") {
            Some(LeafRoute::DimmCapacity)
        } else {
            None
        }
    } else {
        None
    }
}

/// The numeric text of a sensor value: its first whitespace-separated token,
/// with commas turned into points.
pub fn value_token_of(v: &str) -> (r: Option<String>)
    ensures
        opt_view(r) == value_token(v@),
{
    let chars = chars_of(v);
    let toks = ws_split(chars.as_slice());
    if toks.len() == 0 {
        return None;
    }
    let first = &toks[0];
    let ghost t0 = seq_views(toks@)[0];
    proof {
        assert(t0 == first@);
    }
    let n = first.len();
    let mut out: Vec<char> = Vec::new();
    for i in 0..n
        invariant
            n == first@.len(),
            t0 == first@,
            out@ == t0.take(i as int).map_values(|c: char| comma_to_point(c)),
    {
        let c = first[i];
        out.push(if c == ',' { '.' } else { c });
        proof {
            assert(t0.take(i + 1).map_values(|c: char| comma_to_point(c)) =~= t0.take(
                i as int,
            ).map_values(|c: char| comma_to_point(c)).push(comma_to_point(c)));
        }
    }
    proof {
        assert(t0.take(n as int) == t0);
    }
    Some(string_of(out.as_slice()))
}

fn leaf_of(node: &LhmNode, kind: HardwareKind) -> (r: Option<LhmEvent>)
    ensures
        match r {
            Some(e) => leaf_event(*node, kind) == Some(e@),
            None => leaf_event(*node, kind).is_none(),
        },
{
    if node.sensor_type.as_str().is_empty() || node.value.as_str().is_empty() {
        return None;
    }
    let token = match value_token_of(node.value.as_str()) {
        None => return None,
        Some(t) => t,
    };
    let name_l = lowercase(node.text.as_str());
    let name_chars = chars_of(name_l.as_str());
    let ty = chars_of(node.sensor_type.as_str());
    match route_leaf(kind, ty.as_slice(), name_chars.as_slice()) {
        None => None,
        Some(route) => Some(
            LhmEvent::Reading {
                route,
                token,
                raw_value: node.value.clone(),
                name: node.text.clone(),
            },
        ),
    }
}

fn walk(node: &LhmNode, inherited: HardwareKind, named: &mut bool, out: &mut Vec<LhmEvent>)
    ensures
        events_view(final(out)@) == events_view(old(out)@) + plan_node(
            *node,
            inherited,
            *old(named),
        ).0,
        *final(named) == plan_node(*node, inherited, *old(named)).1,
    decreases node,
{
    let ghost out0 = events_view(out@);
    let ghost named0 = *named;
    let k = HardwareKind::of_id(node.hardware_id.as_str());
    let kind = if k == HardwareKind::Unknown {
        inherited
    } else {
        k
    };
    if k == HardwareKind::Gpu && !*named && !node.text.as_str().is_empty() {
        out.push(LhmEvent::GpuName(node.text.clone()));
        *named = true;
    } else if k == HardwareKind::Storage {
        out.push(LhmEvent::OpenStorage(node.text.clone()));
    } else if k == HardwareKind::MemoryDimm {
        out.push(LhmEvent::OpenDimm(node.text.clone()));
    }
    let ghost opening = opening_events(*node, named0);
    proof {
        assert(events_view(out@) =~= out0 + opening.0);
        assert(*named == opening.1);
    }
    let ghost out1 = events_view(out@);
    let ghost named1 = *named;
    let n = node.children.len();
    for i in 0..n
        invariant
            n == node.children@.len(),
            events_view(out@) == out1 + plan_nodes(node.children@.take(i as int), kind, named1).0,
            *named == plan_nodes(node.children@.take(i as int), kind, named1).1,
    {
        let ghost before = events_view(out@);
        let ghost pre = plan_nodes(node.children@.take(i as int), kind, named1);
        walk(&node.children[i], kind, named, out);
        proof {
            let cs = node.children@.take(i + 1);
            assert(cs.drop_last() == node.children@.take(i as int));
            assert(cs.last() == node.children@[i as int]);
            assert(events_view(out@) =~= out1 + (pre.0 + plan_node(node.children@[i as int], kind, pre.1).0));
        }
    }
    proof {
        assert(node.children@.take(n as int) == node.children@);
    }
    let ghost out2 = events_view(out@);
    match leaf_of(node, kind) {
        Some(e) => {
            out.push(e);
            proof {
                assert(events_view(out@) =~= out2 + seq![e@]);
            }
        },
        None => {},
    }
    proof {
        assert(events_view(out@) =~= out0 + plan_node(*node, inherited, named0).0);
    }
}

/// How many events of a plan name the GPU.
pub open spec fn gpu_name_count(s: Seq<EventSpec>) -> nat
    decreases s.len(),
{
    if s.len() == 0 {
        0
    } else {
        gpu_name_count(s.drop_last()) + if s.last() is GpuName {
            1nat
        } else {
            0nat
        }
    }
}

proof fn lemma_gpu_name_count_concat(a: Seq<EventSpec>, b: Seq<EventSpec>)
    ensures
        gpu_name_count(a + b) == gpu_name_count(a) + gpu_name_count(b),
    decreases b.len(),
{
    if b.len() > 0 {
        lemma_gpu_name_count_concat(a, b.drop_last());
        assert((a + b).drop_last() =~= a + b.drop_last());
    } else {
        assert(a + b =~= a);
    }
}

/// Within one subtree: a GPU name is emitted only while none is known, at
/// most once, and exactly when the subtree leaves the name known.
proof fn lemma_plan_node_names(n: LhmNode, inherited: HardwareKind, named: bool)
    ensures
        named ==> plan_node(n, inherited, named).1,
        gpu_name_count(plan_node(n, inherited, named).0) == if plan_node(n, inherited, named).1
            && !named {
            1nat
        } else {
            0nat
        },
    decreases n,
{
    let kind = effective_kind(n, inherited);
    let (opening, named1) = opening_events(n, named);
    let (inner, named2) = plan_nodes(n.children@, kind, named1);
    let leaf = match leaf_event(n, kind) {
        Some(e) => seq![e],
        None => Seq::<EventSpec>::empty(),
    };
    lemma_plan_nodes_names(n.children@, kind, named1);
    assert(gpu_name_count(opening) == if named1 && !named { 1nat } else { 0nat }) by {
        reveal_with_fuel(gpu_name_count, 2);
    }
    assert(gpu_name_count(leaf) == 0) by {
        reveal_with_fuel(gpu_name_count, 2);
    }
    lemma_gpu_name_count_concat(opening, inner);
    lemma_gpu_name_count_concat(opening + inner, leaf);
}

proof fn lemma_plan_nodes_names(cs: Seq<LhmNode>, kind: HardwareKind, named: bool)
    ensures
        named ==> plan_nodes(cs, kind, named).1,
        gpu_name_count(plan_nodes(cs, kind, named).0) == if plan_nodes(cs, kind, named).1
            && !named {
            1nat
        } else {
            0nat
        },
    decreases cs,
{
    if cs.len() > 0 {
        let (first, named1) = plan_nodes(cs.drop_last(), kind, named);
        lemma_plan_nodes_names(cs.drop_last(), kind, named);
        lemma_plan_node_names(cs.last(), kind, named1);
        let (last, named2) = plan_node(cs.last(), kind, named1);
        lemma_gpu_name_count_concat(first, last);
    }
}

/// The GPU is named once: the plan of a whole tree names the GPU at most
/// once, however many GPU nodes the tree holds.
pub proof fn law_gpu_named_once(root: LhmNode)
    ensures
        gpu_name_count(plan_node(root, HardwareKind::Unknown, false).0) <= 1,
{
    lemma_plan_node_names(root, HardwareKind::Unknown, false);
}

/// Walks the whole tree from its root and returns the plan of readings.
pub fn plan_readings(root: &LhmNode) -> (res: Vec<LhmEvent>)
    ensures
        events_view(res@) == plan_node(*root, HardwareKind::Unknown, false).0,
{
    let mut out: Vec<LhmEvent> = Vec::new();
    let mut named = false;
    walk(root, HardwareKind::Unknown, &mut named, &mut out);
    proof {
        assert(events_view(Seq::<LhmEvent>::empty()) =~= Seq::<EventSpec>::empty());
    }
    out
}

} // verus!
