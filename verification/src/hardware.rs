//! Hardware identification: turning what the operating system and WMI
//! report into the hardware summary.

use vstd::prelude::*;
use crate::text::{
    chars_of, contains_exec, contains_seq, nonblank_trimmed, opt_string_view, push_char,
    str_lowercase, to_lowercase, trim_seq, trimmed,
};

verus! {

#[derive(Debug)]
pub struct GpuInfo {
    pub name: String,
    pub vram_bytes: Option<u64>,
    pub driver_version: Option<String>,
}

#[derive(Debug)]
pub struct FullHardwareInfo {
    pub cpu_name: String,
    pub cpu_threads: usize,
    pub cpu_cores_physical: Option<u32>,
    pub total_memory_mb: u64,
    pub os_name: String,
    pub os_version: String,
    pub kernel_version: String,
    pub hostname: String,
    pub motherboard: Option<String>,
    pub bios_vendor: Option<String>,
    pub bios_version: Option<String>,
    pub gpus: Option<Vec<GpuInfo>>,
}

#[derive(Debug)]
pub struct BasicHardwareInfo {
    pub cpu_name: String,
    pub cpu_threads: usize,
    pub total_memory_mb: u64,
    pub os_name: String,
    pub os_version: String,
    pub kernel_version: String,
    pub hostname: String,
}

pub struct GpuInfoView {
    pub name: Seq<char>,
    pub vram_bytes: Option<u64>,
    pub driver_version: Option<Seq<char>>,
}

impl View for GpuInfo {
    type V = GpuInfoView;

    open spec fn view(&self) -> GpuInfoView {
        GpuInfoView {
            name: self.name@,
            vram_bytes: self.vram_bytes,
            driver_version: opt_string_view(self.driver_version),
        }
    }
}

pub open spec fn gpus_view(g: Option<Vec<GpuInfo>>) -> Option<Seq<GpuInfoView>> {
    match g {
        Some(v) => Some(v@.map_values(|x: GpuInfo| x@)),
        None => None,
    }
}

pub struct FullHardwareInfoView {
    pub cpu_name: Seq<char>,
    pub cpu_threads: usize,
    pub cpu_cores_physical: Option<u32>,
    pub total_memory_mb: u64,
    pub os_name: Seq<char>,
    pub os_version: Seq<char>,
    pub kernel_version: Seq<char>,
    pub hostname: Seq<char>,
    pub motherboard: Option<Seq<char>>,
    pub bios_vendor: Option<Seq<char>>,
    pub bios_version: Option<Seq<char>>,
    pub gpus: Option<Seq<GpuInfoView>>,
}

impl View for FullHardwareInfo {
    type V = FullHardwareInfoView;

    open spec fn view(&self) -> FullHardwareInfoView {
        FullHardwareInfoView {
            cpu_name: self.cpu_name@,
            cpu_threads: self.cpu_threads,
            cpu_cores_physical: self.cpu_cores_physical,
            total_memory_mb: self.total_memory_mb,
            os_name: self.os_name@,
            os_version: self.os_version@,
            kernel_version: self.kernel_version@,
            hostname: self.hostname@,
            motherboard: opt_string_view(self.motherboard),
            bios_vendor: opt_string_view(self.bios_vendor),
            bios_version: opt_string_view(self.bios_version),
            gpus: gpus_view(self.gpus),
        }
    }
}

pub struct BasicHardwareInfoView {
    pub cpu_name: Seq<char>,
    pub cpu_threads: usize,
    pub total_memory_mb: u64,
    pub os_name: Seq<char>,
    pub os_version: Seq<char>,
    pub kernel_version: Seq<char>,
    pub hostname: Seq<char>,
}

impl View for BasicHardwareInfo {
    type V = BasicHardwareInfoView;

    open spec fn view(&self) -> BasicHardwareInfoView {
        BasicHardwareInfoView {
            cpu_name: self.cpu_name@,
            cpu_threads: self.cpu_threads,
            total_memory_mb: self.total_memory_mb,
            os_name: self.os_name@,
            os_version: self.os_version@,
            kernel_version: self.kernel_version@,
            hostname: self.hostname@,
        }
    }
}

pub open spec fn text_or(t: Option<Seq<char>>, default: Seq<char>) -> Seq<char> {
    match t {
        Some(x) => x,
        None => default,
    }
}

/// What the operating system reports, taken into the summary: the first
/// CPU's brand trimmed (or "Unknown CPU" when missing or blank), memory in
/// whole MiB, "Unknown" for a missing OS or host name, the empty string for
/// missing versions; nothing from WMI yet.
pub open spec fn system_view(
    first_cpu_brand: Option<Seq<char>>,
    cpu_threads: usize,
    total_memory_bytes: u64,
    os_name: Option<Seq<char>>,
    os_version: Option<Seq<char>>,
    kernel_version: Option<Seq<char>>,
    host_name: Option<Seq<char>>,
) -> FullHardwareInfoView {
    FullHardwareInfoView {
        cpu_name: text_or(nonblank_trimmed(first_cpu_brand), "Unknown CPU"@),
        cpu_threads,
        cpu_cores_physical: None,
        total_memory_mb: total_memory_bytes / 1048576u64,
        os_name: text_or(os_name, "Unknown"@),
        os_version: text_or(os_version, Seq::empty()),
        kernel_version: text_or(kernel_version, Seq::empty()),
        hostname: text_or(host_name, "Unknown"@),
        motherboard: None,
        bios_vendor: None,
        bios_version: None,
        gpus: None,
    }
}

fn string_or(t: Option<String>, default: &str) -> (r: String)
    ensures
        r@ == text_or(opt_string_view(t), default@),
{
    match t {
        Some(x) => x,
        None => String::from_str(default),
    }
}

/// Builds the hardware summary from what the operating system reports.
pub fn full_info_from_system(
    first_cpu_brand: Option<String>,
    cpu_threads: usize,
    total_memory_bytes: u64,
    os_name: Option<String>,
    os_version: Option<String>,
    kernel_version: Option<String>,
    host_name: Option<String>,
) -> (info: FullHardwareInfo)
    ensures
        info@ == system_view(
            opt_string_view(first_cpu_brand),
            cpu_threads,
            total_memory_bytes,
            opt_string_view(os_name),
            opt_string_view(os_version),
            opt_string_view(kernel_version),
            opt_string_view(host_name),
        ),
{
    let brand = match first_cpu_brand {
        Some(b) => {
            let t = trimmed(b.as_str());
            if t.as_str().is_empty() {
                None
            } else {
                Some(t)
            }
        },
        None => None,
    };
    assert(opt_string_view(brand) == nonblank_trimmed(opt_string_view(first_cpu_brand)));
    proof {
        reveal_strlit("");
        assert(""@ =~= Seq::<char>::empty());
    }
    FullHardwareInfo {
        cpu_name: string_or(brand, "Unknown CPU"),
        cpu_threads,
        cpu_cores_physical: None,
        total_memory_mb: total_memory_bytes / (1024 * 1024),
        os_name: string_or(os_name, "Unknown"),
        os_version: string_or(os_version, ""),
        kernel_version: string_or(kernel_version, ""),
        hostname: string_or(host_name, "Unknown"),
        motherboard: None,
        bios_vendor: None,
        bios_version: None,
        gpus: None,
    }
}

/// The basic summary is the full summary without the WMI details.
pub open spec fn basic_view(full: FullHardwareInfoView) -> BasicHardwareInfoView {
    BasicHardwareInfoView {
        cpu_name: full.cpu_name,
        cpu_threads: full.cpu_threads,
        total_memory_mb: full.total_memory_mb,
        os_name: full.os_name,
        os_version: full.os_version,
        kernel_version: full.kernel_version,
        hostname: full.hostname,
    }
}

/// The basic summary of a full one.
pub fn basic_from_full(full: FullHardwareInfo) -> (basic: BasicHardwareInfo)
    ensures
        basic@ == basic_view(full@),
{
    BasicHardwareInfo {
        cpu_name: full.cpu_name,
        cpu_threads: full.cpu_threads,
        total_memory_mb: full.total_memory_mb,
        os_name: full.os_name,
        os_version: full.os_version,
        kernel_version: full.kernel_version,
        hostname: full.hostname,
    }
}

/// The first row of `Win32_BaseBoard`.
pub struct BoardReading {
    pub manufacturer: Option<String>,
    pub product: Option<String>,
}

/// The first row of `Win32_BIOS`.
pub struct BiosReading {
    pub manufacturer: Option<String>,
    pub smbios_version: Option<String>,
}

/// One row of `Win32_VideoController`.
pub struct GpuReading {
    pub name: Option<String>,
    pub adapter_ram: Option<u32>,
    pub driver_version: Option<String>,
}

/// What WMI answered; `None` where a query failed or returned no row.
pub struct WmiHardwareReadings {
    pub cpu_cores: Option<u32>,
    pub board: Option<BoardReading>,
    pub bios: Option<BiosReading>,
    pub gpus: Option<Vec<GpuReading>>,
}

/// Manufacturer and product, each trimmed, joined by a space and trimmed.
pub open spec fn board_name(b: BoardReading) -> Seq<char> {
    trim_seq(
        trim_seq(text_or(opt_string_view(b.manufacturer), Seq::empty())) + " "@ + trim_seq(
            text_or(opt_string_view(b.product), Seq::empty()),
        ),
    )
}

/// A video controller worth listing: it has a name that is not blank and
/// is not a "basic display" adapter.
pub open spec fn gpu_kept(g: GpuReading) -> Option<GpuInfoView> {
    match opt_string_view(g.name) {
        None => None,
        Some(n) => {
            let name = trim_seq(n);
            if name.len() == 0 || contains_seq(str_lowercase(name), "basic display"@) {
                None
            } else {
                Some(
                    GpuInfoView {
                        name,
                        vram_bytes: match g.adapter_ram {
                            Some(r) => Some(r as u64),
                            None => None,
                        },
                        driver_version: opt_string_view(g.driver_version),
                    },
                )
            }
        },
    }
}

/// The listed video controllers, in order.
pub open spec fn gpu_list(rows: Seq<GpuReading>) -> Seq<GpuInfoView>
    decreases rows.len(),
{
    if rows.len() == 0 {
        Seq::empty()
    } else {
        let rest = gpu_list(rows.drop_last());
        match gpu_kept(rows.last()) {
            Some(g) => rest.push(g),
            None => rest,
        }
    }
}

/// A video controller that the summary lists: it has a name that, trimmed,
/// is not blank and, lowercased, does not contain "basic display".
pub open spec fn listable(g: GpuReading) -> bool {
    match g.name {
        Some(n) => trim_seq(n@).len() > 0 && !contains_seq(
            str_lowercase(trim_seq(n@)),
            "basic display"@,
        ),
        None => false,
    }
}

/// How a listed controller appears: its trimmed name, its adapter memory
/// in bytes, its driver version as given.
pub open spec fn listed_gpu(g: GpuReading) -> GpuInfoView {
    GpuInfoView {
        name: trim_seq(g.name.unwrap()@),
        vram_bytes: match g.adapter_ram {
            Some(r) => Some(r as u64),
            None => None,
        },
        driver_version: opt_string_view(g.driver_version),
    }
}

/// The GPU list holds every listable controller row, in the order of the
/// rows, and nothing else; in particular its length is the number of
/// listable rows.
pub proof fn lemma_gpu_list_is_every_listable_row(rows: Seq<GpuReading>)
    ensures
        gpu_list(rows) == rows.filter(|g: GpuReading| listable(g)).map_values(
            |g: GpuReading| listed_gpu(g),
        ),
        gpu_list(rows).len() == rows.filter(|g: GpuReading| listable(g)).len(),
    decreases rows.len(),
{
    reveal_with_fuel(Seq::<_>::filter, 1);
    let pred = |g: GpuReading| listable(g);
    if rows.len() > 0 {
        lemma_gpu_list_is_every_listable_row(rows.drop_last());
        let g = rows.last();
        assert(gpu_kept(g) is Some <==> listable(g));
        if listable(g) {
            assert(gpu_kept(g) == Some(listed_gpu(g)));
        }
        assert(gpu_list(rows) =~= rows.filter(pred).map_values(|g: GpuReading| listed_gpu(g)));
    } else {
        assert(gpu_list(rows) =~= rows.filter(pred).map_values(|g: GpuReading| listed_gpu(g)));
    }
}

/// After the WMI answers, the summary lists every listable controller, in
/// order, when there is at least one; otherwise the GPU list is unchanged.
pub proof fn lemma_wmi_lists_every_gpu(info: FullHardwareInfoView, r: WmiHardwareReadings)
    requires
        r.gpus is Some,
    ensures
        ({
            let listed = r.gpus.unwrap()@.filter(|g: GpuReading| listable(g));
            wmi_applied(info, r).gpus == if listed.len() > 0 {
                Some(listed.map_values(|g: GpuReading| listed_gpu(g)))
            } else {
                info.gpus
            }
        }),
{
    lemma_gpu_list_is_every_listable_row(r.gpus.unwrap()@);
}

/// The summary after the WMI answers: physical cores replaced; the
/// motherboard set when its name is not blank; BIOS vendor and version
/// replaced (trimmed, blank as missing) when the BIOS answered; the GPU list
/// set when at least one controller is worth listing.
pub open spec fn wmi_applied(info: FullHardwareInfoView, r: WmiHardwareReadings) -> FullHardwareInfoView {
    FullHardwareInfoView {
        cpu_cores_physical: r.cpu_cores,
        motherboard: match r.board {
            Some(b) => if board_name(b).len() > 0 {
                Some(board_name(b))
            } else {
                info.motherboard
            },
            None => info.motherboard,
        },
        bios_vendor: match r.bios {
            Some(b) => nonblank_trimmed(opt_string_view(b.manufacturer)),
            None => info.bios_vendor,
        },
        bios_version: match r.bios {
            Some(b) => nonblank_trimmed(opt_string_view(b.smbios_version)),
            None => info.bios_version,
        },
        gpus: match r.gpus {
            Some(rows) => if gpu_list(rows@).len() > 0 {
                Some(gpu_list(rows@))
            } else {
                info.gpus
            },
            None => info.gpus,
        },
        ..info
    }
}

fn trimmed_or_empty(t: Option<String>) -> (r: String)
    ensures
        r@ == trim_seq(text_or(opt_string_view(t), Seq::empty())),
{
    match t {
        Some(x) => trimmed(x.as_str()),
        None => {
            let e = String::new();
            proof {
                reveal_strlit("");
            }
            let r = trimmed(e.as_str());
            r
        },
    }
}

fn nonblank_trim(t: Option<String>) -> (r: Option<String>)
    ensures
        opt_string_view(r) == nonblank_trimmed(opt_string_view(t)),
{
    match t {
        None => None,
        Some(x) => {
            let tt = trimmed(x.as_str());
            if tt.as_str().is_empty() {
                None
            } else {
                Some(tt)
            }
        },
    }
}

fn gpu_from_reading(g: GpuReading) -> (r: Option<GpuInfo>)
    ensures
        match r {
            Some(x) => gpu_kept(g) == Some(x@),
            None => gpu_kept(g) is None,
        },
{
    let ghost g0 = g;
    match g.name {
        None => None,
        Some(n) => {
            let name = trimmed(n.as_str());
            let lower = to_lowercase(name.as_str());
            let lc = chars_of(lower.as_str());
            let needle = chars_of("basic display");
            if name.as_str().is_empty() || contains_exec(&lc, &needle) {
                None
            } else {
                Some(
                    GpuInfo {
                        name,
                        vram_bytes: match g.adapter_ram {
                            Some(r) => Some(r as u64),
                            None => None,
                        },
                        driver_version: g.driver_version,
                    },
                )
            }
        },
    }
}

/// Adds what WMI answered to the summary.
pub fn apply_wmi_readings(info: &mut FullHardwareInfo, readings: WmiHardwareReadings)
    ensures
        final(info)@ == wmi_applied(old(info)@, readings),
{
    let ghost r0 = readings;
    info.cpu_cores_physical = readings.cpu_cores;
    if let Some(b) = readings.board {
        let m = trimmed_or_empty(b.manufacturer);
        let p = trimmed_or_empty(b.product);
        let mut joined = m;
        push_char(&mut joined, ' ');
        joined.append(p.as_str());
        let combined = trimmed(joined.as_str());
        proof {
            reveal_strlit(" ");
            assert(joined@ =~= m@ + " "@ + p@);
        }
        if !combined.as_str().is_empty() {
            info.motherboard = Some(combined);
        }
    }
    if let Some(b) = readings.bios {
        info.bios_vendor = nonblank_trim(b.manufacturer);
        info.bios_version = nonblank_trim(b.smbios_version);
    }
    if let Some(rows) = readings.gpus {
        let ghost all = rows@;
        let mut list: Vec<GpuInfo> = Vec::new();
        let mut rest = rows;
        let ghost mut k: int = 0;
        assert(all.take(0) =~= Seq::<GpuReading>::empty());
        assert(all.skip(0) =~= all);
        while rest.len() > 0
            invariant
                0 <= k <= all.len(),
                rest@ == all.skip(k),
                list@.map_values(|x: GpuInfo| x@) == gpu_list(all.take(k)),
            decreases rest@.len(),
        {
            let g = rest.remove(0);
            proof {
                assert(g == all[k]);
                assert(all.take(k + 1).drop_last() =~= all.take(k));
                assert(all.take(k + 1).last() == all[k]);
                assert(rest@ =~= all.skip(k + 1));
            }
            let ghost before = list@;
            match gpu_from_reading(g) {
                Some(x) => {
                    list.push(x);
                    assert(list@.map_values(|x: GpuInfo| x@) =~= before.map_values(
                        |x: GpuInfo| x@,
                    ).push(list@.last()@));
                },
                None => {},
            }
            proof {
                k = k + 1;
            }
        }
        assert(all.take(k) =~= all);
        if list.len() > 0 {
            info.gpus = Some(list);
        }
    }
}

} // verus!
