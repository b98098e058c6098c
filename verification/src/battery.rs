//! Battery facts from a `powercfg /batteryreport /xml` document or from the
//! WMI battery classes.
//!
//! Health is the full-charge capacity over the design capacity; it is a
//! ratio, so the library hands out the integers it is made of
//! (`report_health_permille` gives the report's rounding in tenths of a
//! percent).

use vstd::prelude::*;
use crate::text::{
    chars_of, find_exec, find_from, is_blank, nonblank_trimmed, opt_string_view, parse_u64, parse_u64_seq, string_from_range, trim_seq, trimmed,
};

verus! {

#[derive(Debug)]
pub struct BatteryInfo {
    pub design_capacity_mwh: Option<u64>,
    pub full_charge_capacity_mwh: Option<u64>,
    pub cycle_count: Option<u32>,
    pub manufacturer: Option<String>,
    pub chemistry: Option<String>,
}

/// `BatteryInfo` with its strings taken by their characters.
pub struct BatteryInfoView {
    pub design_capacity_mwh: Option<u64>,
    pub full_charge_capacity_mwh: Option<u64>,
    pub cycle_count: Option<u32>,
    pub manufacturer: Option<Seq<char>>,
    pub chemistry: Option<Seq<char>>,
}

impl View for BatteryInfo {
    type V = BatteryInfoView;

    open spec fn view(&self) -> BatteryInfoView {
        BatteryInfoView {
            design_capacity_mwh: self.design_capacity_mwh,
            full_charge_capacity_mwh: self.full_charge_capacity_mwh,
            cycle_count: self.cycle_count,
            manufacturer: opt_string_view(self.manufacturer),
            chemistry: opt_string_view(self.chemistry),
        }
    }
}

/// The text strictly between the first `open` and the first `close` after it.
pub open spec fn text_between_seq(hay: Seq<char>, open: Seq<char>, close: Seq<char>) -> Option<
    Seq<char>,
> {
    match find_from(hay, open, 0) {
        None => None,
        Some(i) => {
            let start = i + open.len();
            match find_from(hay, close, start) {
                None => None,
                Some(end) => Some(hay.subrange(start as int, end as int)),
            }
        },
    }
}

/// The first `open`..`close` element's text, trimmed, read as a `u64`.
pub open spec fn first_u64_seq(hay: Seq<char>, open: Seq<char>, close: Seq<char>) -> Option<u64> {
    match text_between_seq(hay, open, close) {
        None => None,
        Some(t) => parse_u64_seq(trim_seq(t)),
    }
}

/// A cycle count too large for `u32` is recorded as 0.
pub open spec fn cycle_count_of(v: Option<u64>) -> Option<u32> {
    match v {
        Some(x) => Some(if x <= u32::MAX {
            x as u32
        } else {
            0u32
        }),
        None => None,
    }
}

/// The part of the report from its first `<Battery>` element on.
pub open spec fn battery_block(xml: Seq<char>) -> Option<Seq<char>> {
    match find_from(xml, "<Battery>"@, 0) {
        Some(i) => Some(xml.subrange(i as int, xml.len() as int)),
        None => None,
    }
}

/// What a battery report says.
pub open spec fn battery_report_view(xml: Seq<char>) -> BatteryInfoView {
    BatteryInfoView {
        design_capacity_mwh: first_u64_seq(xml, "<DesignCapacity>"@, "</DesignCapacity>"@),
        full_charge_capacity_mwh: first_u64_seq(
            xml,
            "<FullChargeCapacity>"@,
            "</FullChargeCapacity>"@,
        ),
        cycle_count: cycle_count_of(first_u64_seq(xml, "<CycleCount>"@, "</CycleCount>"@)),
        manufacturer: match battery_block(xml) {
            Some(b) => nonblank_trimmed(text_between_seq(b, "<Manufacturer>"@, "</Manufacturer>"@)),
            None => None,
        },
        chemistry: match battery_block(xml) {
            Some(b) => nonblank_trimmed(text_between_seq(b, "<Chemistry>"@, "</Chemistry>"@)),
            None => None,
        },
    }
}

/// The text between the first `open` and the first `close` after it.
fn text_between(hay: &Vec<char>, open: &str, close: &str) -> (r: Option<String>)
    ensures
        match r {
            Some(s) => text_between_seq(hay@, open@, close@) == Some(s@),
            None => text_between_seq(hay@, open@, close@) is None,
        },
{
    let o = chars_of(open);
    let c = chars_of(close);
    let n = hay.len();
    match find_exec(hay, &o, 0) {
        None => None,
        Some(i) => {
            assert(i + o@.len() <= n);
            let start = i + o.len();
            match find_exec(hay, &c, start) {
                None => None,
                Some(end) => Some(string_from_range(hay, start, end)),
            }
        },
    }
}

/// The first `open`..`close` element's text, trimmed, read as a `u64`.
fn first_u64(hay: &Vec<char>, open: &str, close: &str) -> (r: Option<u64>)
    ensures
        r == first_u64_seq(hay@, open@, close@),
{
    match text_between(hay, open, close) {
        None => None,
        Some(t) => {
            let tt = trimmed(t.as_str());
            parse_u64(tt.as_str())
        },
    }
}

/// The trimmed text, if it is not blank.
fn nonblank(t: Option<String>) -> (r: Option<String>)
    ensures
        opt_string_view(r) == nonblank_trimmed(opt_string_view(t)),
{
    match t {
        None => None,
        Some(x) => {
            let tt = trimmed(x.as_str());
            if tt.as_str().is_empty() {
                None
            } else {
                Some(tt)
            }
        },
    }
}

/// Reads design capacity, full-charge capacity and cycle count (the first
/// element of each in the document), and the manufacturer and chemistry of
/// the first `<Battery>` element, from a battery report.
pub fn parse_battery_report_xml(xml: &str) -> (info: BatteryInfo)
    ensures
        info@ == battery_report_view(xml@),
{
    let cs = chars_of(xml);
    let design = first_u64(&cs, "<DesignCapacity>", "</DesignCapacity>");
    let full = first_u64(&cs, "<FullChargeCapacity>", "</FullChargeCapacity>");
    let cycle_count = match first_u64(&cs, "<CycleCount>", "</CycleCount>") {
        Some(v) => Some(
            if v <= u32::MAX as u64 {
                v as u32
            } else {
                0u32
            },
        ),
        None => None,
    };
    let mut manufacturer = None;
    let mut chemistry = None;
    let battery_tag = chars_of("<Battery>");
    if let Some(start) = find_exec(&cs, &battery_tag, 0) {
        let block_string = string_from_range(&cs, start, cs.len());
        let block = chars_of(block_string.as_str());
        manufacturer = nonblank(text_between(&block, "<Manufacturer>", "</Manufacturer>"));
        chemistry = nonblank(text_between(&block, "<Chemistry>", "</Chemistry>"));
    }
    BatteryInfo {
        design_capacity_mwh: design,
        full_charge_capacity_mwh: full,
        cycle_count,
        manufacturer,
        chemistry,
    }
}

/// Health as the report rounds it, in tenths of a percent:
/// `full / design * 1000`, rounded half up; nothing when either is missing
/// or the design capacity is 0.
pub open spec fn report_health_permille_spec(full: Option<u64>, design: Option<u64>) -> Option<
    u128,
> {
    match (full, design) {
        (Some(f), Some(d)) => if d > 0 {
            Some(((2 * 1000 * f + d) / (2 * d)) as u128)
        } else {
            None
        },
        _ => None,
    }
}

/// Whenever both capacities are known and the design capacity is not 0,
/// there is a health, whatever the full-charge capacity is (a battery above
/// its design capacity is above 1000): it is `1000 * full / design` rounded
/// to the nearest integer, halves up.
pub proof fn lemma_report_health_rounding(full: u64, design: u64)
    requires
        design > 0,
    ensures
        report_health_permille_spec(Some(full), Some(design)) matches Some(x) && 2 * design * x
            <= 2000 * full + design && 2000 * full + design < 2 * design * (x + 1),
{
    let num = 2 * 1000 * full + design;
    let den = 2 * design;
    let q = num / den;
    assert(den * q <= num && num < den * (q + 1)) by (nonlinear_arith)
        requires
            q == num / den,
            den > 0,
    ;
    assert(q <= 1000 * full + 1) by (nonlinear_arith)
        requires
            q == num / den,
            num == 2 * 1000 * full + design,
            den == 2 * design,
            design > 0,
    ;
}

/// Health of a battery read from a report, in tenths of a percent.
pub fn report_health_permille(info: &BatteryInfo) -> (r: Option<u128>)
    ensures
        r == report_health_permille_spec(info.full_charge_capacity_mwh, info.design_capacity_mwh),
{
    match (info.full_charge_capacity_mwh, info.design_capacity_mwh) {
        (Some(f), Some(d)) => if d > 0 {
            let num: u128 = 2 * 1000 * (f as u128) + (d as u128);
            let den: u128 = 2 * (d as u128);
            let q: u128 = num / den;
            proof {
                assert(q <= 1000 * f + 1) by (nonlinear_arith)
                    requires
                        q == num / den,
                        num == 2 * 1000 * f + d,
                        den == 2 * d,
                        d > 0,
                ;
            }
            Some(q)
        } else {
            None
        },
        _ => None,
    }
}

/// One row of the WMI class `BatteryStaticData`.
pub struct BatteryStaticReading {
    pub designed_capacity: Option<u32>,
    pub manufacturer: Option<String>,
    pub chemistry: Option<String>,
}

pub open spec fn positive(v: Option<u32>) -> bool {
    match v {
        Some(x) => x > 0,
        None => false,
    }
}

/// The first battery whose design capacity is known and non-zero.
pub open spec fn first_real_battery(s: Seq<BatteryStaticReading>) -> Option<BatteryStaticReading>
    decreases s.len(),
{
    if s.len() == 0 {
        None
    } else if positive(s[0].designed_capacity) {
        Some(s[0])
    } else {
        first_real_battery(s.drop_first())
    }
}

/// The first known, non-zero capacity.
pub open spec fn first_positive(s: Seq<Option<u32>>) -> Option<u32>
    decreases s.len(),
{
    if s.len() == 0 {
        None
    } else if positive(s[0]) {
        s[0]
    } else {
        first_positive(s.drop_first())
    }
}

/// The first known value.
pub open spec fn first_known(s: Seq<Option<u32>>) -> Option<u32>
    decreases s.len(),
{
    if s.len() == 0 {
        None
    } else if s[0] is Some {
        s[0]
    } else {
        first_known(s.drop_first())
    }
}

/// A text kept as it is when it is not blank.
pub open spec fn keep_nonblank(t: Option<Seq<char>>) -> Option<Seq<char>> {
    match t {
        Some(x) => if is_blank(x) {
            None
        } else {
            Some(x)
        },
        None => None,
    }
}

pub open spec fn no_battery_message() -> Seq<char> {
    "No battery present (desktop or missing driver)."@
}

/// What the WMI battery rows say: the first battery with a non-zero design
/// capacity, the first non-zero full-charge capacity, the first known cycle
/// count; an error when no battery has a non-zero design capacity.
pub open spec fn wmi_battery_result(
    statics: Seq<BatteryStaticReading>,
    fulls: Seq<Option<u32>>,
    cycles: Seq<Option<u32>>,
) -> Result<BatteryInfoView, Seq<char>> {
    match first_real_battery(statics) {
        None => Err(no_battery_message()),
        Some(stat) => Ok(
            BatteryInfoView {
                design_capacity_mwh: match stat.designed_capacity {
                    Some(d) => Some(d as u64),
                    None => None,
                },
                full_charge_capacity_mwh: match first_positive(fulls) {
                    Some(f) => Some(f as u64),
                    None => None,
                },
                cycle_count: first_known(cycles),
                manufacturer: keep_nonblank(opt_string_view(stat.manufacturer)),
                chemistry: keep_nonblank(opt_string_view(stat.chemistry)),
            },
        ),
    }
}

proof fn lemma_first_real_battery_at(s: Seq<BatteryStaticReading>, k: int)
    requires
        0 <= k < s.len(),
        positive(s[k].designed_capacity),
        forall|j: int| 0 <= j < k ==> !positive(#[trigger] s[j].designed_capacity),
    ensures
        first_real_battery(s) == Some(s[k]),
    decreases k,
{
    if k > 0 {
        assert(!positive(s[0].designed_capacity));
        assert forall|j: int| 0 <= j < k - 1 implies !positive(
            #[trigger] s.drop_first()[j].designed_capacity,
        ) by {
            assert(s.drop_first()[j] == s[j + 1]);
        }
        lemma_first_real_battery_at(s.drop_first(), k - 1);
    }
}

proof fn lemma_no_real_battery(s: Seq<BatteryStaticReading>)
    requires
        forall|j: int| 0 <= j < s.len() ==> !positive(#[trigger] s[j].designed_capacity),
    ensures
        first_real_battery(s) is None,
    decreases s.len(),
{
    if s.len() > 0 {
        assert(!positive(s[0].designed_capacity));
        assert forall|j: int| 0 <= j < s.len() - 1 implies !positive(
            #[trigger] s.drop_first()[j].designed_capacity,
        ) by {
            assert(s.drop_first()[j] == s[j + 1]);
        }
        lemma_no_real_battery(s.drop_first());
    }
}

proof fn lemma_first_positive_at(s: Seq<Option<u32>>, k: int)
    requires
        0 <= k < s.len(),
        positive(s[k]),
        forall|j: int| 0 <= j < k ==> !positive(#[trigger] s[j]),
    ensures
        first_positive(s) == s[k],
    decreases k,
{
    if k > 0 {
        assert(!positive(s[0]));
        assert forall|j: int| 0 <= j < k - 1 implies !positive(#[trigger] s.drop_first()[j]) by {
            assert(s.drop_first()[j] == s[j + 1]);
        }
        lemma_first_positive_at(s.drop_first(), k - 1);
    }
}

/// The WMI battery is the first row whose design capacity is known and not
/// 0: its design capacity, manufacturer and chemistry are reported; the
/// full-charge capacity is the first known non-zero one. With no such row
/// there is an error and no battery.
pub proof fn lemma_wmi_battery_is_first_real_row(
    statics: Seq<BatteryStaticReading>,
    fulls: Seq<Option<u32>>,
    cycles: Seq<Option<u32>>,
    k: int,
    f: int,
)
    requires
        0 <= k < statics.len(),
        statics[k].designed_capacity matches Some(c) && c > 0,
        forall|j: int|
            0 <= j < k ==> #[trigger] statics[j].designed_capacity is None
                || statics[j].designed_capacity == Some(0u32),
        0 <= f < fulls.len(),
        fulls[f] matches Some(c) && c > 0,
        forall|j: int| 0 <= j < f ==> #[trigger] fulls[j] is None || fulls[j] == Some(0u32),
    ensures
        wmi_battery_result(statics, fulls, cycles) matches Ok(v) && v.design_capacity_mwh == Some(
            statics[k].designed_capacity.unwrap() as u64,
        ) && v.full_charge_capacity_mwh == Some(fulls[f].unwrap() as u64)
            && v.manufacturer == keep_nonblank(opt_string_view(statics[k].manufacturer))
            && v.chemistry == keep_nonblank(opt_string_view(statics[k].chemistry)),
{
    assert forall|j: int| 0 <= j < k implies !positive(#[trigger] statics[j].designed_capacity) by {
        assert(statics[j].designed_capacity is None || statics[j].designed_capacity == Some(0u32));
    }
    lemma_first_real_battery_at(statics, k);
    assert forall|j: int| 0 <= j < f implies !positive(#[trigger] fulls[j]) by {
        assert(fulls[j] is None || fulls[j] == Some(0u32));
    }
    lemma_first_positive_at(fulls, f);
}

/// With no battery whose design capacity is known and not 0, the WMI
/// readings give the no-battery error.
pub proof fn lemma_wmi_no_battery(
    statics: Seq<BatteryStaticReading>,
    fulls: Seq<Option<u32>>,
    cycles: Seq<Option<u32>>,
)
    requires
        forall|j: int|
            0 <= j < statics.len() ==> #[trigger] statics[j].designed_capacity is None
                || statics[j].designed_capacity == Some(0u32),
    ensures
        wmi_battery_result(statics, fulls, cycles) == Err::<BatteryInfoView, Seq<char>>(
            "No battery present (desktop or missing driver)."@,
        ),
{
    assert forall|j: int| 0 <= j < statics.len() implies !positive(
        #[trigger] statics[j].designed_capacity,
    ) by {
        assert(statics[j].designed_capacity is None || statics[j].designed_capacity == Some(0u32));
    }
    lemma_no_real_battery(statics);
}

fn keep_if_nonblank(t: Option<String>) -> (r: Option<String>)
    ensures
        opt_string_view(r) == keep_nonblank(opt_string_view(t)),
{
    match t {
        None => None,
        Some(x) => {
            let tt = trimmed(x.as_str());
            if tt.as_str().is_empty() {
                None
            } else {
                Some(x)
            }
        },
    }
}

fn first_positive_exec(s: &Vec<Option<u32>>) -> (r: Option<u32>)
    ensures
        r == first_positive(s@),
{
    let mut i: usize = 0;
    assert(s@.subrange(0, s@.len() as int) =~= s@);
    while i < s.len()
        invariant
            i <= s@.len(),
            first_positive(s@) == first_positive(s@.subrange(i as int, s@.len() as int)),
        decreases s@.len() - i,
    {
        assert(s@.subrange(i as int, s@.len() as int).drop_first() =~= s@.subrange(
            i + 1,
            s@.len() as int,
        ));
        if let Some(x) = s[i] {
            if x > 0 {
                return Some(x);
            }
        }
        i = i + 1;
    }
    None
}

fn first_known_exec(s: &Vec<Option<u32>>) -> (r: Option<u32>)
    ensures
        r == first_known(s@),
{
    let mut i: usize = 0;
    assert(s@.subrange(0, s@.len() as int) =~= s@);
    while i < s.len()
        invariant
            i <= s@.len(),
            first_known(s@) == first_known(s@.subrange(i as int, s@.len() as int)),
        decreases s@.len() - i,
    {
        assert(s@.subrange(i as int, s@.len() as int).drop_first() =~= s@.subrange(
            i + 1,
            s@.len() as int,
        ));
        if s[i].is_some() {
            return s[i];
        }
        i = i + 1;
    }
    None
}

/// Builds the battery facts from the rows of the WMI classes
/// `BatteryStaticData`, `BatteryFullChargedCapacity` and `BatteryCycleCount`.
pub fn battery_from_wmi(
    statics: Vec<BatteryStaticReading>,
    fulls: Vec<Option<u32>>,
    cycles: Vec<Option<u32>>,
) -> (r: Result<BatteryInfo, String>)
    ensures
        match (r, wmi_battery_result(statics@, fulls@, cycles@)) {
            (Ok(info), Ok(v)) => info@ == v,
            (Err(e), Err(m)) => e@ == m,
            _ => false,
        },
{
    let ghost all = statics@;
    let mut statics = statics;
    let mut found: Option<BatteryStaticReading> = None;
    while found.is_none() && statics.len() > 0
        invariant
            found is None ==> first_real_battery(all) == first_real_battery(statics@),
            found matches Some(f) ==> first_real_battery(all) == Some(f),
        decreases statics@.len(),
    {
        let ghost before = statics@;
        let row = statics.remove(0);
        assert(before.drop_first() =~= statics@);
        let is_real = match row.designed_capacity {
            Some(d) => d > 0,
            None => false,
        };
        if is_real {
            found = Some(row);
        }
    }
    let stat = match found {
        None => {
            return Err(String::from_str("No battery present (desktop or missing driver)."));
        },
        Some(s) => s,
    };
    let full = first_positive_exec(&fulls);
    Ok(
        BatteryInfo {
            design_capacity_mwh: match stat.designed_capacity {
                Some(d) => Some(d as u64),
                None => None,
            },
            full_charge_capacity_mwh: match full {
                Some(f) => Some(f as u64),
                None => None,
            },
            cycle_count: first_known_exec(&cycles),
            manufacturer: keep_if_nonblank(stat.manufacturer),
            chemistry: keep_if_nonblank(stat.chemistry),
        },
    )
}

} // verus!
