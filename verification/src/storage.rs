//! Drive facts from a `smartctl --json --all` document or from the WMI class
//! `Win32_DiskDrive`.

use vstd::prelude::*;
use crate::json::{
    as_array, as_i64, as_number, as_text, as_u64, get, get_opt, json_as_array, json_as_i64,
    json_as_number, json_as_str, json_as_u64, json_get, json_get_opt, parse_json, parsed_json, str_eq, JsonNumber,
    JsonValue,
};
use crate::text::{
    decimal, lines, lines_of, push_char, push_decimal, chars_of, contains_exec, contains_seq, is_blank, is_whitespace, is_ws, nonblank_trimmed, opt_string_view, parse_u64,
    parse_u64_seq, push_signed_decimal, signed_decimal, str_lowercase, string_from_range,
    to_lowercase, trimmed,
};

verus! {

/// One drive. Numbers that the source may give as non-integers
/// (`nvme_percentage_used`, `temperature_c`) are kept as JSON numbers.
#[derive(Debug)]
pub struct StorageInfo {
    pub model_name: Option<String>,
    pub serial: Option<String>,
    pub protocol: Option<String>,
    pub total_capacity_bytes: Option<u64>,
    pub sector_size: Option<u64>,
    pub smart_status: Option<String>,
    pub nvme_percentage_used: Option<JsonNumber>,
    pub realloc_sector_count: Option<u64>,
    pub pending_sector_count: Option<u64>,
    pub media_errors: Option<u64>,
    pub power_on_hours: Option<u64>,
    pub temperature_c: Option<JsonNumber>,
}

/// `StorageInfo` with its strings taken by their characters.
pub struct StorageInfoView {
    pub model_name: Option<Seq<char>>,
    pub serial: Option<Seq<char>>,
    pub protocol: Option<Seq<char>>,
    pub total_capacity_bytes: Option<u64>,
    pub sector_size: Option<u64>,
    pub smart_status: Option<Seq<char>>,
    pub nvme_percentage_used: Option<JsonNumber>,
    pub realloc_sector_count: Option<u64>,
    pub pending_sector_count: Option<u64>,
    pub media_errors: Option<u64>,
    pub power_on_hours: Option<u64>,
    pub temperature_c: Option<JsonNumber>,
}

impl View for StorageInfo {
    type V = StorageInfoView;

    open spec fn view(&self) -> StorageInfoView {
        StorageInfoView {
            model_name: opt_string_view(self.model_name),
            serial: opt_string_view(self.serial),
            protocol: opt_string_view(self.protocol),
            total_capacity_bytes: self.total_capacity_bytes,
            sector_size: self.sector_size,
            smart_status: opt_string_view(self.smart_status),
            nvme_percentage_used: self.nvme_percentage_used,
            realloc_sector_count: self.realloc_sector_count,
            pending_sector_count: self.pending_sector_count,
            media_errors: self.media_errors,
            power_on_hours: self.power_on_hours,
            temperature_c: self.temperature_c,
        }
    }
}

/// Nothing known about a drive.
pub open spec fn empty_storage_view() -> StorageInfoView {
    StorageInfoView {
        model_name: None,
        serial: None,
        protocol: None,
        total_capacity_bytes: None,
        sector_size: None,
        smart_status: None,
        nvme_percentage_used: None,
        realloc_sector_count: None,
        pending_sector_count: None,
        media_errors: None,
        power_on_hours: None,
        temperature_c: None,
    }
}

/// A drive about which nothing is known (what an unreadable document gives).
pub fn empty_storage_info() -> (info: StorageInfo)
    ensures
        info@ == empty_storage_view(),
{
    StorageInfo {
        model_name: None,
        serial: None,
        protocol: None,
        total_capacity_bytes: None,
        sector_size: None,
        smart_status: None,
        nvme_percentage_used: None,
        realloc_sector_count: None,
        pending_sector_count: None,
        media_errors: None,
        power_on_hours: None,
        temperature_c: None,
    }
}

pub open spec fn or_else<T>(a: Option<T>, b: Option<T>) -> Option<T> {
    if a is Some {
        a
    } else {
        b
    }
}

pub open spec fn map_lowercase(s: Option<Seq<char>>) -> Option<Seq<char>> {
    match s {
        Some(x) => Some(str_lowercase(x)),
        None => None,
    }
}

/// A string member, trimmed, when it is not blank.
pub open spec fn str_field(v: JsonValue, key: Seq<char>) -> Option<Seq<char>> {
    nonblank_trimmed(as_text(get(v, key)))
}

/// The characters of `s` up to its first whitespace.
pub open spec fn word_prefix(s: Seq<char>) -> Seq<char>
    decreases s.len(),
{
    if s.len() == 0 || is_ws(s[0]) {
        Seq::empty()
    } else {
        seq![s[0]] + word_prefix(s.drop_first())
    }
}

/// The first whitespace-separated word (`split_whitespace().next()`).
pub open spec fn first_word(s: Seq<char>) -> Option<Seq<char>>
    decreases s.len(),
{
    if s.len() == 0 {
        None
    } else if is_ws(s[0]) {
        first_word(s.drop_first())
    } else {
        Some(word_prefix(s))
    }
}

/// The raw value of a SMART attribute: `raw.value` when it is a
/// non-negative integer, else the leading number of `raw.string`.
pub open spec fn raw_value_spec(attr: JsonValue) -> Option<u64> {
    let raw = get(attr, "raw"@);
    match as_u64(get_opt(raw, "value"@)) {
        Some(x) => Some(x),
        None => match as_text(get_opt(raw, "string"@)) {
            Some(s) => match first_word(s) {
                Some(w) => parse_u64_seq(w),
                None => None,
            },
            None => None,
        },
    }
}

/// The attribute's name, or the empty string.
pub open spec fn attr_name(attr: JsonValue) -> Seq<char> {
    match as_text(get(attr, "name"@)) {
        Some(s) => s,
        None => Seq::empty(),
    }
}

/// What the ATA attribute table contributes.
#[derive(Clone, Copy)]
pub struct AtaCounters {
    pub realloc: Option<u64>,
    pub pending: Option<u64>,
    pub power_on_hours: Option<u64>,
    pub temperature: Option<JsonNumber>,
}

pub open spec fn pos_int(r: Option<u64>) -> Option<JsonNumber> {
    match r {
        Some(x) => Some(JsonNumber::PosInt(x)),
        None => None,
    }
}

/// One attribute row: the first reallocation count, power-on hours and
/// temperature seen are kept; the pending-sector count is the last one seen.
pub open spec fn ata_step(st: AtaCounters, attr: JsonValue) -> AtaCounters {
    let name = attr_name(attr);
    let raw = raw_value_spec(attr);
    if name == "Reallocated_Sector_Ct"@ || name == "Reallocated_Event_Count"@ {
        if st.realloc is None {
            AtaCounters { realloc: raw, ..st }
        } else {
            st
        }
    } else if name == "Current_Pending_Sector"@ {
        AtaCounters { pending: raw, ..st }
    } else if name == "Power_On_Hours"@ {
        if st.power_on_hours is None {
            AtaCounters { power_on_hours: raw, ..st }
        } else {
            st
        }
    } else if name == "Temperature_Celsius"@ && st.temperature is None {
        AtaCounters { temperature: pos_int(raw), ..st }
    } else {
        st
    }
}

/// All attribute rows, in order.
pub open spec fn ata_fold(attrs: Seq<JsonValue>, st: AtaCounters) -> AtaCounters
    decreases attrs.len(),
{
    if attrs.len() == 0 {
        st
    } else {
        ata_fold(attrs.drop_first(), ata_step(st, attrs[0]))
    }
}

/// One of the five ATA attributes the drive summary reads.
pub open spec fn is_read_attribute(name: Seq<char>) -> bool {
    ||| name == "Reallocated_Sector_Ct"@
    ||| name == "Reallocated_Event_Count"@
    ||| name == "Current_Pending_Sector"@
    ||| name == "Power_On_Hours"@
    ||| name == "Temperature_Celsius"@
}

/// Rows of the ATA attribute table that are not one of the five read
/// attributes do not affect the counters: inserting one anywhere in the
/// table leaves every counter as it was.
pub proof fn lemma_other_attributes_ignored(
    attrs: Seq<JsonValue>,
    k: int,
    row: JsonValue,
    st: AtaCounters,
)
    requires
        0 <= k <= attrs.len(),
        !is_read_attribute(attr_name(row)),
    ensures
        ata_fold(attrs.insert(k, row), st) == ata_fold(attrs, st),
    decreases attrs.len(),
{
    let ins = attrs.insert(k, row);
    if k == 0 {
        assert(ins[0] == row);
        assert(ata_step(st, row) == st);
        assert(ins.drop_first() =~= attrs);
    } else {
        assert(ins[0] == attrs[0]);
        assert(ins.drop_first() =~= attrs.drop_first().insert(k - 1, row));
        lemma_other_attributes_ignored(attrs.drop_first(), k - 1, row, ata_step(st, attrs[0]));
    }
}

proof fn lemma_first_realloc_row(attrs: Seq<JsonValue>, k: int, n: u64, st: AtaCounters)
    requires
        0 <= k < attrs.len(),
        forall|j: int|
            0 <= j < k ==> !(#[trigger] attr_name(attrs[j]) == "Reallocated_Sector_Ct"@
                || attr_name(attrs[j]) == "Reallocated_Event_Count"@),
        attr_name(attrs[k]) == "Reallocated_Sector_Ct"@ || attr_name(attrs[k])
            == "Reallocated_Event_Count"@,
        raw_value_spec(attrs[k]) == Some(n),
        st.realloc is None,
    ensures
        ata_fold(attrs, st).realloc == Some(n),
    decreases attrs.len(),
{
    if k == 0 {
        let st1 = ata_step(st, attrs[0]);
        assert(st1.realloc == Some(n));
        lemma_realloc_kept(attrs.drop_first(), st1);
    } else {
        let st1 = ata_step(st, attrs[0]);
        assert(!(attr_name(attrs[0]) == "Reallocated_Sector_Ct"@ || attr_name(attrs[0])
            == "Reallocated_Event_Count"@));
        assert(st1.realloc is None);
        let rest = attrs.drop_first();
        assert forall|j: int| 0 <= j < k - 1 implies !(#[trigger] attr_name(rest[j])
            == "Reallocated_Sector_Ct"@ || attr_name(rest[j]) == "Reallocated_Event_Count"@) by {
            assert(rest[j] == attrs[j + 1]);
        }
        lemma_first_realloc_row(rest, k - 1, n, st1);
    }
}

proof fn lemma_realloc_kept(attrs: Seq<JsonValue>, st: AtaCounters)
    requires
        st.realloc is Some,
    ensures
        ata_fold(attrs, st).realloc == st.realloc,
    decreases attrs.len(),
{
    if attrs.len() > 0 {
        lemma_realloc_kept(attrs.drop_first(), ata_step(st, attrs[0]));
    }
}

proof fn lemma_hours_and_temperature_kept(attrs: Seq<JsonValue>, st: AtaCounters)
    ensures
        st.power_on_hours is Some ==> ata_fold(attrs, st).power_on_hours == st.power_on_hours,
        st.temperature is Some ==> ata_fold(attrs, st).temperature == st.temperature,
    decreases attrs.len(),
{
    if attrs.len() > 0 {
        lemma_hours_and_temperature_kept(attrs.drop_first(), ata_step(st, attrs[0]));
    }
}

/// Power-on hours and temperature from the NVMe health log win over any
/// ATA attribute rows.
pub proof fn lemma_nvme_log_wins(v: JsonValue)
    ensures
        as_u64(get_opt(get(v, "nvme_smart_health_information_log"@), "power_on_hours"@)) matches Some(
            h,
        ) ==> smartctl_view(v).power_on_hours == Some(h),
        as_number(get_opt(get(v, "nvme_smart_health_information_log"@), "temperature"@)) matches Some(
            t,
        ) ==> smartctl_view(v).temperature_c == Some(t),
{
    match as_array(get_opt(get(v, "ata_smart_attributes"@), "table"@)) {
        Some(attrs) => lemma_hours_and_temperature_kept(attrs, nvme_counters(v)),
        None => {},
    }
}

proof fn lemma_last_pending_row(attrs: Seq<JsonValue>, k: int, st: AtaCounters)
    requires
        0 <= k < attrs.len(),
        attr_name(attrs[k]) == "Current_Pending_Sector"@,
        forall|j: int|
            k < j < attrs.len() ==> #[trigger] attr_name(attrs[j]) != "Current_Pending_Sector"@,
    ensures
        ata_fold(attrs, st).pending == raw_value_spec(attrs[k]),
    decreases attrs.len(),
{
    let st1 = ata_step(st, attrs[0]);
    let rest = attrs.drop_first();
    if k == 0 {
        reveal_strlit("Current_Pending_Sector");
        reveal_strlit("Reallocated_Sector_Ct");
        reveal_strlit("Reallocated_Event_Count");
        assert("Current_Pending_Sector"@[0] != "Reallocated_Sector_Ct"@[0]);
        assert("Current_Pending_Sector"@[0] != "Reallocated_Event_Count"@[0]);
        assert(st1.pending == raw_value_spec(attrs[0]));
        lemma_pending_kept(rest, st1);
    } else {
        assert forall|j: int| k - 1 < j < rest.len() implies #[trigger] attr_name(rest[j])
            != "Current_Pending_Sector"@ by {
            assert(rest[j] == attrs[j + 1]);
        }
        lemma_last_pending_row(rest, k - 1, st1);
    }
}

proof fn lemma_pending_kept(attrs: Seq<JsonValue>, st: AtaCounters)
    requires
        forall|j: int| 0 <= j < attrs.len() ==> #[trigger] attr_name(attrs[j]) != "Current_Pending_Sector"@,
    ensures
        ata_fold(attrs, st).pending == st.pending,
    decreases attrs.len(),
{
    if attrs.len() > 0 {
        let rest = attrs.drop_first();
        assert(attr_name(attrs[0]) != "Current_Pending_Sector"@);
        assert forall|j: int| 0 <= j < rest.len() implies #[trigger] attr_name(rest[j])
            != "Current_Pending_Sector"@ by {
            assert(rest[j] == attrs[j + 1]);
        }
        lemma_pending_kept(rest, ata_step(st, attrs[0]));
    }
}

/// The pending-sector count is the raw value of the last
/// `Current_Pending_Sector` row of the ATA table (nothing when that row's
/// value cannot be read).
pub proof fn lemma_pending_from_last_row(v: JsonValue, attrs: Seq<JsonValue>, k: int)
    requires
        as_array(get_opt(get(v, "ata_smart_attributes"@), "table"@)) == Some(attrs),
        0 <= k < attrs.len(),
        attr_name(attrs[k]) == "Current_Pending_Sector"@,
        forall|j: int|
            k < j < attrs.len() ==> #[trigger] attr_name(attrs[j]) != "Current_Pending_Sector"@,
    ensures
        smartctl_view(v).pending_sector_count == raw_value_spec(attrs[k]),
{
    lemma_last_pending_row(attrs, k, nvme_counters(v));
}

/// The reallocated-sector count is the raw value of the first
/// `Reallocated_Sector_Ct` or `Reallocated_Event_Count` row of the ATA
/// table, whatever rows come before it.
pub proof fn lemma_realloc_from_first_row(v: JsonValue, attrs: Seq<JsonValue>, k: int, n: u64)
    requires
        as_array(get_opt(get(v, "ata_smart_attributes"@), "table"@)) == Some(attrs),
        0 <= k < attrs.len(),
        forall|j: int|
            0 <= j < k ==> !(#[trigger] attr_name(attrs[j]) == "Reallocated_Sector_Ct"@
                || attr_name(attrs[j]) == "Reallocated_Event_Count"@),
        attr_name(attrs[k]) == "Reallocated_Sector_Ct"@ || attr_name(attrs[k])
            == "Reallocated_Event_Count"@,
        raw_value_spec(attrs[k]) == Some(n),
    ensures
        smartctl_view(v).realloc_sector_count == Some(n),
{
    lemma_first_realloc_row(attrs, k, n, nvme_counters(v));
}

/// SMART status text: "passed" when `smart_status.passed` is `true`,
/// "failed" when that member holds anything else, and otherwise the number
/// `smart_health_status` in decimal.
pub open spec fn smart_status_spec(v: JsonValue) -> Option<Seq<char>> {
    let passed = get_opt(get(v, "smart_status"@), "passed"@);
    if passed == Some(JsonValue::Bool(true)) {
        Some("passed"@)
    } else if passed is Some {
        Some("failed"@)
    } else {
        match as_i64(get(v, "smart_health_status"@)) {
            Some(n) => Some(signed_decimal(n as int)),
            None => None,
        }
    }
}

/// The counters as the NVMe health log leaves them, before the ATA table.
pub open spec fn nvme_counters(v: JsonValue) -> AtaCounters {
    let nvme = get(v, "nvme_smart_health_information_log"@);
    AtaCounters {
        realloc: None,
        pending: None,
        power_on_hours: as_u64(get_opt(nvme, "power_on_hours"@)),
        temperature: as_number(get_opt(nvme, "temperature"@)),
    }
}

/// The counters after the ATA attribute table, if there is one.
pub open spec fn final_counters(v: JsonValue) -> AtaCounters {
    match as_array(get_opt(get(v, "ata_smart_attributes"@), "table"@)) {
        Some(attrs) => ata_fold(attrs, nvme_counters(v)),
        None => nvme_counters(v),
    }
}

/// What a smartctl JSON document says about its drive.
pub open spec fn smartctl_view(v: JsonValue) -> StorageInfoView {
    let nvme = get(v, "nvme_smart_health_information_log"@);
    let counters = final_counters(v);
    StorageInfoView {
        model_name: or_else(str_field(v, "model_name"@), str_field(v, "model_family"@)),
        serial: str_field(v, "serial_number"@),
        protocol: map_lowercase(str_field(v, "device_protocol"@)),
        total_capacity_bytes: or_else(
            as_u64(get_opt(get(v, "user_capacity"@), "bytes"@)),
            as_u64(get(v, "nvme_total_capacity"@)),
        ),
        sector_size: or_else(
            as_u64(get(v, "logical_block_size"@)),
            as_u64(get_opt(get(v, "sector_sizes"@), "logical"@)),
        ),
        smart_status: smart_status_spec(v),
        nvme_percentage_used: as_number(get_opt(nvme, "percentage_used"@)),
        realloc_sector_count: counters.realloc,
        pending_sector_count: counters.pending,
        media_errors: as_u64(get_opt(nvme, "media_errors"@)),
        power_on_hours: counters.power_on_hours,
        temperature_c: counters.temperature,
    }
}

/// A string member, trimmed, when it is not blank.
fn string_field(v: &JsonValue, key: &str) -> (r: Option<String>)
    ensures
        opt_string_view(r) == str_field(*v, key@),
{
    match json_as_str(json_get(v, key)) {
        None => None,
        Some(s) => {
            let t = trimmed(s);
            if t.as_str().is_empty() {
                None
            } else {
                Some(t)
            }
        },
    }
}

proof fn lemma_word_prefix_bounds(s: Seq<char>, k: int)
    requires
        0 <= k <= s.len(),
        forall|j: int| 0 <= j < k ==> !is_ws(#[trigger] s[j]),
        k < s.len() ==> is_ws(s[k]),
    ensures
        word_prefix(s) == s.take(k),
    decreases s.len(),
{
    if k == 0 {
        assert(s.take(0) =~= Seq::<char>::empty());
    } else {
        lemma_word_prefix_bounds(s.drop_first(), k - 1);
        assert(seq![s[0]] + s.drop_first().take(k - 1) =~= s.take(k));
    }
}

proof fn lemma_first_word_skip(s: Seq<char>, i: int)
    requires
        0 <= i <= s.len(),
        forall|j: int| 0 <= j < i ==> is_ws(#[trigger] s[j]),
    ensures
        first_word(s) == first_word(s.subrange(i, s.len() as int)),
    decreases i,
{
    if i == 0 {
        assert(s.subrange(0, s.len() as int) =~= s);
    } else {
        lemma_first_word_skip(s.drop_first(), i - 1);
        assert(s.drop_first().subrange(i - 1, s.drop_first().len() as int) =~= s.subrange(
            i,
            s.len() as int,
        ));
    }
}

/// `s.split_whitespace().next()`.
fn first_word_exec(s: &str) -> (r: Option<String>)
    ensures
        opt_string_view(r) == first_word(s@),
{
    let cs = chars_of(s);
    let n = cs.len();
    let mut i: usize = 0;
    while i < n && is_whitespace(cs[i])
        invariant
            i <= n == cs@.len(),
            forall|j: int| 0 <= j < i ==> is_ws(#[trigger] cs@[j]),
        decreases n - i,
    {
        i = i + 1;
    }
    proof {
        lemma_first_word_skip(cs@, i as int);
    }
    if i == n {
        return None;
    }
    let mut k: usize = i;
    while k < n && !is_whitespace(cs[k])
        invariant
            i <= k <= n == cs@.len(),
            forall|j: int| i <= j < k ==> !is_ws(#[trigger] cs@[j]),
        decreases n - k,
    {
        k = k + 1;
    }
    let ghost rest = cs@.subrange(i as int, n as int);
    proof {
        assert forall|j: int| 0 <= j < k - i implies !is_ws(#[trigger] rest[j]) by {
            assert(rest[j] == cs@[i + j]);
        }
        if k < n {
            assert(rest[k - i] == cs@[k as int]);
        }
        lemma_word_prefix_bounds(rest, k - i);
        assert(rest.take(k - i) =~= cs@.subrange(i as int, k as int));
        assert(!is_ws(rest[0]));
    }
    Some(string_from_range(&cs, i, k))
}

/// The raw value of a SMART attribute row.
fn raw_value(attr: &JsonValue) -> (r: Option<u64>)
    ensures
        r == raw_value_spec(*attr),
{
    let raw = json_get(attr, "raw");
    match json_as_u64(json_get_opt(raw, "value")) {
        Some(x) => Some(x),
        None => match json_as_str(json_get_opt(raw, "string")) {
            Some(s) => match first_word_exec(s) {
                Some(w) => parse_u64(w.as_str()),
                None => None,
            },
            None => None,
        },
    }
}

fn ata_step_exec(st: AtaCounters, attr: &JsonValue) -> (r: AtaCounters)
    ensures
        r == ata_step(st, *attr),
{
    let name: &str = match json_as_str(json_get(attr, "name")) {
        Some(s) => s,
        None => "",
    };
    proof {
        reveal_strlit("");
        assert(name@ == attr_name(*attr));
    }
    let raw = raw_value(attr);
    if str_eq(name, "Reallocated_Sector_Ct") || str_eq(name, "Reallocated_Event_Count") {
        if st.realloc.is_none() {
            AtaCounters { realloc: raw, ..st }
        } else {
            st
        }
    } else if str_eq(name, "Current_Pending_Sector") {
        AtaCounters { pending: raw, ..st }
    } else if str_eq(name, "Power_On_Hours") {
        if st.power_on_hours.is_none() {
            AtaCounters { power_on_hours: raw, ..st }
        } else {
            st
        }
    } else if str_eq(name, "Temperature_Celsius") && st.temperature.is_none() {
        AtaCounters {
            temperature: match raw {
                Some(x) => Some(JsonNumber::PosInt(x)),
                None => None,
            },
            ..st
        }
    } else {
        st
    }
}

fn smart_status_exec(v: &JsonValue) -> (r: Option<String>)
    ensures
        opt_string_view(r) == smart_status_spec(*v),
{
    let passed = json_get_opt(json_get(v, "smart_status"), "passed");
    match passed {
        Some(JsonValue::Bool(true)) => Some(String::from_str("passed")),
        Some(_) => Some(String::from_str("failed")),
        None => match json_as_i64(json_get(v, "smart_health_status")) {
            Some(n) => {
                let mut s = String::new();
                push_signed_decimal(&mut s, n);
                assert(s@ =~= signed_decimal(n as int));
                Some(s)
            },
            None => None,
        },
    }
}

/// Reads a drive from a parsed `smartctl --json --all` document.
pub fn storage_info_from_json(v: &JsonValue) -> (info: StorageInfo)
    ensures
        info@ == smartctl_view(*v),
{
    let model_name = match string_field(v, "model_name") {
        Some(m) => Some(m),
        None => string_field(v, "model_family"),
    };
    let serial = string_field(v, "serial_number");
    let protocol = match string_field(v, "device_protocol") {
        Some(p) => Some(to_lowercase(p.as_str())),
        None => None,
    };
    let total_capacity_bytes = match json_as_u64(
        json_get_opt(json_get(v, "user_capacity"), "bytes"),
    ) {
        Some(b) => Some(b),
        None => json_as_u64(json_get(v, "nvme_total_capacity")),
    };
    let sector_size = match json_as_u64(json_get(v, "logical_block_size")) {
        Some(b) => Some(b),
        None => json_as_u64(json_get_opt(json_get(v, "sector_sizes"), "logical")),
    };
    let smart_status = smart_status_exec(v);
    let nvme = json_get(v, "nvme_smart_health_information_log");
    let nvme_percentage_used = json_as_number(json_get_opt(nvme, "percentage_used"));
    let media_errors = json_as_u64(json_get_opt(nvme, "media_errors"));
    let mut st = AtaCounters {
        realloc: None,
        pending: None,
        power_on_hours: json_as_u64(json_get_opt(nvme, "power_on_hours")),
        temperature: json_as_number(json_get_opt(nvme, "temperature")),
    };
    assert(st == nvme_counters(*v));
    if let Some(attrs) = json_as_array(json_get_opt(json_get(v, "ata_smart_attributes"), "table")) {
        let ghost st0 = st;
        let mut i: usize = 0;
        assert(attrs@.subrange(0, attrs@.len() as int) =~= attrs@);
        while i < attrs.len()
            invariant
                i <= attrs@.len(),
                ata_fold(attrs@, st0) == ata_fold(attrs@.subrange(i as int, attrs@.len() as int), st),
            decreases attrs@.len() - i,
        {
            assert(attrs@.subrange(i as int, attrs@.len() as int).drop_first() =~= attrs@.subrange(
                i + 1,
                attrs@.len() as int,
            ));
            st = ata_step_exec(st, &attrs[i]);
            i = i + 1;
        }
        assert(attrs@.subrange(i as int, attrs@.len() as int) =~= Seq::<JsonValue>::empty());
    }
    StorageInfo {
        model_name,
        serial,
        protocol,
        total_capacity_bytes,
        sector_size,
        smart_status,
        nvme_percentage_used,
        realloc_sector_count: st.realloc,
        pending_sector_count: st.pending,
        media_errors,
        power_on_hours: st.power_on_hours,
        temperature_c: st.temperature,
    }
}

/// What a smartctl JSON text says about its drive: nothing when the text is
/// not JSON.
pub open spec fn smartctl_text_view(json: Seq<char>) -> StorageInfoView {
    match parsed_json(json) {
        Some(v) => smartctl_view(v),
        None => empty_storage_view(),
    }
}

/// Reads a drive from the text of `smartctl --json --all`; text that is not
/// JSON gives a drive about which nothing is known.
pub fn parse_smartctl_json(json: &str) -> (info: StorageInfo)
    ensures
        info@ == smartctl_text_view(json@),
{
    match parse_json(json) {
        Some(v) => storage_info_from_json(&v),
        None => empty_storage_info(),
    }
}

/// The device name a `smartctl --scan --json` line gives: `device.name`
/// of the line's JSON document.
pub open spec fn scan_line_name(line: Seq<char>) -> Option<Seq<char>> {
    match parsed_json(line) {
        Some(v) => as_text(get_opt(get(v, "device"@), "name"@)),
        None => None,
    }
}

/// The device names of the scan lines, in order.
pub open spec fn scan_names(lines: Seq<Seq<char>>) -> Seq<Seq<char>>
    decreases lines.len(),
{
    if lines.len() == 0 {
        Seq::empty()
    } else {
        scan_names(lines.drop_last()) + match scan_line_name(lines.last()) {
            Some(n) => seq![n],
            None => Seq::empty(),
        }
    }
}

/// The Windows physical drive path `\\.\PhysicalDrive{i}`.
pub open spec fn physical_drive(i: nat) -> Seq<char> {
    "\\\\.\\PhysicalDrive"@ + decimal(i)
}

/// The first `n` physical drive paths.
pub open spec fn physical_drives(n: nat) -> Seq<Seq<char>>
    decreases n,
{
    if n == 0 {
        Seq::empty()
    } else {
        physical_drives((n - 1) as nat).push(physical_drive((n - 1) as nat))
    }
}

/// `Vec::dedup`: runs of equal neighbours kept once.
pub open spec fn dedup_seq(s: Seq<Seq<char>>) -> Seq<Seq<char>>
    decreases s.len(),
{
    if s.len() == 0 {
        Seq::empty()
    } else if s.len() >= 2 && s[s.len() - 1] == s[s.len() - 2] {
        dedup_seq(s.drop_last())
    } else {
        dedup_seq(s.drop_last()).push(s.last())
    }
}

proof fn lemma_dedup_last(s: Seq<Seq<char>>)
    requires
        s.len() > 0,
    ensures
        dedup_seq(s).len() > 0,
        dedup_seq(s).last() == s.last(),
    decreases s.len(),
{
    if s.len() >= 2 && s[s.len() - 1] == s[s.len() - 2] {
        lemma_dedup_last(s.drop_last());
    }
}

/// The devices to probe: those the scan names, then `\\.\PhysicalDrive0`
/// to `\\.\PhysicalDrive15`, neighbouring duplicates removed.
pub open spec fn device_names_spec(scan_text: Seq<char>) -> Seq<Seq<char>> {
    dedup_seq(scan_names(lines_of(scan_text)) + physical_drives(16))
}

/// The devices to probe with `smartctl --json --all`, from the output of
/// `smartctl --scan --json` (empty when the scan did not run).
pub fn smartctl_device_names(scan_text: &str) -> (names: Vec<String>)
    ensures
        strings_view(names@) == device_names_spec(scan_text@),
{
    let ls = lines(scan_text);
    let ghost lv = strings_view(ls@);
    let mut all: Vec<String> = Vec::new();
    let mut i: usize = 0;
    assert(lv.take(0) =~= Seq::<Seq<char>>::empty());
    while i < ls.len()
        invariant
            i <= ls@.len(),
            lv == strings_view(ls@),
            strings_view(all@) == scan_names(lv.take(i as int)),
        decreases ls@.len() - i,
    {
        let ghost before = strings_view(all@);
        proof {
            assert(lv.take(i + 1).drop_last() =~= lv.take(i as int));
            assert(lv.take(i + 1).last() == ls@[i as int]@);
        }
        match parse_json(ls[i].as_str()) {
            Some(v) => match json_as_str(json_get_opt(json_get(&v, "device"), "name")) {
                Some(name) => {
                    all.push(String::from_str(name));
                    assert(strings_view(all@) =~= before.push(name@));
                },
                None => {
                    assert(strings_view(all@) =~= before);
                },
            },
            None => {
                assert(strings_view(all@) =~= before);
            },
        }
        i = i + 1;
    }
    assert(lv.take(i as int) =~= lv);
    let ghost scanned = strings_view(all@);
    let mut k: u64 = 0;
    while k < 16
        invariant
            k <= 16,
            strings_view(all@) == scanned + physical_drives(k as nat),
        decreases 16 - k,
    {
        let mut p = String::from_str("\\\\.\\PhysicalDrive");
        push_decimal(&mut p, k);
        let ghost before = strings_view(all@);
        all.push(p);
        assert(strings_view(all@) =~= before.push(physical_drive(k as nat)));
        k = k + 1;
    }
    let ghost full = strings_view(all@);
    let mut out: Vec<String> = Vec::new();
    let mut j: usize = 0;
    assert(full.take(0) =~= Seq::<Seq<char>>::empty());
    while j < all.len()
        invariant
            j <= all@.len(),
            full == strings_view(all@),
            strings_view(out@) == dedup_seq(full.take(j as int)),
        decreases all@.len() - j,
    {
        let ghost before = strings_view(out@);
        let ghost t = full.take(j + 1);
        proof {
            assert(t.drop_last() =~= full.take(j as int));
            if j > 0 {
                lemma_dedup_last(full.take(j as int));
                assert(full.take(j as int).last() == full[j - 1]);
            }
        }
        let dup = j > 0 && all[j] == all[j - 1];
        if !dup {
            out.push(all[j].clone());
            assert(strings_view(out@) =~= before.push(full[j as int]));
        }
        j = j + 1;
    }
    assert(full.take(j as int) =~= full);
    out
}

/// The outputs of `smartctl --json --all` runs that mention `"device"`,
/// each followed by a newline, in order.
pub open spec fn device_outputs(outputs: Seq<Seq<char>>) -> Seq<char>
    decreases outputs.len(),
{
    if outputs.len() == 0 {
        Seq::empty()
    } else {
        device_outputs(outputs.drop_last()) + if contains_seq(outputs.last(), "\"device\""@) {
            outputs.last() + "\n"@
        } else {
            Seq::empty()
        }
    }
}

/// Joins the outputs of the probe runs that describe a device.
pub fn join_device_outputs(outputs: Vec<String>) -> (s: String)
    ensures
        s@ == device_outputs(strings_view(outputs@)),
{
    let ghost ov = strings_view(outputs@);
    let key = chars_of("\"device\"");
    let mut s = String::new();
    let mut i: usize = 0;
    assert(ov.take(0) =~= Seq::<Seq<char>>::empty());
    while i < outputs.len()
        invariant
            i <= outputs@.len(),
            ov == strings_view(outputs@),
            key@ == "\"device\""@,
            s@ == device_outputs(ov.take(i as int)),
        decreases outputs@.len() - i,
    {
        let ghost before = s@;
        proof {
            assert(ov.take(i + 1).drop_last() =~= ov.take(i as int));
            assert(ov.take(i + 1).last() == outputs@[i as int]@);
        }
        let text = chars_of(outputs[i].as_str());
        if contains_exec(&text, &key) {
            s.append(outputs[i].as_str());
            push_char(&mut s, '\n');
            proof {
                reveal_strlit("\n");
                assert(s@ =~= before + (outputs@[i as int]@ + "\n"@));
            }
        } else {
            assert(s@ =~= before + Seq::<char>::empty());
        }
        i = i + 1;
    }
    assert(ov.take(i as int) =~= ov);
    s
}

/// One row of the WMI class `Win32_DiskDrive`.
pub struct DiskDriveReading {
    pub model: Option<String>,
    pub serial_number: Option<String>,
    pub size: Option<u64>,
    pub status: Option<String>,
    pub interface_type: Option<String>,
}

/// A text kept as it is when it is not blank.
pub open spec fn keep_nonblank_text(t: Option<Seq<char>>) -> Option<Seq<char>> {
    match t {
        Some(x) => if is_blank(x) {
            None
        } else {
            Some(x)
        },
        None => None,
    }
}

/// What a `Win32_DiskDrive` row says; the sector size is taken to be 512.
pub open spec fn disk_drive_view(d: DiskDriveReading) -> StorageInfoView {
    StorageInfoView {
        model_name: keep_nonblank_text(opt_string_view(d.model)),
        serial: keep_nonblank_text(opt_string_view(d.serial_number)),
        protocol: map_lowercase(opt_string_view(d.interface_type)),
        total_capacity_bytes: d.size,
        sector_size: Some(512),
        smart_status: map_lowercase(opt_string_view(d.status)),
        ..empty_storage_view()
    }
}

fn keep_if_not_blank(t: Option<String>) -> (r: Option<String>)
    ensures
        opt_string_view(r) == keep_nonblank_text(opt_string_view(t)),
{
    match t {
        None => None,
        Some(x) => {
            let tt = trimmed(x.as_str());
            if tt.as_str().is_empty() {
                None
            } else {
                Some(x)
            }
        },
    }
}

fn lowercase_opt(t: Option<String>) -> (r: Option<String>)
    ensures
        opt_string_view(r) == map_lowercase(opt_string_view(t)),
{
    match t {
        None => None,
        Some(x) => Some(to_lowercase(x.as_str())),
    }
}

/// Builds a drive from a `Win32_DiskDrive` row (used when smartctl is not
/// available).
pub fn storage_from_disk_drive(d: DiskDriveReading) -> (info: StorageInfo)
    ensures
        info@ == disk_drive_view(d),
{
    let ghost d0 = d;
    StorageInfo {
        model_name: keep_if_not_blank(d.model),
        serial: keep_if_not_blank(d.serial_number),
        protocol: lowercase_opt(d.interface_type),
        total_capacity_bytes: d.size,
        sector_size: Some(512),
        smart_status: lowercase_opt(d.status),
        nvme_percentage_used: None,
        realloc_sector_count: None,
        pending_sector_count: None,
        media_errors: None,
        power_on_hours: None,
        temperature_c: None,
    }
}

/// The scanner's state while splitting concatenated JSON documents.
pub struct SplitState {
    pub depth: int,
    pub start: Option<int>,
    pub docs: Seq<Seq<char>>,
}

/// A document that describes a drive.
pub open spec fn looks_like_drive(doc: Seq<char>) -> bool {
    contains_seq(doc, "\"model_name\""@) || contains_seq(doc, "\"user_capacity\""@)
}

/// One character at position `idx`: `{` opens (remembering where the
/// outermost one began), `}` closes; closing the outermost brace ends a
/// document, which is kept when it describes a drive.
pub open spec fn split_step(text: Seq<char>, st: SplitState, idx: int) -> SplitState {
    let c = text[idx];
    if c == '{' {
        SplitState {
            depth: st.depth + 1,
            start: if st.depth == 0 {
                Some(idx)
            } else {
                st.start
            },
            docs: st.docs,
        }
    } else if c == '}' {
        let d = st.depth - 1;
        if d == 0 {
            SplitState {
                depth: d,
                start: None,
                docs: match st.start {
                    Some(s) => if looks_like_drive(text.subrange(s, idx + 1)) {
                        st.docs.push(text.subrange(s, idx + 1))
                    } else {
                        st.docs
                    },
                    None => st.docs,
                },
            }
        } else {
            SplitState { depth: d, ..st }
        }
    } else {
        st
    }
}

/// The state after the first `n` characters.
pub open spec fn split_prefix(text: Seq<char>, n: nat) -> SplitState
    decreases n,
{
    if n == 0 {
        SplitState { depth: 0, start: None, docs: Seq::empty() }
    } else {
        split_step(text, split_prefix(text, (n - 1) as nat), n - 1)
    }
}

/// The drive documents in `text`, or the whole text when there are none.
pub open spec fn split_documents_spec(text: Seq<char>) -> Seq<Seq<char>> {
    let docs = split_prefix(text, text.len()).docs;
    if docs.len() == 0 {
        seq![text]
    } else {
        docs
    }
}

pub open spec fn strings_view(v: Seq<String>) -> Seq<Seq<char>> {
    v.map_values(|s: String| s@)
}

proof fn lemma_split_bounds(text: Seq<char>, n: nat)
    requires
        n <= text.len(),
    ensures
        -(n as int) <= split_prefix(text, n).depth <= n,
        split_prefix(text, n).start matches Some(s) ==> 0 <= s < n,
    decreases n,
{
    if n > 0 {
        lemma_split_bounds(text, (n - 1) as nat);
    }
}

/// Splits the output of several `smartctl --json` runs into the documents
/// that describe a drive (a top-level `{...}` mentioning `"model_name"` or
/// `"user_capacity"`); when there is none, the whole text is the one
/// document.
pub fn split_json_documents(text: &str) -> (docs: Vec<String>)
    requires
        text@.len() <= i64::MAX,
    ensures
        strings_view(docs@) == split_documents_spec(text@),
{
    let cs = chars_of(text);
    let n = cs.len();
    let mut docs: Vec<String> = Vec::new();
    let mut depth: i64 = 0;
    let mut start: Option<usize> = None;
    let model_key = chars_of("\"model_name\"");
    let capacity_key = chars_of("\"user_capacity\"");
    let mut idx: usize = 0;
    while idx < n
        invariant
            idx <= n == cs@.len() == text@.len() <= i64::MAX,
            model_key@ == "\"model_name\""@,
            capacity_key@ == "\"user_capacity\""@,
            ({
                let st = split_prefix(cs@, idx as nat);
                &&& st.depth == depth as int
                &&& st.docs == strings_view(docs@)
                &&& st.start == (match start {
                    Some(s) => Some(s as int),
                    None => None,
                })
            }),
        decreases n - idx,
    {
        proof {
            lemma_split_bounds(cs@, idx as nat);
            lemma_split_bounds(cs@, (idx + 1) as nat);
        }
        let ch = cs[idx];
        if ch == '{' {
            if depth == 0 {
                start = Some(idx);
            }
            depth = depth + 1;
        } else if ch == '}' {
            depth = depth - 1;
            if depth == 0 {
                if let Some(s) = start {
                    let doc_chars = string_from_range(&cs, s, idx + 1);
                    let dc = chars_of(doc_chars.as_str());
                    let looks = contains_exec(&dc, &model_key) || contains_exec(
                        &dc,
                        &capacity_key,
                    );
                    if looks {
                        let ghost before = docs@;
                        docs.push(doc_chars);
                        assert(strings_view(docs@) =~= strings_view(before).push(
                            cs@.subrange(s as int, idx + 1),
                        ));
                    }
                }
                start = None;
            }
        }
        idx = idx + 1;
    }
    if docs.len() == 0 {
        let whole = string_from_range(&cs, 0, n);
        assert(cs@.subrange(0, n as int) =~= text@);
        docs.push(whole);
        assert(strings_view(docs@) =~= seq![text@]);
    }
    docs
}

/// The documents of a smartctl run that describe a device: those of
/// `split_json_documents` that mention `"device"`.
pub open spec fn device_documents_spec(text: Seq<char>) -> Seq<Seq<char>> {
    split_documents_spec(text).filter(|d: Seq<char>| contains_seq(d, "\"device\""@))
}

/// The documents of a smartctl run that describe a device.
pub fn smartctl_device_documents(text: &str) -> (docs: Vec<String>)
    requires
        text@.len() <= i64::MAX,
    ensures
        strings_view(docs@) == device_documents_spec(text@),
{
    let all = split_json_documents(text);
    let key = chars_of("\"device\"");
    let ghost pred = |d: Seq<char>| contains_seq(d, "\"device\""@);
    let mut docs: Vec<String> = Vec::new();
    let mut i: usize = 0;
    while i < all.len()
        invariant
            i <= all@.len(),
            key@ == "\"device\""@,
            pred == (|d: Seq<char>| contains_seq(d, "\"device\""@)),
            strings_view(docs@) == strings_view(all@).take(i as int).filter(pred),
        decreases all@.len() - i,
    {
        let ghost before = docs@;
        proof {
            reveal_with_fuel(Seq::<_>::filter, 1);
            assert(strings_view(all@).take(i + 1).drop_last() =~= strings_view(all@).take(
                i as int,
            ));
        }
        let dc = chars_of(all[i].as_str());
        if contains_exec(&dc, &key) {
            docs.push(all[i].clone());
            assert(strings_view(docs@) =~= strings_view(before).push(all@[i as int]@));
        } else {
            assert(strings_view(docs@) =~= strings_view(before));
        }
        i = i + 1;
    }
    assert(strings_view(all@).take(i as int) =~= strings_view(all@));
    docs
}

/// A drive document cut from `text`: a stretch of it that opens with `{`,
/// closes with `}` and mentions `"model_name"` or `"user_capacity"`.
pub open spec fn drive_document_of(text: Seq<char>, doc: Seq<char>) -> bool {
    &&& exists|s: int, e: int| 0 <= s < e <= text.len() && text.subrange(s, e) == doc
    &&& doc.len() >= 2
    &&& doc[0] == '{'
    &&& doc.last() == '}'
    &&& looks_like_drive(doc)
}

proof fn lemma_split_prefix_shape(text: Seq<char>, n: nat)
    requires
        n <= text.len(),
    ensures
        forall|i: int|
            0 <= i < split_prefix(text, n).docs.len() ==> drive_document_of(
                text,
                #[trigger] split_prefix(text, n).docs[i],
            ),
        split_prefix(text, n).start matches Some(s) ==> 0 <= s < n && text[s] == '{',
    decreases n,
{
    if n > 0 {
        let m = (n - 1) as nat;
        lemma_split_prefix_shape(text, m);
        let st = split_prefix(text, m);
        let idx = m as int;
        let c = text[idx];
        if c == '}' && st.depth - 1 == 0 {
            if let Some(s0) = st.start {
                let doc = text.subrange(s0, idx + 1);
                if looks_like_drive(doc) {
                    assert(doc[0] == '{');
                    assert(doc.last() == c);
                    assert(drive_document_of(text, doc)) by {
                        assert(text.subrange(s0, idx + 1) == doc);
                    }
                    let docs = split_prefix(text, n).docs;
                    assert forall|i: int| 0 <= i < docs.len() implies drive_document_of(
                        text,
                        #[trigger] docs[i],
                    ) by {
                        if i < st.docs.len() {
                            assert(docs[i] == st.docs[i]);
                        }
                    }
                }
            }
        }
    }
}

/// Splitting always yields at least one document; each one is the whole
/// text or a drive document cut from it.
pub proof fn lemma_split_documents_shape(text: Seq<char>)
    ensures
        split_documents_spec(text).len() >= 1,
        forall|i: int|
            0 <= i < split_documents_spec(text).len() ==> #[trigger] split_documents_spec(text)[i]
                == text || drive_document_of(text, split_documents_spec(text)[i]),
{
    lemma_split_prefix_shape(text, text.len());
}

} // verus!
