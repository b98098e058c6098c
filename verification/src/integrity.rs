//! Fraud/spoof consistency checks: independent signals cross-checked
//! against each other and against the known-models database.

use vstd::prelude::*;
use crate::hardware::FullHardwareInfo;
use crate::json::str_eq;
use crate::models_db::{lookup_key, KnownModels};
use crate::scoring::FlagSeverity;
use crate::storage::StorageInfo;
use crate::text::{decimal, opt_string_view, push_decimal};

verus! {

#[derive(Debug)]
pub struct FraudFlag {
    pub severity: FlagSeverity,
    /// Machine-readable check id, e.g. "cpu_thread_count_mismatch".
    pub check_id: String,
    /// i18n key for display; parameters via frontend interpolation.
    pub message_key: String,
    pub detail: Option<String>,
}

#[derive(Debug)]
pub struct IntegrityReport {
    pub flags: Vec<FraudFlag>,
    pub has_critical: bool,
    pub has_warning: bool,
}

pub struct FraudFlagView {
    pub severity: FlagSeverity,
    pub check_id: Seq<char>,
    pub message_key: Seq<char>,
    pub detail: Option<Seq<char>>,
}

impl View for FraudFlag {
    type V = FraudFlagView;

    open spec fn view(&self) -> FraudFlagView {
        FraudFlagView {
            severity: self.severity,
            check_id: self.check_id@,
            message_key: self.message_key@,
            detail: opt_string_view(self.detail),
        }
    }
}

pub open spec fn flags_view(flags: Seq<FraudFlag>) -> Seq<FraudFlagView> {
    flags.map_values(|f: FraudFlag| f@)
}

pub struct IntegrityReportView {
    pub flags: Seq<FraudFlagView>,
    pub has_critical: bool,
    pub has_warning: bool,
}

impl View for IntegrityReport {
    type V = IntegrityReportView;

    open spec fn view(&self) -> IntegrityReportView {
        IntegrityReportView {
            flags: flags_view(self.flags@),
            has_critical: self.has_critical,
            has_warning: self.has_warning,
        }
    }
}

/// Some flag has the given severity.
pub open spec fn any_with_severity(flags: Seq<FraudFlagView>, s: FlagSeverity) -> bool {
    exists|i: int| 0 <= i < flags.len() && #[trigger] flags[i].severity == s
}

/// A report over `flags`: it has a Critical (Warning) flag exactly when one
/// of them is Critical (Warning).
pub open spec fn report_of(flags: Seq<FraudFlagView>) -> IntegrityReportView {
    IntegrityReportView {
        flags,
        has_critical: any_with_severity(flags, FlagSeverity::Critical),
        has_warning: any_with_severity(flags, FlagSeverity::Warning),
    }
}

impl IntegrityReport {
    fn from_flags(flags: Vec<FraudFlag>) -> (r: Self)
        ensures
            r@ == report_of(flags_view(flags@)),
    {
        let mut has_critical = false;
        let mut has_warning = false;
        let mut i: usize = 0;
        while i < flags.len()
            invariant
                i <= flags@.len(),
                has_critical == (exists|j: int|
                    0 <= j < i && #[trigger] flags@[j].severity == FlagSeverity::Critical),
                has_warning == (exists|j: int|
                    0 <= j < i && #[trigger] flags@[j].severity == FlagSeverity::Warning),
            decreases flags@.len() - i,
        {
            if flags[i].severity == FlagSeverity::Critical {
                has_critical = true;
            }
            if flags[i].severity == FlagSeverity::Warning {
                has_warning = true;
            }
            i = i + 1;
        }
        proof {
            let fv = flags_view(flags@);
            if has_critical {
                let j = choose|j: int|
                    0 <= j < flags@.len() && #[trigger] flags@[j].severity
                        == FlagSeverity::Critical;
                assert(fv[j].severity == FlagSeverity::Critical);
            }
            if any_with_severity(fv, FlagSeverity::Critical) {
                let j = choose|j: int|
                    0 <= j < fv.len() && #[trigger] fv[j].severity == FlagSeverity::Critical;
                assert(flags@[j].severity == FlagSeverity::Critical);
            }
            if has_warning {
                let j = choose|j: int|
                    0 <= j < flags@.len() && #[trigger] flags@[j].severity
                        == FlagSeverity::Warning;
                assert(fv[j].severity == FlagSeverity::Warning);
            }
            if any_with_severity(fv, FlagSeverity::Warning) {
                let j = choose|j: int|
                    0 <= j < fv.len() && #[trigger] fv[j].severity == FlagSeverity::Warning;
                assert(flags@[j].severity == FlagSeverity::Warning);
            }
        }
        IntegrityReport { flags, has_critical, has_warning }
    }
}

/// The thread-count flag.
pub open spec fn thread_flag(model: Seq<char>, expected: u32, actual: usize) -> FraudFlagView {
    FraudFlagView {
        severity: FlagSeverity::Critical,
        check_id: "cpu_thread_count_mismatch"@,
        message_key: "fraud.cpuThreadMismatch"@,
        detail: Some(
            "reported '"@ + model + "' claims "@ + decimal(expected as nat)
                + " threads but OS counts "@ + decimal(actual as nat),
        ),
    }
}

/// The core-count flag.
pub open spec fn core_flag(model: Seq<char>, expected: u32, actual: u32) -> FraudFlagView {
    FraudFlagView {
        severity: FlagSeverity::Critical,
        check_id: "cpu_core_count_mismatch"@,
        message_key: "fraud.cpuCoreMismatch"@,
        detail: Some(
            "reported '"@ + model + "' claims "@ + decimal(expected as nat)
                + " cores but WMI reports "@ + decimal(actual as nat),
        ),
    }
}

/// CPU identity: only a model known to the database is checked. A thread
/// count other than the model's is a Critical flag; so is a physical core
/// count (when WMI gave one) other than the model's.
pub open spec fn cpu_flags(hw: FullHardwareInfo, db: KnownModels) -> Seq<FraudFlagView> {
    let key = lookup_key(hw.cpu_name@);
    if !db@.contains_key(key) {
        Seq::empty()
    } else {
        let known = db@[key];
        let threads = if hw.cpu_threads != known.expected_threads {
            seq![thread_flag(hw.cpu_name@, known.expected_threads, hw.cpu_threads)]
        } else {
            Seq::empty()
        };
        let cores = match hw.cpu_cores_physical {
            Some(actual) => if actual != known.expected_cores {
                seq![core_flag(hw.cpu_name@, known.expected_cores, actual)]
            } else {
                Seq::empty()
            },
            None => Seq::empty(),
        };
        threads + cores
    }
}

fn mismatch_flag(
    check_id: &str,
    message_key: &str,
    model: &str,
    expected: u64,
    unit_and_source: &str,
    actual: u64,
) -> (f: FraudFlag)
    ensures
        f@ == (FraudFlagView {
            severity: FlagSeverity::Critical,
            check_id: check_id@,
            message_key: message_key@,
            detail: Some(
                "reported '"@ + model@ + "' claims "@ + decimal(expected as nat) + unit_and_source@
                    + decimal(actual as nat),
            ),
        }),
{
    let mut d = String::from_str("reported '");
    d.append(model);
    d.append("' claims ");
    push_decimal(&mut d, expected);
    d.append(unit_and_source);
    push_decimal(&mut d, actual);
    proof {
        assert(d@ =~= "reported '"@ + model@ + "' claims "@ + decimal(expected as nat)
            + unit_and_source@ + decimal(actual as nat));
    }
    FraudFlag {
        severity: FlagSeverity::Critical,
        check_id: String::from_str(check_id),
        message_key: String::from_str(message_key),
        detail: Some(d),
    }
}

/// CPU: reported model string vs the thread count the OS sees (and the
/// physical core count, when WMI provided one). Unknown models are never
/// flagged.
pub fn check_cpu_identity(hw: &FullHardwareInfo, db: &KnownModels) -> (flags: Vec<FraudFlag>)
    ensures
        flags_view(flags@) == cpu_flags(*hw, *db),
{
    let known = match db.cpu(hw.cpu_name.as_str()) {
        None => {
            let v: Vec<FraudFlag> = Vec::new();
            assert(flags_view(v@) =~= Seq::<FraudFlagView>::empty());
            return v;
        },
        Some(k) => k,
    };
    let mut flags: Vec<FraudFlag> = Vec::new();
    if hw.cpu_threads != known.expected_threads as usize {
        flags.push(
            mismatch_flag(
                "cpu_thread_count_mismatch",
                "fraud.cpuThreadMismatch",
                hw.cpu_name.as_str(),
                known.expected_threads as u64,
                " threads but OS counts ",
                hw.cpu_threads as u64,
            ),
        );
    }
    let ghost after_threads = flags_view(flags@);
    if let Some(actual_cores) = hw.cpu_cores_physical {
        if actual_cores != known.expected_cores {
            flags.push(
                mismatch_flag(
                    "cpu_core_count_mismatch",
                    "fraud.cpuCoreMismatch",
                    hw.cpu_name.as_str(),
                    known.expected_cores as u64,
                    " cores but WMI reports ",
                    actual_cores as u64,
                ),
            );
        }
    }
    proof {
        let key = lookup_key(hw.cpu_name@);
        assert(db@[key] == known@);
        let threads = if hw.cpu_threads != known.expected_threads {
            seq![thread_flag(hw.cpu_name@, known.expected_threads, hw.cpu_threads)]
        } else {
            Seq::empty()
        };
        assert(after_threads =~= threads);
        assert(flags_view(flags@) =~= cpu_flags(*hw, *db));
    }
    flags
}

/// One GiB.
pub open spec fn gib() -> nat {
    0x4000_0000
}

/// `n / d` rounded to the nearest integer, ties to even.
pub open spec fn div_round_half_even(n: nat, d: nat) -> nat {
    let q = n / d;
    let r = n % d;
    if 2 * r > d || (2 * r == d && q % 2 == 1) {
        q + 1
    } else {
        q
    }
}

/// The spacing of the doubles around `n`: 1 below 2^53, doubling each time
/// the magnitude doubles.
pub open spec fn f64_spacing(n: nat) -> nat
    decreases n,
{
    if n < 0x20_0000_0000_0000 {
        1
    } else {
        2 * f64_spacing(n / 2)
    }
}

/// The value of `n as f64`: the nearest double, ties to even.
pub open spec fn f64_value(n: nat) -> nat {
    div_round_half_even(n, f64_spacing(n)) * f64_spacing(n)
}

/// `{:.0}` of the capacity in GiB: the size as a double, divided by 2^30,
/// rounded to a whole number (ties to even).
pub open spec fn gib_whole(bytes: u64) -> nat {
    div_round_half_even(f64_value(bytes as nat), gib())
}

/// `{:.1}` of the capacity in GiB, in tenths, for sizes below 2^53 bytes.
pub open spec fn gib_tenths(bytes: u64) -> nat {
    div_round_half_even(10 * (bytes as nat), gib())
}

/// The flag for a large "NVMe" drive that reports no endurance data.
pub open spec fn fake_nvme_flag(model: Option<Seq<char>>, bytes: u64) -> FraudFlagView {
    FraudFlagView {
        severity: FlagSeverity::Critical,
        check_id: "fake_nvme_capacity"@,
        message_key: "fraud.fakeNvmeCapacity"@,
        detail: Some(
            "'"@ + (match model {
                Some(m) => m,
                None => "unknown"@,
            }) + "' reports "@ + decimal(gib_whole(bytes)) + " GB over NVMe but no endurance data"@,
        ),
    }
}

/// The flag for an implausibly small "NVMe SSD".
pub open spec fn absurd_nvme_flag(bytes: u64) -> FraudFlagView {
    FraudFlagView {
        severity: FlagSeverity::Critical,
        check_id: "absurd_nvme_capacity"@,
        message_key: "fraud.absurdCapacity"@,
        detail: Some(
            decimal(gib_tenths(bytes) / 10) + "."@ + decimal(gib_tenths(bytes) % 10)
                + " GB advertised as NVMe SSD"@,
        ),
    }
}

/// Storage, one drive: only drives with a known capacity that speak NVMe
/// are judged. 400 GiB or more with no endurance telemetry is a fake; below
/// 16 GiB is absurd.
pub open spec fn drive_flags(d: StorageInfo) -> Seq<FraudFlagView> {
    match d.total_capacity_bytes {
        None => Seq::empty(),
        Some(bytes) => {
            let nvme = opt_string_view(d.protocol) == Some("nvme"@);
            let fake = if nvme && d.nvme_percentage_used is None && bytes >= 400 * gib() {
                seq![fake_nvme_flag(opt_string_view(d.model_name), bytes)]
            } else {
                Seq::empty()
            };
            let absurd = if nvme && bytes < 16 * gib() {
                seq![absurd_nvme_flag(bytes)]
            } else {
                Seq::empty()
            };
            fake + absurd
        },
    }
}

/// Storage, all drives in order.
pub open spec fn storage_flags(drives: Seq<StorageInfo>) -> Seq<FraudFlagView>
    decreases drives.len(),
{
    if drives.len() == 0 {
        Seq::empty()
    } else {
        storage_flags(drives.drop_last()) + drive_flags(drives.last())
    }
}

fn div_round_half_even_exec(n: u128, d: u128) -> (r: u128)
    requires
        0 < d <= 0x1_0000_0000_0000_0000,
        n < 0x1_0000_0000_0000_0000_0000,
    ensures
        r == div_round_half_even(n as nat, d as nat),
        r <= n / d + 1,
{
    let q = n / d;
    let r = n % d;
    proof {
        assert(q <= n) by (nonlinear_arith)
            requires
                q == n / d,
                d > 0,
        ;
        assert(r < d);
    }
    if 2 * r > d || (2 * r == d && q % 2 == 1) {
        q + 1
    } else {
        q
    }
}

proof fn lemma_spacing_positive(n: nat)
    ensures
        f64_spacing(n) >= 1,
    decreases n,
{
    if n >= 0x20_0000_0000_0000 {
        lemma_spacing_positive(n / 2);
    }
}

/// `n as f64`, as an integer.
fn f64_value_exec(n: u64) -> (r: u128)
    ensures
        r == f64_value(n as nat),
        r <= 0x1_0000_0000_0000_1000,
{
    let mut m: u64 = n;
    let mut p: u64 = 1;
    while m >= 0x20_0000_0000_0000
        invariant
            p >= 1,
            m == n / p,
            f64_spacing(n as nat) == p * f64_spacing(m as nat),
            p <= 0x1000,
        decreases m,
    {
        proof {
            assert(p * 0x20_0000_0000_0000 <= n) by (nonlinear_arith)
                requires
                    m == n / p,
                    m >= 0x20_0000_0000_0000,
                    p >= 1,
            ;
            assert(p < 0x800);
            vstd::arithmetic::div_mod::lemma_div_denominator(n as int, p as int, 2);
            assert(f64_spacing(m as nat) == 2 * f64_spacing((m / 2) as nat));
            assert(p * (2 * f64_spacing((m / 2) as nat)) == (2 * p) * f64_spacing((m / 2) as nat))
                by (nonlinear_arith);
        }
        m = m / 2;
        p = p * 2;
    }
    proof {
        lemma_spacing_positive(n as nat);
        assert(f64_spacing(m as nat) == 1);
        let sm = f64_spacing(m as nat);
        assert(p * sm == p) by (nonlinear_arith)
            requires
                sm == 1,
        ;
        assert(f64_spacing(n as nat) == p);
    }
    let q = div_round_half_even_exec(n as u128, p as u128);
    proof {
        assert(q * p <= 0x1_0000_0000_0000_1000) by (nonlinear_arith)
            requires
                q <= n / p + 1,
                p >= 1,
                p <= 0x1000,
                n < 0x1_0000_0000_0000_0000,
        ;
    }
    q * (p as u128)
}

fn fake_nvme(model: &Option<String>, bytes: u64) -> (f: FraudFlag)
    ensures
        f@ == fake_nvme_flag(opt_string_view(*model), bytes),
{
    let mut d = String::from_str("'");
    match model {
        Some(m) => d.append(m.as_str()),
        None => d.append("unknown"),
    }
    d.append("' reports ");
    let v = f64_value_exec(bytes);
    let w = div_round_half_even_exec(v, 0x4000_0000);
    proof {
        assert(w <= 0x4_0000_0010) by (nonlinear_arith)
            requires
                w <= v / 0x4000_0000 + 1,
                v <= 0x1_0000_0000_0000_1000,
        ;
    }
    push_decimal(&mut d, w as u64);
    d.append(" GB over NVMe but no endurance data");
    proof {
        let name = match opt_string_view(*model) {
            Some(m) => m,
            None => "unknown"@,
        };
        assert(d@ =~= "'"@ + name + "' reports "@ + decimal(gib_whole(bytes))
            + " GB over NVMe but no endurance data"@);
    }
    FraudFlag {
        severity: FlagSeverity::Critical,
        check_id: String::from_str("fake_nvme_capacity"),
        message_key: String::from_str("fraud.fakeNvmeCapacity"),
        detail: Some(d),
    }
}

fn absurd_nvme(bytes: u64) -> (f: FraudFlag)
    requires
        bytes < 16 * gib(),
    ensures
        f@ == absurd_nvme_flag(bytes),
{
    let t = div_round_half_even_exec(10 * (bytes as u128), 0x4000_0000);
    proof {
        assert(t <= 161);
    }
    let t = t as u64;
    let mut d = String::new();
    push_decimal(&mut d, t / 10);
    d.append(".");
    push_decimal(&mut d, t % 10);
    d.append(" GB advertised as NVMe SSD");
    proof {
        assert(d@ =~= decimal(gib_tenths(bytes) / 10) + "."@ + decimal(gib_tenths(bytes) % 10)
            + " GB advertised as NVMe SSD"@);
    }
    FraudFlag {
        severity: FlagSeverity::Critical,
        check_id: String::from_str("absurd_nvme_capacity"),
        message_key: String::from_str("fraud.absurdCapacity"),
        detail: Some(d),
    }
}

/// Storage: a drive claiming NVMe with 400 GiB or more but no endurance
/// telemetry (real NVMe drives report percentage used), or an "NVMe SSD"
/// below 16 GiB. Drives that are not NVMe are never flagged.
pub fn check_storage_capacity(storage: &[StorageInfo]) -> (flags: Vec<FraudFlag>)
    ensures
        flags_view(flags@) == storage_flags(storage@),
{
    let mut flags: Vec<FraudFlag> = Vec::new();
    let mut i: usize = 0;
    while i < storage.len()
        invariant
            i <= storage@.len(),
            flags_view(flags@) == storage_flags(storage@.take(i as int)),
        decreases storage@.len() - i,
    {
        let d = &storage[i];
        let ghost before = flags_view(flags@);
        proof {
            assert(storage@.take(i + 1).drop_last() =~= storage@.take(i as int));
            assert(storage@.take(i + 1).last() == *d);
        }
        if let Some(bytes) = d.total_capacity_bytes {
            let nvme = match &d.protocol {
                Some(p) => str_eq(p.as_str(), "nvme"),
                None => false,
            };
            if nvme && d.nvme_percentage_used.is_none() && bytes >= 400 * 0x4000_0000 {
                flags.push(fake_nvme(&d.model_name, bytes));
            }
            let ghost mid = flags_view(flags@);
            if nvme && bytes < 16 * 0x4000_0000 {
                flags.push(absurd_nvme(bytes));
            }
            proof {
                let fake = if nvme && d.nvme_percentage_used is None && bytes >= 400 * gib() {
                    seq![fake_nvme_flag(opt_string_view(d.model_name), bytes)]
                } else {
                    Seq::empty()
                };
                assert(mid =~= before + fake);
                assert(flags_view(flags@) =~= before + drive_flags(*d));
            }
        } else {
            assert(drive_flags(*d) =~= Seq::<FraudFlagView>::empty());
            assert(before + drive_flags(*d) =~= before);
        }
        i = i + 1;
    }
    assert(storage@.take(i as int) =~= storage@);
    flags
}

/// Every consistency check over the collected diagnostics: the CPU flags,
/// then the storage flags.
pub fn run_checks(hw: &FullHardwareInfo, storage: &[StorageInfo], db: &KnownModels) -> (r:
    IntegrityReport)
    ensures
        r@ == report_of(cpu_flags(*hw, *db) + storage_flags(storage@)),
{
    let mut flags = check_cpu_identity(hw, db);
    let mut more = check_storage_capacity(storage);
    let ghost a = flags@;
    let ghost b = more@;
    flags.append(&mut more);
    assert(flags_view(flags@) =~= flags_view(a) + flags_view(b));
    IntegrityReport::from_flags(flags)
}

/// A CPU model that the database does not know is never flagged.
pub proof fn lemma_unknown_cpu_never_flagged(hw: FullHardwareInfo, db: KnownModels)
    requires
        !db@.contains_key(lookup_key(hw.cpu_name@)),
    ensures
        cpu_flags(hw, db) == Seq::<FraudFlagView>::empty(),
{
}

/// A known CPU whose thread count matches its model, and whose physical
/// core count (when known) matches too, is never flagged.
pub proof fn lemma_matching_cpu_never_flagged(hw: FullHardwareInfo, db: KnownModels)
    requires
        db@.contains_key(lookup_key(hw.cpu_name@)),
        hw.cpu_threads == db@[lookup_key(hw.cpu_name@)].expected_threads,
        hw.cpu_cores_physical matches Some(c) ==> c == db@[lookup_key(hw.cpu_name@)].expected_cores,
    ensures
        cpu_flags(hw, db) == Seq::<FraudFlagView>::empty(),
{
    assert(cpu_flags(hw, db) =~= Seq::<FraudFlagView>::empty());
}

/// A known model whose physical core count (from WMI) differs from the
/// model's gets a Critical core-count flag naming both counts, whatever the
/// thread count is.
pub proof fn lemma_core_mismatch_flagged(hw: FullHardwareInfo, db: KnownModels, actual: u32)
    requires
        db@.contains_key(lookup_key(hw.cpu_name@)),
        hw.cpu_cores_physical == Some(actual),
        actual != db@[lookup_key(hw.cpu_name@)].expected_cores,
    ensures
        exists|i: int|
            0 <= i < cpu_flags(hw, db).len() && #[trigger] cpu_flags(hw, db)[i] == (FraudFlagView {
                severity: FlagSeverity::Critical,
                check_id: "cpu_core_count_mismatch"@,
                message_key: "fraud.cpuCoreMismatch"@,
                detail: Some(
                    "reported '"@ + hw.cpu_name@ + "' claims "@ + decimal(
                        db@[lookup_key(hw.cpu_name@)].expected_cores as nat,
                    ) + " cores but WMI reports "@ + decimal(actual as nat),
                ),
            }),
        report_of(cpu_flags(hw, db)).has_critical,
{
    let flags = cpu_flags(hw, db);
    let i = flags.len() - 1;
    assert(flags[i].severity == FlagSeverity::Critical);
}

/// A known model whose thread count differs from the model's gets a
/// Critical thread-count flag naming both counts, whatever the core count is.
pub proof fn lemma_thread_mismatch_flagged(hw: FullHardwareInfo, db: KnownModels)
    requires
        db@.contains_key(lookup_key(hw.cpu_name@)),
        hw.cpu_threads != db@[lookup_key(hw.cpu_name@)].expected_threads,
    ensures
        cpu_flags(hw, db).len() >= 1,
        cpu_flags(hw, db)[0] == (FraudFlagView {
            severity: FlagSeverity::Critical,
            check_id: "cpu_thread_count_mismatch"@,
            message_key: "fraud.cpuThreadMismatch"@,
            detail: Some(
                "reported '"@ + hw.cpu_name@ + "' claims "@ + decimal(
                    db@[lookup_key(hw.cpu_name@)].expected_threads as nat,
                ) + " threads but OS counts "@ + decimal(hw.cpu_threads as nat),
            ),
        }),
{
}

/// Each drive is judged on its own: the flags of two lists of drives are
/// the flags of the first followed by those of the second.
pub proof fn lemma_storage_flags_per_drive(a: Seq<StorageInfo>, b: Seq<StorageInfo>)
    ensures
        storage_flags(a + b) == storage_flags(a) + storage_flags(b),
    decreases b.len(),
{
    if b.len() == 0 {
        assert(a + b =~= a);
        assert(storage_flags(a) + storage_flags(b) =~= storage_flags(a));
    } else {
        lemma_storage_flags_per_drive(a, b.drop_last());
        assert((a + b).drop_last() =~= a + b.drop_last());
        assert((a + b).last() == b.last());
        assert(storage_flags(a + b) =~= storage_flags(a) + storage_flags(b));
    }
}

pub open spec fn has_check(flags: Seq<FraudFlagView>, id: Seq<char>) -> bool {
    exists|i: int| 0 <= i < flags.len() && #[trigger] flags[i].check_id == id
}

/// An NVMe drive of known capacity is flagged as a fake exactly when it
/// reports no endurance data and holds at least 400 GiB
/// (429,496,729,600 bytes), and as absurd exactly when it holds less than
/// 16 GiB (17,179,869,184 bytes); both flags are Critical.
pub proof fn lemma_nvme_capacity_thresholds(d: StorageInfo, bytes: u64)
    requires
        d.total_capacity_bytes == Some(bytes),
        opt_string_view(d.protocol) == Some("nvme"@),
    ensures
        has_check(storage_flags(seq![d]), "fake_nvme_capacity"@) <==> (d.nvme_percentage_used is None
            && bytes >= 429_496_729_600),
        has_check(storage_flags(seq![d]), "absurd_nvme_capacity"@) <==> bytes < 17_179_869_184,
        forall|i: int|
            0 <= i < storage_flags(seq![d]).len() ==> (#[trigger] storage_flags(seq![d])[i]).severity
                == FlagSeverity::Critical,
{
    let one = seq![d];
    assert(one.drop_last() =~= Seq::<StorageInfo>::empty());
    assert(one.last() == d);
    assert(storage_flags(one.drop_last()) =~= Seq::<FraudFlagView>::empty());
    assert(storage_flags(one) =~= drive_flags(d));
    let f = drive_flags(d);
    reveal_strlit("fake_nvme_capacity");
    reveal_strlit("absurd_nvme_capacity");
    if has_check(f, "fake_nvme_capacity"@) {
        let i = choose|i: int| 0 <= i < f.len() && #[trigger] f[i].check_id == "fake_nvme_capacity"@;
        if !(d.nvme_percentage_used is None && bytes >= 400 * gib()) {
            assert(f[i].check_id == "absurd_nvme_capacity"@);
            assert(f[i].check_id[0] == 'a');
        }
    }
    if d.nvme_percentage_used is None && bytes >= 400 * gib() {
        assert(f[0].check_id == "fake_nvme_capacity"@);
    }
    if has_check(f, "absurd_nvme_capacity"@) {
        let i = choose|i: int| 0 <= i < f.len() && #[trigger] f[i].check_id == "absurd_nvme_capacity"@;
        if !(bytes < 16 * gib()) {
            assert(f[i].check_id == "fake_nvme_capacity"@);
            assert(f[i].check_id[0] == 'f');
        }
    }
    if bytes < 16 * gib() {
        assert(f[f.len() - 1].check_id == "absurd_nvme_capacity"@);
    }
}

/// A drive that does not speak NVMe is never flagged, whatever it reports.
pub proof fn lemma_non_nvme_never_flagged(drives: Seq<StorageInfo>)
    requires
        forall|i: int|
            0 <= i < drives.len() ==> opt_string_view(#[trigger] drives[i].protocol) != Some(
                "nvme"@,
            ),
    ensures
        storage_flags(drives) == Seq::<FraudFlagView>::empty(),
    decreases drives.len(),
{
    if drives.len() > 0 {
        let rest = drives.drop_last();
        assert forall|i: int| 0 <= i < rest.len() implies opt_string_view(
            #[trigger] rest[i].protocol,
        ) != Some("nvme"@) by {
            assert(rest[i] == drives[i]);
        }
        lemma_non_nvme_never_flagged(rest);
        assert(opt_string_view(drives[drives.len() - 1].protocol) != Some("nvme"@));
        assert(drive_flags(drives.last()) =~= Seq::<FraudFlagView>::empty());
        assert(storage_flags(drives) =~= Seq::<FraudFlagView>::empty());
    }
}

/// An NVMe drive that reports endurance data and has at least 16 GiB is
/// never flagged.
pub proof fn lemma_healthy_nvme_never_flagged(d: StorageInfo)
    requires
        d.nvme_percentage_used is Some,
        d.total_capacity_bytes matches Some(b) ==> b >= 16 * gib(),
    ensures
        drive_flags(d) == Seq::<FraudFlagView>::empty(),
{
    assert(drive_flags(d) =~= Seq::<FraudFlagView>::empty());
}

/// Every flag the checks raise is Critical.
pub proof fn lemma_all_flags_critical(hw: FullHardwareInfo, storage: Seq<StorageInfo>, db: KnownModels)
    ensures
        forall|i: int|
            0 <= i < (cpu_flags(hw, db) + storage_flags(storage)).len() ==> (#[trigger] (cpu_flags(
                hw,
                db,
            ) + storage_flags(storage))[i]).severity == FlagSeverity::Critical,
    decreases storage.len(),
{
    let c = cpu_flags(hw, db);
    let s = storage_flags(storage);
    if storage.len() > 0 {
        lemma_all_flags_critical(hw, storage.drop_last(), db);
        let s0 = storage_flags(storage.drop_last());
        let d = drive_flags(storage.last());
        assert(s == s0 + d);
        assert forall|i: int| 0 <= i < (c + s).len() implies (#[trigger] (c + s)[i]).severity
            == FlagSeverity::Critical by {
            if i < c.len() + s0.len() {
                assert((c + s)[i] == (c + s0)[i]);
            } else {
                assert((c + s)[i] == d[i - c.len() - s0.len()]);
            }
        }
    }
}

/// Since every flag is Critical, a report has a Critical flag exactly when
/// it has any flag, and never has a Warning.
pub proof fn lemma_report_critical_iff_flagged(
    hw: FullHardwareInfo,
    storage: Seq<StorageInfo>,
    db: KnownModels,
)
    ensures
        ({
            let r = report_of(cpu_flags(hw, db) + storage_flags(storage));
            &&& r.has_critical == (r.flags.len() > 0)
            &&& !r.has_warning
        }),
{
    lemma_all_flags_critical(hw, storage, db);
    let flags = cpu_flags(hw, db) + storage_flags(storage);
    if flags.len() > 0 {
        assert(flags[0].severity == FlagSeverity::Critical);
    }
    if any_with_severity(flags, FlagSeverity::Warning) {
        let j = choose|j: int| 0 <= j < flags.len() && #[trigger] flags[j].severity == FlagSeverity::Warning;
        assert(flags[j].severity == FlagSeverity::Critical);
    }
}

} // verus!
