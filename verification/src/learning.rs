//! The learning loop around resolved trades: where experience cases go,
//! how a reconciliation pass is accounted for, how a losing trade is
//! attributed to a failure mode, and how attributions become a prompt
//! mutation.
use vstd::prelude::*;
use crate::outcomes::signal_stem;
use crate::labels::{exit_name, spec_parse_exit, ExitReason};
use crate::mask::{byte_len, bytes_exceed, chars_before, find_boundary, is_boundary, replace_str};
use crate::paths::{join_path, path_join, sanitise, sanitised};
use crate::text::{push_decimal, is_blank, lemma_lt_irreflexive, lemma_lt_total, lemma_lt_transitive, seq_lt, str_eq, str_lt, append, concat2, concat3, contains, decimal, ends_with, join, join_strs, owned, replace_all, string_of, chars_of, str_contains, str_ends_with, to_lowercase, trim, trim_end, trim_end_str, unicode_lowercase, views};

verus! {

broadcast use vstd::string::group_string_axioms;

// ---------------------------------------------------------------------------
// Experience cases.
// ---------------------------------------------------------------------------

/// Writes qualified outcomes into the experience library, one case file per
/// signal, grouped by cycle position and by success or failure.
#[derive(Debug)]
pub struct ExperienceWriter {
    dir: String,
}

/// The directory name for a cycle position: `unknown` when blank, else the
/// sanitised position.
pub open spec fn cycle_dir_name(cycle_position: Seq<char>) -> Seq<char> {
    if trim(cycle_position).len() == 0 {
        "unknown"@
    } else {
        sanitised(cycle_position, "unknown"@)
    }
}

/// What a case file name ends with for a signal.
pub open spec fn case_suffix(signal_id: Seq<char>) -> Seq<char> {
    "_"@ + signal_stem(signal_id) + ".json"@
}

/// `YYYY-MM-DD_HH-MM-SS` for a UTC instant in milliseconds since the epoch,
/// or `None` outside the range `chrono` represents.
pub uninterp spec fn case_stamp_of(ms: int) -> Option<Seq<char>>;

/// Formats an instant with `chrono::DateTime::from_timestamp_millis` and
/// `format("%Y-%m-%d_%H-%M-%S")`; the result is the named stamp.
#[verifier::external_body]
fn case_stamp(ms: i64) -> (r: Option<String>)
    ensures
        match r {
            Some(s) => case_stamp_of(ms as int) == Some(s@),
            None => case_stamp_of(ms as int) is None,
        },
{
    chrono::DateTime::from_timestamp_millis(ms).map(|t| t.format("%Y-%m-%d_%H-%M-%S").to_string())
}

/// The stamp a case file is named with: that of the later of resolution and
/// creation, or of `now_ms` when that instant cannot be formatted.
pub open spec fn spec_case_filename(resolved_ms: int, created_ms: int, now_ms: int, signal_id: Seq<char>) -> Option<Seq<char>> {
    let ts = if resolved_ms >= created_ms {
        resolved_ms
    } else {
        created_ms
    };
    let stamp = match case_stamp_of(ts) {
        Some(s) => Some(s),
        None => case_stamp_of(now_ms),
    };
    match stamp {
        Some(s) => Some(s + case_suffix(signal_id)),
        None => None,
    }
}

impl ExperienceWriter {
    /// The root of the experience library.
    pub closed spec fn dir_path(&self) -> Seq<char> {
        self.dir@
    }

    /// A writer over the library rooted at `dir`.
    pub fn new(dir: &str) -> (w: Self)
        ensures
            w.dir_path() == dir@,
    {
        ExperienceWriter { dir: owned(dir) }
    }

    /// The library's root.
    pub fn dir(&self) -> (r: &str)
        ensures
            r@ == self.dir_path(),
    {
        self.dir.as_str()
    }

    /// The directory of the cases for a cycle position.
    pub fn case_dir(&self, cycle_position: &str) -> (r: String)
        ensures
            r@ == join_path(self.dir_path(), cycle_dir_name(cycle_position@)),
    {
        let name = if crate::text::is_blank(cycle_position) {
            String::from_str("unknown")
        } else {
            sanitise(cycle_position, "unknown")
        };
        path_join(self.dir.as_str(), name.as_str())
    }

    /// Where the case for a signal goes: under its cycle position, in the
    /// success or failure folder, named by `file_name`.
    pub fn case_path(&self, cycle_position: &str, success: bool, file_name: &str) -> (r: String)
        ensures
            r@ == join_path(
                join_path(
                    join_path(self.dir_path(), cycle_dir_name(cycle_position@)),
                    if success {
                        "success_cases"@
                    } else {
                        "failure_cases"@
                    },
                ),
                file_name@,
            ),
    {
        let d = self.case_dir(cycle_position);
        let kind = if success {
            "success_cases"
        } else {
            "failure_cases"
        };
        let k = path_join(d.as_str(), kind);
        path_join(k.as_str(), file_name)
    }

    /// The file name of a case: its time stamp, `_`, the sanitised signal id
    /// and `.json`; `None` when no instant can be formatted.
    pub fn case_filename(resolved_ms: i64, created_ms: i64, now_ms: i64, signal_id: &str) -> (r: Option<String>)
        ensures
            match r {
                Some(s) => spec_case_filename(resolved_ms as int, created_ms as int, now_ms as int, signal_id@) == Some(s@),
                None => spec_case_filename(resolved_ms as int, created_ms as int, now_ms as int, signal_id@) is None,
            },
    {
        let ts = if resolved_ms >= created_ms {
            resolved_ms
        } else {
            created_ms
        };
        let stamp = match case_stamp(ts) {
            Some(s) => s,
            None => match case_stamp(now_ms) {
                Some(s) => s,
                None => {
                    return None;
                },
            },
        };
        let stem = sanitise(signal_id, "unknown");
        let name = concat3(stamp.as_str(), "_", stem.as_str());
        Some(concat2(name.as_str(), ".json"))
    }

    /// Whether a case for `signal_id` is already recorded, given the names
    /// of the case files in every success and failure folder.
    pub fn has_case(&self, signal_id: &str, file_names: &Vec<String>) -> (r: bool)
        ensures
            r == exists|i: int| 0 <= i < file_names.len() && ends_with(#[trigger] file_names@[i]@, case_suffix(signal_id@)),
    {
        let stem = sanitise(signal_id, "unknown");
        let suffix = concat3("_", stem.as_str(), ".json");
        let mut i: usize = 0;
        while i < file_names.len()
            invariant
                0 <= i <= file_names.len(),
                suffix@ == case_suffix(signal_id@),
                forall|k: int| 0 <= k < i ==> !ends_with(#[trigger] file_names@[k]@, suffix@),
            decreases file_names.len() - i,
        {
            if str_ends_with(file_names[i].as_str(), suffix.as_str()) {
                return true;
            }
            i += 1;
        }
        false
    }
}

/// Where one outcome is recorded: nowhere when the sample is unqualified or
/// its signal already has a case; otherwise the case path for its cycle
/// position, success and file name (nowhere when no instant can be
/// formatted).
pub open spec fn spec_record_path(
    dir: Seq<char>,
    qualified: bool,
    already_recorded: bool,
    cycle_position: Seq<char>,
    success: bool,
    file_name: Option<Seq<char>>,
) -> Option<Seq<char>> {
    if !qualified || already_recorded {
        None
    } else {
        match file_name {
            Some(f) => Some(
                join_path(
                    join_path(
                        join_path(dir, cycle_dir_name(cycle_position)),
                        if success {
                            "success_cases"@
                        } else {
                            "failure_cases"@
                        },
                    ),
                    f,
                ),
            ),
            None => None,
        }
    }
}

impl ExperienceWriter {
    /// Decides where one outcome is recorded. `file_names` are the names of
    /// the case files already in the library; `success` is whether the
    /// trade ended with a positive R multiple. `None` means nothing is
    /// written.
    pub fn record_path(
        &self,
        qualified: bool,
        signal_id: &str,
        file_names: &Vec<String>,
        cycle_position: &str,
        success: bool,
        resolved_ms: i64,
        created_ms: i64,
        now_ms: i64,
    ) -> (r: Option<String>)
        ensures
            ({
                let recorded = exists|i: int|
                    0 <= i < file_names.len() && ends_with(#[trigger] file_names@[i]@, case_suffix(signal_id@));
                let target = spec_record_path(
                    self.dir_path(),
                    qualified,
                    recorded,
                    cycle_position@,
                    success,
                    spec_case_filename(resolved_ms as int, created_ms as int, now_ms as int, signal_id@),
                );
                match r {
                    Some(p) => target == Some(p@),
                    None => target is None,
                }
            }),
    {
        if !qualified {
            return None;
        }
        if self.has_case(signal_id, file_names) {
            return None;
        }
        match Self::case_filename(resolved_ms, created_ms, now_ms, signal_id) {
            Some(name) => Some(self.case_path(cycle_position, success, name.as_str())),
            None => None,
        }
    }
}

/// Recording is idempotent: the file a signal's case is written to ends
/// with that signal's case suffix, so once it is in the library the signal
/// counts as recorded, and recording it again writes nothing.
pub proof fn law_record_is_idempotent(
    dir: Seq<char>,
    qualified: bool,
    cycle_position: Seq<char>,
    success: bool,
    resolved_ms: int,
    created_ms: int,
    now_ms: int,
    signal_id: Seq<char>,
)
    ensures
        spec_case_filename(resolved_ms, created_ms, now_ms, signal_id) matches Some(f) ==> ends_with(
            f,
            case_suffix(signal_id),
        ),
        spec_record_path(
            dir,
            qualified,
            true,
            cycle_position,
            success,
            spec_case_filename(resolved_ms, created_ms, now_ms, signal_id),
        ) is None,
{
    match spec_case_filename(resolved_ms, created_ms, now_ms, signal_id) {
        Some(f) => {
            let ts = if resolved_ms >= created_ms {
                resolved_ms
            } else {
                created_ms
            };
            let stamp = match case_stamp_of(ts) {
                Some(x) => x,
                None => case_stamp_of(now_ms)->0,
            };
            let suf = case_suffix(signal_id);
            assert(f == stamp + suf);
            assert(f.subrange(f.len() - suf.len(), f.len() as int) =~= suf);
        },
        None => {},
    }
}

/// An unqualified sample is never written.
pub proof fn law_unqualified_is_never_written(
    dir: Seq<char>,
    already_recorded: bool,
    cycle_position: Seq<char>,
    success: bool,
    file_name: Option<Seq<char>>,
)
    ensures
        spec_record_path(dir, false, already_recorded, cycle_position, success, file_name) is None,
{
}

// ---------------------------------------------------------------------------
// Reconciliation accounting.
// ---------------------------------------------------------------------------

/// Everything about a decision that its outcome inherits.
#[derive(Debug)]
pub struct SignalContext {
    pub decision_record_id: String,
    pub strategy_id: String,
    pub strategy_version: String,
    pub prompt_version: String,
    pub prompt_hash: String,
    pub cycle_position: String,
    pub detected_patterns: Vec<String>,
}

/// The tally of one reconciliation pass.
#[derive(Debug)]
pub struct ReconcileReport {
    pub checked: usize,
    pub resolved: usize,
    pub still_open: usize,
    pub unfilled: usize,
    pub experiences_written: usize,
    pub skipped_existing: usize,
    pub errors: Vec<String>,
}

/// What a pass does with one audit row.
#[derive(Debug, Clone, Copy, PartialEq, Eq, Structural)]
pub enum Triage {
    /// Not submitted, or without a signal id.
    Skip,
    /// Its outcome is already stored.
    AlreadyStored,
    /// Older than the pass reaches back.
    TooOld,
    /// To be looked up at the venue.
    Check,
}

/// The triage of an audit row.
pub open spec fn spec_triage(submitted: bool, id_empty: bool, stored: bool, now_ms: int, ts_ms: int, max_age_ms: int) -> Triage {
    let age = if now_ms - ts_ms < i64::MIN {
        i64::MIN as int
    } else if now_ms - ts_ms > i64::MAX {
        i64::MAX as int
    } else {
        now_ms - ts_ms
    };
    if !submitted || id_empty {
        Triage::Skip
    } else if stored {
        Triage::AlreadyStored
    } else if max_age_ms > 0 && age > max_age_ms {
        Triage::TooOld
    } else {
        Triage::Check
    }
}

/// Decides what a pass does with an audit row.
pub fn triage(submitted: bool, signal_id: &str, stored: bool, now_ms: i64, timestamp_ms: i64, max_age_ms: i64) -> (t: Triage)
    ensures
        t == spec_triage(submitted, signal_id@.len() == 0, stored, now_ms as int, timestamp_ms as int, max_age_ms as int),
{
    if !submitted || signal_id.is_empty() {
        return Triage::Skip;
    }
    if stored {
        return Triage::AlreadyStored;
    }
    let diff: i128 = now_ms as i128 - timestamp_ms as i128;
    let age: i128 = if diff < i64::MIN as i128 {
        i64::MIN as i128
    } else if diff > i64::MAX as i128 {
        i64::MAX as i128
    } else {
        diff
    };
    if max_age_ms > 0 && age > max_age_ms as i128 {
        return Triage::TooOld;
    }
    Triage::Check
}

/// How writing the experience case for a settled trade went.
#[derive(Debug)]
pub enum CaseWrite {
    NotRequested,
    Written,
    AlreadyPresent,
    Failed(String),
}

/// What looking up a checked row at the venue gave.
#[derive(Debug)]
pub enum Lookup {
    /// Still a live position or a live order.
    Open,
    /// Settled; `save_error` is why storing the outcome failed, if it did.
    Settled { filled: bool, save_error: Option<String>, case: CaseWrite },
    /// The lookup failed.
    Failed(String),
}

/// The bookkeeping a report keeps: every checked row is settled, still
/// open, or has an error on record.
pub open spec fn report_wf(r: ReconcileReport) -> bool {
    r.resolved + r.unfilled + r.still_open <= r.checked
        && r.checked - (r.resolved + r.unfilled + r.still_open) <= r.errors.len()
}

/// The error a checked row leaves in the report: a failed lookup, a failed
/// save, or (after a successful save) a failed experience write.
pub open spec fn recorded_error(signal_id: Seq<char>, lookup: Lookup) -> Option<Seq<char>> {
    match lookup {
        Lookup::Open => None,
        Lookup::Failed(e) => Some(signal_id + " 对账失败: "@ + e@),
        Lookup::Settled { save_error, case, .. } => match save_error {
            Some(e) => Some(signal_id + " 保存结果失败: "@ + e@),
            None => match case {
                CaseWrite::Failed(e) => Some(signal_id + " 写入经验库失败: "@ + e@),
                _ => None,
            },
        },
    }
}

/// The list of one optional error.
pub open spec fn opt_list(e: Option<Seq<char>>) -> Seq<Seq<char>> {
    match e {
        Some(m) => seq![m],
        None => Seq::empty(),
    }
}

impl ReconcileReport {
    /// An empty tally.
    pub fn new() -> (r: Self)
        ensures
            r.checked == 0 && r.resolved == 0 && r.still_open == 0 && r.unfilled == 0
                && r.experiences_written == 0 && r.skipped_existing == 0 && r.errors.len() == 0,
            report_wf(r),
    {
        ReconcileReport {
            checked: 0,
            resolved: 0,
            still_open: 0,
            unfilled: 0,
            experiences_written: 0,
            skipped_existing: 0,
            errors: Vec::new(),
        }
    }

    /// Whether the pass looked at no row.
    pub fn is_empty(&self) -> (r: bool)
        ensures
            r == (self.checked == 0),
    {
        self.checked == 0
    }

    /// Accounts for one audit row: its triage and, for a checked row, the
    /// result of looking it up.
    pub fn record(&mut self, signal_id: &str, t: Triage, lookup: &Lookup)
        requires
            report_wf(*old(self)),
            old(self).checked < usize::MAX,
            old(self).skipped_existing < usize::MAX,
            old(self).experiences_written < usize::MAX,
        ensures
            report_wf(*final(self)),
            final(self).checked == old(self).checked + (if t == Triage::Check { 1int } else { 0 }),
            final(self).skipped_existing == old(self).skipped_existing + (if t == Triage::AlreadyStored { 1int } else { 0 }),
            t != Triage::Check ==> final(self).resolved == old(self).resolved && final(self).unfilled == old(self).unfilled
                && final(self).still_open == old(self).still_open && final(self).errors@ == old(self).errors@,
            t == Triage::Check ==> final(self).still_open == old(self).still_open + (if lookup is Open { 1int } else { 0 }),
            t == Triage::Check ==> final(self).resolved == old(self).resolved + (if lookup matches Lookup::Settled { filled: true, .. } { 1int } else { 0 }),
            t == Triage::Check ==> final(self).unfilled == old(self).unfilled + (if lookup matches Lookup::Settled { filled: false, .. } { 1int } else { 0 }),
            t == Triage::Check ==> final(self).experiences_written == old(self).experiences_written + (if lookup matches Lookup::Settled { save_error: None, case: CaseWrite::Written, .. } { 1int } else { 0 }),
            t == Triage::Check ==> views(final(self).errors@) == views(old(self).errors@) + opt_list(recorded_error(signal_id@, *lookup)),
    {
        let ghost before = views(self.errors@);
        match t {
            Triage::Skip => {},
            Triage::TooOld => {},
            Triage::AlreadyStored => {
                self.skipped_existing = self.skipped_existing + 1;
            },
            Triage::Check => {
                self.checked = self.checked + 1;
                match lookup {
                    Lookup::Open => {
                        self.still_open = self.still_open + 1;
                    },
                    Lookup::Failed(e) => {
                        let mut m = concat2(signal_id, " 对账失败: ");
                        append(&mut m, e.as_str());
                        self.errors.push(m);
                        proof {
                            assert(views(self.errors@) =~= before + opt_list(recorded_error(signal_id@, *lookup)));
                        }
                    },
                    Lookup::Settled { filled, save_error, case } => {
                        if *filled {
                            self.resolved = self.resolved + 1;
                        } else {
                            self.unfilled = self.unfilled + 1;
                        }
                        match save_error {
                            Some(e) => {
                                let mut m = concat2(signal_id, " 保存结果失败: ");
                                append(&mut m, e.as_str());
                                self.errors.push(m);
                                proof {
                                    assert(views(self.errors@) =~= before + opt_list(recorded_error(signal_id@, *lookup)));
                                }
                            },
                            None => match case {
                                CaseWrite::Written => {
                                    self.experiences_written = self.experiences_written + 1;
                                },
                                CaseWrite::Failed(e) => {
                                    let mut m = concat2(signal_id, " 写入经验库失败: ");
                                    append(&mut m, e.as_str());
                                    self.errors.push(m);
                                    proof {
                                        assert(views(self.errors@) =~= before + opt_list(recorded_error(signal_id@, *lookup)));
                                    }
                                },
                                _ => {},
                            },
                        }
                    },
                }
            },
        }
    }
}

// ---------------------------------------------------------------------------
// Failure attribution.
// ---------------------------------------------------------------------------

/// The text of a failure attribution: the mode, its cause and the rule it
/// suggests.
#[derive(Debug)]
pub struct AttributionText {
    pub failure_mode: String,
    pub root_cause: String,
    pub suggested_rule: String,
}

/// Attributes losing trades to failure modes.
#[derive(Debug)]
pub struct StrategyReflector;

/// Whether some detected pattern mentions a reversal, a bottom or a top.
pub open spec fn reversal_pattern(patterns: Seq<Seq<char>>) -> bool {
    exists|i: int| 0 <= i < patterns.len() && (contains(#[trigger] patterns[i], "reversal"@) || contains(patterns[i], "bottom"@) || contains(patterns[i], "top"@))
}

/// The failure mode of a losing trade: a stop within two bars is a
/// whipsaw; then a range or chop regime is a breakout trap; then a reversal
/// pattern is knife catching; then an early close is a premature exit;
/// anything else is a structural invalidation.
pub open spec fn failure_mode_of(hold_bars: int, cycle_position: Seq<char>, patterns: Seq<Seq<char>>, exit_reason: Seq<char>) -> Seq<char> {
    let regime = unicode_lowercase(cycle_position);
    if hold_bars <= 2 {
        "whipsaw_tight_stop"@
    } else if contains(regime, "range"@) || contains(regime, "chop"@) || contains(regime, "barbwire"@) {
        "range_breakout_trap"@
    } else if reversal_pattern(patterns) {
        "counter_trend_knife_catching"@
    } else if exit_reason == "closed_early"@ {
        "premature_discretionary_exit"@
    } else {
        "structural_invalidation"@
    }
}

/// Whether some pattern of `v` mentions a reversal, a bottom or a top.
fn any_reversal(v: &Vec<String>) -> (r: bool)
    ensures
        r == reversal_pattern(views(v@)),
{
    let mut i: usize = 0;
    while i < v.len()
        invariant
            0 <= i <= v.len(),
            forall|k: int| 0 <= k < i ==> !(contains(#[trigger] views(v@)[k], "reversal"@) || contains(views(v@)[k], "bottom"@) || contains(views(v@)[k], "top"@)),
        decreases v.len() - i,
    {
        let p = v[i].as_str();
        proof {
            assert(views(v@)[i as int] == p@);
        }
        if str_contains(p, "reversal") || str_contains(p, "bottom") || str_contains(p, "top") {
            return true;
        }
        i += 1;
    }
    false
}

impl StrategyReflector {
    /// Attributes a losing trade. `hold_bars` is how long it was held,
    /// `r_text` its result in R as shown (two decimals).
    pub fn classify_failure(
        hold_bars: u32,
        cycle_position: &str,
        patterns: &Vec<String>,
        exit_reason: &str,
        r_text: &str,
    ) -> (a: AttributionText)
        ensures
            a.failure_mode@ == failure_mode_of(hold_bars as int, cycle_position@, views(patterns@), exit_reason@),
            a.failure_mode@ == "whipsaw_tight_stop"@ ==> a.root_cause@ == "持仓仅 "@ + decimal(hold_bars as nat) + " 根 K 线即被止损出局，止损空间过窄或遭遇噪音打损"@,
            a.failure_mode@ == "structural_invalidation"@ ==> a.root_cause@ == "行情突破技术无效点，止损出局 (R: "@ + r_text@ + ")"@,
    {
        proof {
            reveal_strlit("whipsaw_tight_stop");
            reveal_strlit("range_breakout_trap");
            reveal_strlit("counter_trend_knife_catching");
            reveal_strlit("premature_discretionary_exit");
            reveal_strlit("structural_invalidation");
            assert("whipsaw_tight_stop"@.len() == 18);
            assert("range_breakout_trap"@.len() == 19);
            assert("counter_trend_knife_catching"@.len() == 28 && "counter_trend_knife_catching"@[0] == 'c');
            assert("premature_discretionary_exit"@.len() == 28 && "premature_discretionary_exit"@[0] == 'p');
            assert("structural_invalidation"@.len() == 23);
        }
        let regime = to_lowercase(cycle_position);
        if hold_bars <= 2 {
            let mut cause = String::from_str("持仓仅 ");
            crate::text::push_decimal(&mut cause, hold_bars as u64);
            append(&mut cause, " 根 K 线即被止损出局，止损空间过窄或遭遇噪音打损");
            AttributionText {
                failure_mode: String::from_str("whipsaw_tight_stop"),
                root_cause: cause,
                suggested_rule: String::from_str("结构性止损点必须预留至少 0.3~0.5 ATR 缓冲区，禁止将止损紧贴密集波段极值点。"),
            }
        } else if str_contains(regime.as_str(), "range") || str_contains(regime.as_str(), "chop") || str_contains(regime.as_str(), "barbwire") {
            AttributionText {
                failure_mode: String::from_str("range_breakout_trap"),
                root_cause: String::from_str("在震荡区间 (Trading Range) 或铁丝网内部追单，遭遇假突破反向收割"),
                suggested_rule: String::from_str("震荡区间中轴区域严禁顺势开仓；接近区间边界时仅允许顺大势高抛低吸，未确认突破前一律观望 (WAIT)。"),
            }
        } else if any_reversal(patterns) {
            AttributionText {
                failure_mode: String::from_str("counter_trend_knife_catching"),
                root_cause: String::from_str("强单边趋势中过早尝试摸顶抄底，逆势接飞刀"),
                suggested_rule: String::from_str("强趋势急速 (Spike) 运行期间严禁逆势第一波介入，必须等待两次尝试衰竭 (H2/L2) 或大级别 MTR 结构出现。"),
            }
        } else if crate::text::str_eq(exit_reason, "closed_early") {
            AttributionText {
                failure_mode: String::from_str("premature_discretionary_exit"),
                root_cause: String::from_str("持仓过程中过早主动平仓，导致计划期望 R 无法兑现"),
                suggested_rule: String::from_str("除非原开仓结构彻底失效或出现重大相反信号，否则严格按照 SL/TP 机械执行，避免恐慌提前退出。"),
            }
        } else {
            let mut cause = concat2("行情突破技术无效点，止损出局 (R: ", r_text);
            append(&mut cause, ")");
            AttributionText {
                failure_mode: String::from_str("structural_invalidation"),
                root_cause: cause,
                suggested_rule: String::from_str("进场前必须核验更高时间框架 (HTF) 关键阻力与支撑，顺大势方向开仓。"),
            }
        }
    }
}

// ---------------------------------------------------------------------------
// Prompt mutations.
// ---------------------------------------------------------------------------

/// A candidate prompt built from an incumbent and failure attributions.
#[derive(Debug)]
pub struct Proposal {
    pub proposal_id: String,
    pub base_version: String,
    pub proposed_version: String,
    pub diff_summary: String,
    pub mutated_content: String,
    pub addressed_modes: Vec<String>,
}

/// Builds prompt mutations from failure attributions.
#[derive(Debug)]
pub struct Proposer;

/// The texts of attributions: mode, cause and rule of each.
pub open spec fn attr_views(a: Seq<AttributionText>) -> Seq<(Seq<char>, Seq<char>, Seq<char>)> {
    a.map_values(|t: AttributionText| (t.failure_mode@, t.root_cause@, t.suggested_rule@))
}

/// The defensive clause for one attribution.
pub open spec fn clause(a: (Seq<char>, Seq<char>, Seq<char>)) -> Seq<char> {
    "### 【GEPA 负反馈防御条款 - "@ + a.0 + "】\n- **失效归因**: "@ + a.1 + "\n- **强制约束**: "@ + a.2 + "\n"@
}

/// The failure modes of the first `n` attributions, each once, in the order
/// first met, with the clause of the attribution that first raised it.
pub open spec fn first_modes(a: Seq<(Seq<char>, Seq<char>, Seq<char>)>, n: int) -> (Seq<Seq<char>>, Seq<Seq<char>>)
    decreases n,
{
    if n <= 0 {
        (Seq::empty(), Seq::empty())
    } else {
        let (modes, clauses) = first_modes(a, n - 1);
        if modes.contains(a[n - 1].0) {
            (modes, clauses)
        } else {
            (modes.push(a[n - 1].0), clauses.push(clause(a[n - 1])))
        }
    }
}

/// The proposal for an incumbent, its version, the attributions and the id.
pub open spec fn spec_proposal(
    content: Seq<char>,
    version: Seq<char>,
    a: Seq<(Seq<char>, Seq<char>, Seq<char>)>,
    pid: Seq<char>,
) -> (Seq<char>, Seq<char>, Seq<char>, Seq<Seq<char>>) {
    let (modes, clauses) = first_modes(a, a.len() as int);
    let patch = "\n\n## 🔄 【GEPA 反思突变补丁 - "@ + pid + "】\n"@ + join(clauses, "\n"@) + "\n"@;
    let proposed_version = version + "_gepa_"@ + pid.take(6);
    let mutated = trim_end(content) + patch;
    let summary = "基于 "@ + decimal(a.len()) + " 项失败归因分析，注入 "@ + decimal(modes.len()) + " 条局部防御条款："@ + join(modes, ", "@);
    (proposed_version, mutated, summary, modes)
}

/// Lowercase hexadecimal digits.
pub open spec fn is_lower_hex(c: char) -> bool {
    ('0' <= c <= '9') || ('a' <= c <= 'f')
}

/// Whether a character is the variant digit of an RFC 4122 identifier.
pub open spec fn is_variant_digit(c: char) -> bool {
    c == '8' || c == '9' || c == 'a' || c == 'b'
}

/// A fresh random identifier from `uuid::Uuid::new_v4().simple()`: 32
/// lowercase hexadecimal digits, with the version digit `4` at position 12
/// and a variant digit `8`, `9`, `a` or `b` at position 16; the other
/// digits are random.
#[verifier::external_body]
pub(crate) fn new_uuid_simple() -> (r: String)
    ensures
        r@.len() == 32,
        forall|i: int| 0 <= i < r@.len() ==> is_lower_hex(#[trigger] r@[i]),
        r@[12] == '4',
        is_variant_digit(r@[16]),
{
    uuid::Uuid::new_v4().simple().to_string()
}

impl Proposer {
    /// Builds the mutation for a proposal id: the incumbent with its trailing
    /// whitespace removed, then a patch with one defensive clause per
    /// distinct failure mode. `None` without attributions. The id must
    /// start with six ASCII characters.
    pub fn propose_mutation_with_id(
        incumbent_content: &str,
        incumbent_version: &str,
        attributions: &Vec<AttributionText>,
        proposal_id: &str,
    ) -> (r: Option<Proposal>)
        requires
            proposal_id@.len() >= 6,
            attributions.len() <= u64::MAX,
        ensures
            attributions.len() == 0 ==> r is None,
            attributions.len() > 0 ==> r is Some,
            r matches Some(p) ==> p.proposal_id@ == proposal_id@
                && p.base_version@ == incumbent_version@
                && (p.proposed_version@, p.mutated_content@, p.diff_summary@, views(p.addressed_modes@))
                    == spec_proposal(incumbent_content@, incumbent_version@, attr_views(attributions@), proposal_id@),
    {
        if attributions.len() == 0 {
            return None;
        }
        let ghost a = attr_views(attributions@);
        let mut modes: Vec<String> = Vec::new();
        let mut clauses: Vec<String> = Vec::new();
        let mut i: usize = 0;
        while i < attributions.len()
            invariant
                0 <= i <= attributions.len(),
                a == attr_views(attributions@),
                (views(modes@), views(clauses@)) == first_modes(a, i as int),
            decreases attributions.len() - i,
        {
            let at = &attributions[i];
            proof {
                assert(a[i as int] == (at.failure_mode@, at.root_cause@, at.suggested_rule@));
            }
            if !crate::text::contains_str(&modes, at.failure_mode.as_str()) {
                modes.push(owned(at.failure_mode.as_str()));
                let mut c = concat3("### 【GEPA 负反馈防御条款 - ", at.failure_mode.as_str(), "】\n- **失效归因**: ");
                append(&mut c, at.root_cause.as_str());
                append(&mut c, "\n- **强制约束**: ");
                append(&mut c, at.suggested_rule.as_str());
                append(&mut c, "\n");
                clauses.push(c);
                proof {
                    assert(views(modes@) =~= first_modes(a, i as int).0.push(a[i as int].0));
                    assert(views(clauses@) =~= first_modes(a, i as int).1.push(clause(a[i as int])));
                }
            }
            i += 1;
        }
        let head = take_chars(proposal_id, 6);
        let mut proposed_version = concat3(incumbent_version, "_gepa_", head.as_str());
        let body = join_strs(&clauses, "\n");
        let mut patch = concat3("\n\n## 🔄 【GEPA 反思突变补丁 - ", proposal_id, "】\n");
        append(&mut patch, body.as_str());
        append(&mut patch, "\n");
        let base = trim_end_str(incumbent_content);
        let mutated = concat2(base.as_str(), patch.as_str());
        let mut summary = String::from_str("基于 ");
        crate::text::push_decimal(&mut summary, attributions.len() as u64);
        append(&mut summary, " 项失败归因分析，注入 ");
        crate::text::push_decimal(&mut summary, modes.len() as u64);
        append(&mut summary, " 条局部防御条款：");
        let listed = join_strs(&modes, ", ");
        append(&mut summary, listed.as_str());
        Some(Proposal {
            proposal_id: owned(proposal_id),
            base_version: owned(incumbent_version),
            proposed_version,
            diff_summary: summary,
            mutated_content: mutated,
            addressed_modes: modes,
        })
    }

    /// Builds a mutation under a fresh proposal id, `prop_` followed by a
    /// random identifier. `None` without attributions.
    pub fn propose_mutation(
        incumbent_content: &str,
        incumbent_version: &str,
        attributions: &Vec<AttributionText>,
    ) -> (r: Option<Proposal>)
        requires
            attributions.len() <= u64::MAX,
        ensures
            attributions.len() == 0 ==> r is None,
            attributions.len() > 0 ==> r is Some,
            r matches Some(p) ==> p.proposal_id@.len() == 37 && p.proposal_id@.take(5) == "prop_"@
                && p.base_version@ == incumbent_version@
                && (p.proposed_version@, p.mutated_content@, p.diff_summary@, views(p.addressed_modes@))
                    == spec_proposal(incumbent_content@, incumbent_version@, attr_views(attributions@), p.proposal_id@),
    {
        let id = new_uuid_simple();
        let pid = concat2("prop_", id.as_str());
        proof {
            reveal_strlit("prop_");
            assert(pid@.take(5) =~= "prop_"@);
        }
        Proposer::propose_mutation_with_id(incumbent_content, incumbent_version, attributions, pid.as_str())
    }
}

/// The first `n` characters of `s`.
fn take_chars(s: &str, n: usize) -> (r: String)
    requires
        n <= s@.len(),
    ensures
        r@ == s@.take(n as int),
{
    let v = crate::text::chars_of(s);
    let mut w: Vec<char> = Vec::new();
    let mut i: usize = 0;
    while i < n
        invariant
            n <= v.len(),
            0 <= i <= n,
            w@ == v@.take(i as int),
        decreases n - i,
    {
        w.push(v[i]);
        proof {
            assert(v@.take(i + 1) =~= v@.take(i as int).push(v@[i as int]));
        }
        i += 1;
    }
    crate::text::string_of(&w)
}

/// A mutation addresses each failure mode once, and exactly the modes of
/// its attributions.
pub proof fn law_modes_are_distinct_and_complete(a: Seq<(Seq<char>, Seq<char>, Seq<char>)>, n: int)
    requires
        0 <= n <= a.len(),
    ensures
        first_modes(a, n).0.no_duplicates(),
        forall|i: int| 0 <= i < n ==> first_modes(a, n).0.contains(#[trigger] a[i].0),
        forall|m: Seq<char>| first_modes(a, n).0.contains(m) ==> exists|i: int| 0 <= i < n && #[trigger] a[i].0 == m,
        first_modes(a, n).0.len() == first_modes(a, n).1.len(),
    decreases n,
{
    if n > 0 {
        law_modes_are_distinct_and_complete(a, n - 1);
        let (modes, clauses) = first_modes(a, n - 1);
        if !modes.contains(a[n - 1].0) {
            let m2 = modes.push(a[n - 1].0);
            assert forall|i: int, j: int| 0 <= i < j < m2.len() implies m2[i] != m2[j] by {
                if j == m2.len() - 1 {
                    assert(modes.contains(m2[i]) || i == j);
                }
            }
            assert forall|i: int| 0 <= i < n implies m2.contains(#[trigger] a[i].0) by {
                if i < n - 1 {
                    let k = choose|k: int| 0 <= k < modes.len() && modes[k] == a[i].0;
                    assert(m2[k] == a[i].0);
                } else {
                    assert(m2[m2.len() - 1] == a[i].0);
                }
            }
            assert forall|m: Seq<char>| m2.contains(m) implies exists|i: int| 0 <= i < n && #[trigger] a[i].0 == m by {
                let k = choose|k: int| 0 <= k < m2.len() && m2[k] == m;
                if k < modes.len() {
                    assert(modes[k] == m);
                    assert(modes.contains(m));
                } else {
                    assert(a[n - 1].0 == m);
                }
            }
        } else {
            assert forall|i: int| 0 <= i < n implies modes.contains(#[trigger] a[i].0) by {
            }
        }
    }
}

// ---------------------------------------------------------------------------
// Benchmark episodes from settled trades.
// ---------------------------------------------------------------------------

/// Turns settled trades into benchmark episodes.
#[derive(Debug)]
pub struct Trade2Episode;

/// The action an episode expects: a winning trade's own direction, and
/// waiting after a loss or when the side cannot be read.
pub open spec fn spec_expected_action(is_win: bool, side: Seq<char>) -> Seq<char> {
    let s = unicode_lowercase(side);
    let is_long = contains(s, "long"@) || contains(s, "多"@) || contains(s, "buy"@);
    let is_short = contains(s, "short"@) || contains(s, "空"@) || contains(s, "sell"@);
    if is_win && is_long {
        "OPEN_LONG"@
    } else if is_win && is_short {
        "OPEN_SHORT"@
    } else {
        "WAIT"@
    }
}

/// A symbol as it appears in an episode id: `/` and `:` become `-`, then
/// lowercase.
pub open spec fn episode_symbol(symbol: Seq<char>) -> Seq<char> {
    unicode_lowercase(replace_all(replace_all(symbol, "/"@, "-"@), ":"@, "-"@))
}

/// At most the first twelve bytes of a signal id.
pub open spec fn id_head(signal_id: Seq<char>) -> Seq<char> {
    if byte_len(signal_id) <= 12 {
        signal_id
    } else {
        signal_id.take(chars_before(signal_id, 12))
    }
}

/// The id of the episode a settled trade becomes:
/// `flywheel_{symbol}_{first twelve bytes of the signal id}`.
pub open spec fn spec_episode_id(symbol: Seq<char>, signal_id: Seq<char>) -> Seq<char> {
    "flywheel_"@ + episode_symbol(symbol) + "_"@ + id_head(signal_id)
}

/// The number of bars synthesised for a settled trade: its holding time,
/// at least one.
pub open spec fn synthetic_bar_count(hold_bars: int) -> int {
    if hold_bars > 1 {
        hold_bars
    } else {
        1
    }
}

/// Where the synthesised bars end: at resolution when that is after
/// creation, else fifteen minutes per bar after creation.
pub open spec fn synthetic_end(created_ms: int, resolved_ms: int, hold_bars: int) -> int {
    if resolved_ms > created_ms {
        resolved_ms
    } else {
        created_ms + synthetic_bar_count(hold_bars) * 900_000
    }
}

/// The spacing of the synthesised bars: the span shared out evenly, but
/// never under one second.
pub open spec fn synthetic_step(created_ms: int, resolved_ms: int, hold_bars: int) -> int {
    let q = (synthetic_end(created_ms, resolved_ms, hold_bars) - created_ms) / synthetic_bar_count(hold_bars);
    if q > 1000 {
        q
    } else {
        1000
    }
}

/// Whether every time the synthesis computes fits in an `i64`.
pub open spec fn synthetic_times_fit(created_ms: int, resolved_ms: int, hold_bars: int) -> bool {
    &&& synthetic_end(created_ms, resolved_ms, hold_bars) <= i64::MAX
    &&& synthetic_end(created_ms, resolved_ms, hold_bars) - created_ms <= i64::MAX
    &&& (synthetic_bar_count(hold_bars) - 1) * synthetic_step(created_ms, resolved_ms, hold_bars) <= i64::MAX
    &&& created_ms + (synthetic_bar_count(hold_bars) - 1) * synthetic_step(created_ms, resolved_ms, hold_bars) <= i64::MAX
}

impl Trade2Episode {
    /// The action a benchmark episode expects for a settled trade.
    pub fn expected_action(is_win: bool, side: &str) -> (r: &'static str)
        ensures
            r@ == spec_expected_action(is_win, side@),
    {
        let s = to_lowercase(side);
        let is_long = str_contains(s.as_str(), "long") || str_contains(s.as_str(), "多") || str_contains(s.as_str(), "buy");
        let is_short = str_contains(s.as_str(), "short") || str_contains(s.as_str(), "空") || str_contains(s.as_str(), "sell");
        if is_win && is_long {
            "OPEN_LONG"
        } else if is_win && is_short {
            "OPEN_SHORT"
        } else {
            "WAIT"
        }
    }

    /// The id of the episode a settled trade becomes. A signal id longer than
    /// twelve bytes must not have a multi-byte character across its twelfth
    /// byte.
    pub fn episode_id(symbol: &str, signal_id: &str) -> (r: String)
        requires
            byte_len(signal_id@) <= 12 || is_boundary(signal_id@, 12),
        ensures
            r@ == spec_episode_id(symbol@, signal_id@),
    {
        proof {
            reveal_strlit("/");
            reveal_strlit(":");
        }
        let dashed = replace_str(symbol, "/", "-");
        let dashed = replace_str(dashed.as_str(), ":", "-");
        let lowered = to_lowercase(dashed.as_str());
        let mut r = concat2("flywheel_", lowered.as_str());
        append(&mut r, "_");
        let v = chars_of(signal_id);
        if !bytes_exceed(&v, 12) {
            append(&mut r, signal_id);
            return r;
        }
        let k = match find_boundary(&v, 12) {
            Some(k) => k,
            None => {
                return r;
            },
        };
        let mut head: Vec<char> = Vec::new();
        let mut i: usize = 0;
        while i < k
            invariant
                k <= v.len(),
                0 <= i <= k,
                head@ == v@.take(i as int),
            decreases k - i,
        {
            head.push(v[i]);
            proof {
                assert(v@.take(i + 1) =~= v@.take(i as int).push(v@[i as int]));
            }
            i += 1;
        }
        let h = string_of(&head);
        append(&mut r, h.as_str());
        r
    }

    /// The opening times of the bars synthesised for a settled trade that
    /// has no recorded future bars: one per held bar (at least one), from
    /// its creation, evenly spaced.
    pub fn synthetic_bar_times(created_ms: i64, resolved_ms: i64, hold_bars: u32) -> (r: Vec<i64>)
        requires
            synthetic_times_fit(created_ms as int, resolved_ms as int, hold_bars as int),
        ensures
            r.len() == synthetic_bar_count(hold_bars as int),
            forall|i: int| 0 <= i < r.len() ==> #[trigger] r@[i] == created_ms + i * synthetic_step(
                created_ms as int,
                resolved_ms as int,
                hold_bars as int,
            ),
    {
        let n: u32 = if hold_bars > 1 {
            hold_bars
        } else {
            1
        };
        let end: i64 = if resolved_ms > created_ms {
            resolved_ms
        } else {
            created_ms + (n as i64) * 900_000
        };
        let q: i64 = (end - created_ms) / (n as i64);
        let step: i64 = if q > 1000 {
            q
        } else {
            1000
        };
        let ghost st = synthetic_step(created_ms as int, resolved_ms as int, hold_bars as int);
        assert(step == st);
        let mut out: Vec<i64> = Vec::new();
        let mut i: u32 = 0;
        while i < n
            invariant
                0 <= i <= n,
                n == synthetic_bar_count(hold_bars as int),
                step == st,
                step >= 1000,
                created_ms + (n - 1) * step <= i64::MAX,
                (n - 1) * step <= i64::MAX,
                out.len() == i,
                forall|j: int| 0 <= j < out.len() ==> #[trigger] out@[j] == created_ms + j * st,
            decreases n - i,
        {
            assert(i * step <= (n - 1) * step) by (nonlinear_arith)
                requires
                    i <= n - 1,
                    step >= 0,
            ;
            assert(i * step >= 0) by (nonlinear_arith)
                requires
                    i >= 0,
                    step >= 0,
            ;
            let t: i64 = created_ms + (i as i64) * step;
            out.push(t);
            i += 1;
        }
        out
    }
}

// ---------------------------------------------------------------------------
// Selective release of prompt versions.
// ---------------------------------------------------------------------------

/// How a candidate prompt version is judged before it is activated.
#[derive(Debug, Clone, Copy, PartialEq, Eq, Structural)]
pub enum EvaluationMode {
    /// Learning is off or the activation is forced: no judgement.
    Skip,
    /// Both versions have enough settled live trades to compare.
    LiveTrades,
    /// Too few live trades, so the benchmark episodes are replayed.
    BenchmarkReplay,
    /// Too few live trades and no episodes: the thin live comparison stands.
    ThinLiveTrades,
}

/// The judgement an activation goes through.
pub open spec fn spec_evaluation_mode(
    learning_enabled: bool,
    force: bool,
    candidate_samples: int,
    baseline_samples: int,
    min_samples: int,
    episodes_available: bool,
) -> EvaluationMode {
    if !learning_enabled || force {
        EvaluationMode::Skip
    } else if candidate_samples >= min_samples && baseline_samples >= min_samples {
        EvaluationMode::LiveTrades
    } else if episodes_available {
        EvaluationMode::BenchmarkReplay
    } else {
        EvaluationMode::ThinLiveTrades
    }
}

/// Chooses how a candidate prompt version is judged before activation.
pub fn evaluation_mode(
    learning_enabled: bool,
    force: bool,
    candidate_samples: usize,
    baseline_samples: usize,
    min_samples: usize,
    episodes_available: bool,
) -> (m: EvaluationMode)
    ensures
        m == spec_evaluation_mode(
            learning_enabled,
            force,
            candidate_samples as int,
            baseline_samples as int,
            min_samples as int,
            episodes_available,
        ),
{
    if !learning_enabled || force {
        EvaluationMode::Skip
    } else if candidate_samples >= min_samples && baseline_samples >= min_samples {
        EvaluationMode::LiveTrades
    } else if episodes_available {
        EvaluationMode::BenchmarkReplay
    } else {
        EvaluationMode::ThinLiveTrades
    }
}

/// The refusal of a candidate that failed its judgement.
pub open spec fn release_refusal(reasons: Seq<Seq<char>>) -> Seq<char> {
    "候选版本未通过选择性发布："@ + join(reasons, "；"@) + "（确认无误可用 force=true 跳过统计校验）"@
}

/// Lets an activation through when the judgement accepted the candidate,
/// else refuses it with the judgement's reasons.
pub fn release_gate(accepted: bool, reasons: &Vec<String>) -> (r: Result<(), String>)
    ensures
        accepted <==> r is Ok,
        r matches Err(e) ==> e@ == release_refusal(views(reasons@)),
{
    if accepted {
        Ok(())
    } else {
        let joined = join_strs(reasons, "；");
        let mut e = concat2("候选版本未通过选择性发布：", joined.as_str());
        append(&mut e, "（确认无误可用 force=true 跳过统计校验）");
        Err(e)
    }
}

/// A forced activation, or one with learning off, is never judged; any
/// other is judged one way or another.
pub proof fn law_force_skips_judgement(
    learning_enabled: bool,
    force: bool,
    candidate_samples: int,
    baseline_samples: int,
    min_samples: int,
    episodes_available: bool,
)
    ensures
        (spec_evaluation_mode(learning_enabled, force, candidate_samples, baseline_samples, min_samples, episodes_available)
            == EvaluationMode::Skip) <==> (!learning_enabled || force),
{
}

/// What a comparison of a candidate prompt version with the incumbent
/// reads: the sample counts, the two judgements on the realised R figures
/// (which are floating-point and made by the caller), and those figures as
/// the reasons print them.
#[derive(Debug)]
pub struct CandidateFacts {
    pub candidate_samples: usize,
    pub baseline_samples: usize,
    pub min_samples: usize,
    /// Whether the candidate's expectancy less the baseline's falls below
    /// the required gain.
    pub expectancy_short: bool,
    /// The candidate's expectancy in R (`{:.3}`).
    pub candidate_expectancy: String,
    /// The baseline's expectancy in R (`{:.3}`).
    pub baseline_expectancy: String,
    /// The difference (`{:.3}`).
    pub expectancy_delta: String,
    /// The required gain (`{:.3}`).
    pub required_delta: String,
    /// Whether the baseline's win rate less the candidate's exceeds the
    /// tolerated drop.
    pub win_rate_drop_exceeds: bool,
    /// The drop in percentage points (`{:.1}`).
    pub win_rate_drop_points: String,
    /// The tolerated drop in percentage points (`{:.1}`).
    pub max_drop_points: String,
}

/// A judgement of a candidate: accepted exactly when no reason speaks
/// against it.
#[derive(Debug)]
pub struct CandidateVerdict {
    pub accepted: bool,
    pub reasons: Vec<String>,
}

/// The reason given when the candidate has too few samples.
pub open spec fn thin_candidate_reason(f: CandidateFacts) -> Seq<char> {
    "候选样本不足："@ + decimal(f.candidate_samples as nat) + " / "@ + decimal(f.min_samples as nat) + "，无法进行统计比较"@
}

/// The reason given when the baseline has too few samples.
pub open spec fn thin_baseline_reason(f: CandidateFacts) -> Seq<char> {
    "基线样本不足："@ + decimal(f.baseline_samples as nat) + " / "@ + decimal(f.min_samples as nat) + "，尚无可比较的基准"@
}

/// The reason given when the expectancy gain falls short.
pub open spec fn expectancy_reason(f: CandidateFacts) -> Seq<char> {
    "期望 R 未达门槛：候选 "@ + f.candidate_expectancy@ + "R，基线 "@ + f.baseline_expectancy@ + "R，差值 "@
        + f.expectancy_delta@ + "R 低于要求 "@ + f.required_delta@ + "R"@
}

/// The reason given when the win rate drops too far.
pub open spec fn win_rate_reason(f: CandidateFacts) -> Seq<char> {
    "胜率下降 "@ + f.win_rate_drop_points@ + " 个百分点，超过容忍度 "@ + f.max_drop_points@ + " 个百分点"@
}

/// `seq![x]` when `b`, else nothing.
pub open spec fn reason_if(b: bool, x: Seq<char>) -> Seq<Seq<char>> {
    if b {
        seq![x]
    } else {
        Seq::empty()
    }
}

/// The reasons against a candidate, in order: too few candidate samples,
/// too few baseline samples, and, only when both sides have enough, an
/// expectancy gain short of the requirement and a win-rate drop beyond the
/// tolerance.
pub open spec fn spec_candidate_reasons(f: CandidateFacts) -> Seq<Seq<char>> {
    let enough = f.candidate_samples >= f.min_samples && f.baseline_samples >= f.min_samples;
    reason_if(f.candidate_samples < f.min_samples, thin_candidate_reason(f))
        + reason_if(f.baseline_samples < f.min_samples, thin_baseline_reason(f))
        + reason_if(enough && f.expectancy_short, expectancy_reason(f))
        + reason_if(enough && f.win_rate_drop_exceeds, win_rate_reason(f))
}

/// Pushes `x` when `b`.
fn push_when(v: &mut Vec<String>, b: bool, x: String)
    ensures
        views(final(v)@) == views(old(v)@) + reason_if(b, x@),
{
    let ghost before = views(v@);
    if b {
        v.push(x);
        proof {
            assert(views(v@) =~= before + seq![x@]);
        }
    } else {
        proof {
            assert(before + Seq::<Seq<char>>::empty() =~= before);
        }
    }
}

/// Judges a candidate prompt version against the incumbent: too few
/// samples on either side is a refusal, never an optimistic default.
pub fn compare_candidate(f: &CandidateFacts) -> (v: CandidateVerdict)
    ensures
        views(v.reasons@) == spec_candidate_reasons(*f),
        v.accepted == (v.reasons.len() == 0),
{
    let enough = f.candidate_samples >= f.min_samples && f.baseline_samples >= f.min_samples;
    let mut reasons: Vec<String> = Vec::new();

    let mut a = owned("候选样本不足：");
    push_decimal(&mut a, f.candidate_samples as u64);
    append(&mut a, " / ");
    push_decimal(&mut a, f.min_samples as u64);
    append(&mut a, "，无法进行统计比较");
    push_when(&mut reasons, f.candidate_samples < f.min_samples, a);

    let mut b = owned("基线样本不足：");
    push_decimal(&mut b, f.baseline_samples as u64);
    append(&mut b, " / ");
    push_decimal(&mut b, f.min_samples as u64);
    append(&mut b, "，尚无可比较的基准");
    push_when(&mut reasons, f.baseline_samples < f.min_samples, b);

    let mut c = owned("期望 R 未达门槛：候选 ");
    append(&mut c, f.candidate_expectancy.as_str());
    append(&mut c, "R，基线 ");
    append(&mut c, f.baseline_expectancy.as_str());
    append(&mut c, "R，差值 ");
    append(&mut c, f.expectancy_delta.as_str());
    append(&mut c, "R 低于要求 ");
    append(&mut c, f.required_delta.as_str());
    append(&mut c, "R");
    push_when(&mut reasons, enough && f.expectancy_short, c);

    let mut d = owned("胜率下降 ");
    append(&mut d, f.win_rate_drop_points.as_str());
    append(&mut d, " 个百分点，超过容忍度 ");
    append(&mut d, f.max_drop_points.as_str());
    append(&mut d, " 个百分点");
    push_when(&mut reasons, enough && f.win_rate_drop_exceeds, d);

    proof {
        assert(Seq::<Seq<char>>::empty() + reason_if(f.candidate_samples < f.min_samples, thin_candidate_reason(*f))
            =~= reason_if(f.candidate_samples < f.min_samples, thin_candidate_reason(*f)));
    }
    let accepted = reasons.len() == 0;
    CandidateVerdict { accepted, reasons }
}

/// A candidate is accepted exactly when it has enough samples on both
/// sides, its expectancy gain is not short and its win rate does not drop
/// beyond the tolerance.
pub proof fn law_acceptance_needs_samples_and_no_degradation(f: CandidateFacts)
    ensures
        (spec_candidate_reasons(f).len() == 0) <==> (
            f.candidate_samples >= f.min_samples && f.baseline_samples >= f.min_samples
            && !f.expectancy_short && !f.win_rate_drop_exceeds),
{
}

/// The one-line summary of a judgement: that the candidate may go to
/// release, or why it may not.
pub open spec fn spec_verdict_summary(accepted: bool, reasons: Seq<Seq<char>>) -> Seq<char> {
    if accepted {
        "候选版本不劣于当前版本，可以进入人工发布确认"@
    } else {
        "候选版本未通过选择性发布："@ + join(reasons, "；"@)
    }
}

/// Summarises a judgement of a candidate prompt version.
pub fn verdict_summary(accepted: bool, reasons: &Vec<String>) -> (r: String)
    ensures
        r@ == spec_verdict_summary(accepted, views(reasons@)),
{
    if accepted {
        owned("候选版本不劣于当前版本，可以进入人工发布确认")
    } else {
        let joined = join_strs(reasons, "；");
        concat2("候选版本未通过选择性发布：", joined.as_str())
    }
}

/// What the lesson of an experience case is written from; the R figures
/// arrive formatted (`{:.2}`).
#[derive(Debug)]
pub struct LessonFacts {
    pub cycle_position: String,
    pub patterns: Vec<String>,
    /// `long` or `short`.
    pub side: String,
    /// The exit reason as recorded.
    pub exit_reason: String,
    pub r_multiple: String,
    pub mfe_r: String,
    pub mae_r: String,
    pub hold_bars: u32,
}

/// The side in words: long is 做多, anything else 做空.
pub open spec fn side_zh(side: Seq<char>) -> Seq<char> {
    if side == "long"@ {
        "做多"@
    } else {
        "做空"@
    }
}

fn side_zh_text(side: &str) -> (r: &'static str)
    ensures
        r@ == side_zh(side@),
{
    if str_eq(side, "long") {
        "做多"
    } else {
        "做空"
    }
}

/// The exit reason as a case shows it: its canonical name when it is one
/// the system knows, else as recorded.
pub open spec fn exit_label_of(raw: Seq<char>) -> Seq<char> {
    match spec_parse_exit(raw) {
        Some(e) => exit_name(e),
        None => raw,
    }
}

/// The exit reason as a case shows it.
pub fn exit_label(raw: &str) -> (r: String)
    ensures
        r@ == exit_label_of(raw@),
{
    match ExitReason::parse(raw) {
        Some(e) => owned(e.as_str()),
        None => owned(raw),
    }
}

/// The lesson of a case: for a win, that the setup paid as planned and can
/// be repeated; for a loss, that it did not, with what to review.
pub open spec fn spec_lesson(f: LessonFacts, is_success: bool) -> Seq<char> {
    if is_success {
        "同类结构（"@ + f.cycle_position@ + " / "@ + join(views(f.patterns@), ","@) + "）在 "@ + side_zh(f.side@) + " 上按计划兑现，出场原因 "@ + exit_label_of(f.exit_reason@) + "，实现 "@ + f.r_multiple@ + "R，过程最大浮盈 "@ + f.mfe_r@ + "R、最大回撤 "@ + f.mae_r@ + "R，持仓 "@ + decimal(f.hold_bars as nat) + " 根 K 线。说明该结构与止损设置在本例中有效，可复现同类入场条件。"@
    } else {
        "同类结构（"@ + f.cycle_position@ + " / "@ + join(views(f.patterns@), ","@) + "）在 "@ + side_zh(f.side@) + " 上未按计划兑现，出场原因 "@ + exit_label_of(f.exit_reason@) + "，实现 "@ + f.r_multiple@ + "R（禁止记为分批止盈），过程最大浮盈 "@ + f.mfe_r@ + "R、最大回撤 "@ + f.mae_r@ + "R，持仓 "@ + decimal(f.hold_bars as nat) + " 根 K 线。复盘时须检查：入场确认是否不足、止损是否被微观噪音扫掉、是否存在逆高周期趋势的对抗交易。"@
    }
}

/// Writes the lesson of an experience case.
pub fn render_lesson(f: &LessonFacts, is_success: bool) -> (r: String)
    ensures
        r@ == spec_lesson(*f, is_success),
{
    let mut s = String::new();
    if is_success {
        append(&mut s, "同类结构（");
        append(&mut s, f.cycle_position.as_str());
        append(&mut s, " / ");
        let p = join_strs(&f.patterns, ","); append(&mut s, p.as_str());
        append(&mut s, "）在 ");
        append(&mut s, side_zh_text(f.side.as_str()));
        append(&mut s, " 上按计划兑现，出场原因 ");
        let x = exit_label(f.exit_reason.as_str()); append(&mut s, x.as_str());
        append(&mut s, "，实现 ");
        append(&mut s, f.r_multiple.as_str());
        append(&mut s, "R，过程最大浮盈 ");
        append(&mut s, f.mfe_r.as_str());
        append(&mut s, "R、最大回撤 ");
        append(&mut s, f.mae_r.as_str());
        append(&mut s, "R，持仓 ");
        push_decimal(&mut s, f.hold_bars as u64);
        append(&mut s, " 根 K 线。说明该结构与止损设置在本例中有效，可复现同类入场条件。");
        s
    } else {
        append(&mut s, "同类结构（");
        append(&mut s, f.cycle_position.as_str());
        append(&mut s, " / ");
        let p = join_strs(&f.patterns, ","); append(&mut s, p.as_str());
        append(&mut s, "）在 ");
        append(&mut s, side_zh_text(f.side.as_str()));
        append(&mut s, " 上未按计划兑现，出场原因 ");
        let x = exit_label(f.exit_reason.as_str()); append(&mut s, x.as_str());
        append(&mut s, "，实现 ");
        append(&mut s, f.r_multiple.as_str());
        append(&mut s, "R（禁止记为分批止盈），过程最大浮盈 ");
        append(&mut s, f.mfe_r.as_str());
        append(&mut s, "R、最大回撤 ");
        append(&mut s, f.mae_r.as_str());
        append(&mut s, "R，持仓 ");
        push_decimal(&mut s, f.hold_bars as u64);
        append(&mut s, " 根 K 线。复盘时须检查：入场确认是否不足、止损是否被微观噪音扫掉、是否存在逆高周期趋势的对抗交易。");
        s
    }
}

// ---------------------------------------------------------------------------
// Outcomes grouped by the prompt version that produced them.
// ---------------------------------------------------------------------------

/// The group an outcome falls in: its prompt version, or `unknown` when
/// that is blank.
pub open spec fn version_key(version: Seq<char>) -> Seq<char> {
    if trim(version).len() == 0 {
        "unknown"@
    } else {
        version
    }
}

/// The positions among the first `n` keys that equal `key`, ascending.
pub open spec fn members_upto(keys: Seq<Seq<char>>, key: Seq<char>, n: int) -> Seq<usize>
    decreases n,
{
    if n <= 0 {
        Seq::empty()
    } else {
        let rest = members_upto(keys, key, n - 1);
        if keys[n - 1] == key {
            rest.push((n - 1) as usize)
        } else {
            rest
        }
    }
}

/// Whether `names` and `members` group the first `n` keys: the distinct
/// keys in ascending order, each with the positions that have it.
pub open spec fn grouped_upto(keys: Seq<Seq<char>>, n: int, names: Seq<Seq<char>>, members: Seq<Seq<usize>>) -> bool {
    &&& names.len() == members.len()
    &&& forall|k: int, l: int| 0 <= k < l < names.len() ==> seq_lt(names[k], names[l])
    &&& forall|k: int| 0 <= k < names.len() ==> (#[trigger] members[k]) == members_upto(keys, names[k], n)
    &&& forall|k: int| 0 <= k < names.len() ==> (#[trigger] members[k]).len() > 0
    &&& forall|x: int| 0 <= x < n ==> exists|k: int| 0 <= k < names.len() && #[trigger] names[k] == #[trigger] keys[x]
}

/// The position lists of groups.
pub open spec fn member_views(m: Seq<Vec<usize>>) -> Seq<Seq<usize>> {
    m.map_values(|v: Vec<usize>| v@)
}

/// Outcomes grouped by key: the keys in ascending order and, for each, the
/// positions of its outcomes in their original order.
#[derive(Debug)]
pub struct KeyGroups {
    pub keys: Vec<String>,
    pub members: Vec<Vec<usize>>,
}

/// The positions of a key that occurs nowhere among the first `n` keys.
proof fn lemma_members_absent(keys: Seq<Seq<char>>, key: Seq<char>, n: int)
    requires
        0 <= n <= keys.len(),
        forall|x: int| 0 <= x < n ==> keys[x] != key,
    ensures
        members_upto(keys, key, n) == Seq::<usize>::empty(),
    decreases n,
{
    if n > 0 {
        lemma_members_absent(keys, key, n - 1);
    }
}

/// Adding the key at `i` to the group at `p`, which has that key, groups
/// one more key.
proof fn lemma_group_joins(keys: Seq<Seq<char>>, i: int, names: Seq<Seq<char>>, members: Seq<Seq<usize>>, p: int)
    requires
        0 <= i < keys.len(),
        0 <= p < names.len(),
        grouped_upto(keys, i, names, members),
        names[p] == keys[i],
    ensures
        grouped_upto(keys, i + 1, names, members.update(p, members[p].push(i as usize))),
{
    let m = members.update(p, members[p].push(i as usize));
    assert forall|k: int| 0 <= k < names.len() implies (#[trigger] m[k]) == members_upto(keys, names[k], i + 1) by {
        if k != p {
            if k < p {
                lemma_lt_irreflexive(names[k]);
                assert(seq_lt(names[k], names[p]));
            } else {
                lemma_lt_irreflexive(names[p]);
                assert(seq_lt(names[p], names[k]));
            }
            assert(names[k] != keys[i]);
        }
    }
    assert forall|k: int| 0 <= k < names.len() implies (#[trigger] m[k]).len() > 0 by {
        assert(members[k].len() > 0);
    }
    assert forall|x: int| 0 <= x < i + 1 implies exists|k: int| 0 <= k < names.len() && #[trigger] names[k] == #[trigger] keys[x] by {
        if x == i {
            assert(names[p] == keys[x]);
        }
    }
}

/// Where a new key goes: every name before `p` is smaller, the name at `p`
/// (if any) is larger.
pub open spec fn new_key_point(keys: Seq<Seq<char>>, i: int, names: Seq<Seq<char>>, members: Seq<Seq<usize>>, p: int) -> bool {
    &&& 0 <= i < keys.len()
    &&& 0 <= p <= names.len()
    &&& grouped_upto(keys, i, names, members)
    &&& forall|k: int| 0 <= k < p ==> seq_lt(#[trigger] names[k], keys[i])
    &&& p < names.len() ==> seq_lt(keys[i], names[p])
}

/// A key new to the first `i` keys opens a group at its place.
proof fn lemma_group_opens(keys: Seq<Seq<char>>, i: int, names: Seq<Seq<char>>, members: Seq<Seq<usize>>, p: int)
    requires
        new_key_point(keys, i, names, members, p),
    ensures
        grouped_upto(keys, i + 1, names.insert(p, keys[i]), members.insert(p, seq![i as usize])),
{
    let key = keys[i];
    let n2 = names.insert(p, key);
    let m2 = members.insert(p, seq![i as usize]);
    assert forall|k: int| 0 <= k < names.len() implies #[trigger] names[k] != key by {
        if k < p {
            lemma_lt_irreflexive(key);
        } else {
            lemma_lt_irreflexive(key);
            if k > p {
                lemma_lt_transitive(key, names[p], names[k]);
            }
        }
    }
    assert forall|x: int| 0 <= x < i implies keys[x] != key by {
        let k = choose|k: int| 0 <= k < names.len() && #[trigger] names[k] == #[trigger] keys[x];
        assert(names[k] != key);
    }
    lemma_members_absent(keys, key, i);
    assert(members_upto(keys, key, i + 1) =~= seq![i as usize]);
    assert forall|k: int, l: int| 0 <= k < l < n2.len() implies seq_lt(n2[k], n2[l]) by {
        if l < p {
        } else if l == p {
        } else if k < p {
            assert(n2[l] == names[l - 1]);
            if l - 1 > p {
                lemma_lt_transitive(key, names[p], names[l - 1]);
            }
            lemma_lt_transitive(names[k], key, names[l - 1]);
        } else if k == p {
            assert(n2[l] == names[l - 1]);
            if l - 1 > p {
                lemma_lt_transitive(key, names[p], names[l - 1]);
            }
        } else {
            assert(n2[k] == names[k - 1] && n2[l] == names[l - 1]);
        }
    }
    assert forall|k: int| 0 <= k < n2.len() implies (#[trigger] m2[k]) == members_upto(keys, n2[k], i + 1) by {
        if k < p {
            assert(n2[k] == names[k] && m2[k] == members[k]);
        } else if k > p {
            assert(n2[k] == names[k - 1] && m2[k] == members[k - 1]);
        }
    }
    assert forall|k: int| 0 <= k < n2.len() implies (#[trigger] m2[k]).len() > 0 by {
        if k < p {
            assert(m2[k] == members[k]);
        } else if k > p {
            assert(m2[k] == members[k - 1]);
        }
    }
    assert forall|x: int| 0 <= x < i + 1 implies exists|k: int| 0 <= k < n2.len() && #[trigger] n2[k] == #[trigger] keys[x] by {
        if x == i {
            assert(n2[p] == keys[x]);
        } else {
            let k = choose|k: int| 0 <= k < names.len() && #[trigger] names[k] == #[trigger] keys[x];
            if k < p {
                assert(n2[k] == keys[x]);
            } else {
                assert(n2[k + 1] == keys[x]);
            }
        }
    }
}

/// Groups positions by key, as an ordered map from key to the list of its
/// positions would: keys ascending, positions in their original order.
pub fn group_by_key(keys: &Vec<String>) -> (g: KeyGroups)
    ensures
        grouped_upto(views(keys@), keys.len() as int, views(g.keys@), member_views(g.members@)),
{
    let ghost ks = views(keys@);
    let mut names: Vec<String> = Vec::new();
    let mut members: Vec<Vec<usize>> = Vec::new();
    let mut i: usize = 0;
    while i < keys.len()
        invariant
            0 <= i <= keys.len(),
            ks == views(keys@),
            grouped_upto(ks, i as int, views(names@), member_views(members@)),
        decreases keys.len() - i,
    {
        let key = keys[i].as_str();
        proof {
            assert(ks[i as int] == key@);
        }
        let mut p: usize = 0;
        while p < names.len() && str_lt(names[p].as_str(), key)
            invariant
                0 <= p <= names.len(),
                i < keys.len(),
                ks == views(keys@),
                key@ == ks[i as int],
                forall|k: int| 0 <= k < p ==> seq_lt(#[trigger] views(names@)[k], key@),
            decreases names.len() - p,
        {
            p += 1;
        }
        let ghost n0 = views(names@);
        let ghost m0 = member_views(members@);
        if p < names.len() && str_eq(names[p].as_str(), key) {
            let mut m = members.remove(p);
            m.push(i);
            members.insert(p, m);
            proof {
                lemma_group_joins(ks, i as int, n0, m0, p as int);
                assert(member_views(members@) =~= m0.update(p as int, m0[p as int].push(i)));
            }
        } else {
            proof {
                if p < names.len() {
                    lemma_lt_total(key@, n0[p as int]);
                }
            }
            names.insert(p, owned(key));
            let mut m: Vec<usize> = Vec::new();
            m.push(i);
            members.insert(p, m);
            proof {
                lemma_group_opens(ks, i as int, n0, m0, p as int);
                assert(views(names@) =~= n0.insert(p as int, ks[i as int]));
                assert(member_views(members@) =~= m0.insert(p as int, seq![i]));
            }
        }
        i += 1;
    }
    KeyGroups { keys: names, members }
}

/// The groups other than the active version's, by position among the
/// first `n` group keys.
pub open spec fn other_groups(keys: Seq<Seq<char>>, active: Seq<char>, n: int) -> Seq<usize>
    decreases n,
{
    if n <= 0 {
        Seq::empty()
    } else if keys[n - 1] == active {
        other_groups(keys, active, n - 1)
    } else {
        other_groups(keys, active, n - 1).push((n - 1) as usize)
    }
}

/// Which groups a version report judges: every version but the active one,
/// each against the active version's group as the baseline (no group when
/// the active version has no outcomes).
#[derive(Debug)]
pub struct VersionJudgements {
    pub baseline: Option<usize>,
    pub candidates: Vec<usize>,
}

/// Picks, from outcomes grouped by prompt version, the baseline group of
/// `active_version` and the groups to judge against it.
pub fn evaluate_versions(groups: &KeyGroups, active_version: &str) -> (r: VersionJudgements)
    ensures
        match r.baseline {
            Some(k) => k < groups.keys.len() && groups.keys@[k as int]@ == active_version@,
            None => forall|k: int| 0 <= k < groups.keys.len() ==> groups.keys@[k]@ != active_version@,
        },
        r.candidates@ == other_groups(views(groups.keys@), active_version@, groups.keys.len() as int),
{
    let ghost ks = views(groups.keys@);
    let mut baseline: Option<usize> = None;
    let mut candidates: Vec<usize> = Vec::new();
    let mut k: usize = 0;
    while k < groups.keys.len()
        invariant
            0 <= k <= groups.keys.len(),
            ks == views(groups.keys@),
            candidates@ == other_groups(ks, active_version@, k as int),
            match baseline {
                Some(b) => b < groups.keys.len() && groups.keys@[b as int]@ == active_version@,
                None => forall|j: int| 0 <= j < k ==> groups.keys@[j]@ != active_version@,
            },
        decreases groups.keys.len() - k,
    {
        proof {
            assert(ks[k as int] == groups.keys@[k as int]@);
        }
        if str_eq(groups.keys[k].as_str(), active_version) {
            baseline = Some(k);
        } else {
            candidates.push(k);
        }
        k += 1;
    }
    VersionJudgements { baseline, candidates }
}

/// The group keys of outcome prompt versions.
pub open spec fn version_keys(versions: Seq<Seq<char>>) -> Seq<Seq<char>> {
    versions.map_values(|v: Seq<char>| version_key(v))
}

/// Groups outcomes by the prompt version that produced them (`unknown` for
/// a blank version): the versions in ascending order, each with the
/// positions of its outcomes.
pub fn group_by_prompt_version(versions: &Vec<String>) -> (g: KeyGroups)
    ensures
        grouped_upto(version_keys(views(versions@)), versions.len() as int, views(g.keys@), member_views(g.members@)),
{
    let mut keys: Vec<String> = Vec::new();
    let mut i: usize = 0;
    while i < versions.len()
        invariant
            0 <= i <= versions.len(),
            views(keys@) == version_keys(views(versions@)).take(i as int),
        decreases versions.len() - i,
    {
        let v = versions[i].as_str();
        let ghost before = views(keys@);
        proof {
            assert(views(versions@)[i as int] == v@);
            assert(version_keys(views(versions@))[i as int] == version_key(v@));
        }
        if is_blank(v) {
            keys.push(owned("unknown"));
        } else {
            keys.push(owned(v));
        }
        proof {
            assert(views(keys@) =~= before.push(version_key(v@)));
            assert(views(keys@) =~= version_keys(views(versions@)).take(i + 1));
        }
        i += 1;
    }
    proof {
        assert(version_keys(views(versions@)).take(versions.len() as int) =~= version_keys(views(versions@)));
    }
    group_by_key(&keys)
}

/// Live trades judge a candidate only when both it and the baseline have
/// enough samples; when either side is short and benchmark episodes exist,
/// the episodes are replayed instead; with learning off or a forced
/// activation nothing is judged.
pub proof fn law_live_comparison_needs_both_sides(
    learning_enabled: bool,
    force: bool,
    candidate_samples: int,
    baseline_samples: int,
    min_samples: int,
    episodes_available: bool,
)
    ensures
        (spec_evaluation_mode(learning_enabled, force, candidate_samples, baseline_samples, min_samples, episodes_available)
            == EvaluationMode::LiveTrades) <==> (learning_enabled && !force && candidate_samples >= min_samples
            && baseline_samples >= min_samples),
        learning_enabled && !force && (candidate_samples < min_samples || baseline_samples < min_samples)
            && episodes_available ==> spec_evaluation_mode(
            learning_enabled,
            force,
            candidate_samples,
            baseline_samples,
            min_samples,
            episodes_available,
        ) == EvaluationMode::BenchmarkReplay,
        !learning_enabled || force ==> spec_evaluation_mode(
            learning_enabled,
            force,
            candidate_samples,
            baseline_samples,
            min_samples,
            episodes_available,
        ) == EvaluationMode::Skip,
{
}

} // verus!
