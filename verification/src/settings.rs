//! Configuration sections with their defaults, and the rules by which
//! environment variables override them.
//!
//! Reading the settings file and the process environment happens outside
//! the library; here an override is the text of one variable, when set.
use vstd::prelude::*;
use crate::numbers::{parse_u64, parse_usize, spec_parse_unsigned};
use crate::text::{eq_ignore_ascii_case, owned, str_eq, str_eq_ignore_ascii_case, trim, trim_str, views};

verus! {

broadcast use vstd::string::group_string_axioms;

/// The language model provider.
#[derive(Debug)]
pub struct AIProviderSettings {
    pub model: String,
    pub base_url: String,
    pub api_key: String,
    pub thinking: bool,
    pub reasoning_effort: String,
    pub context_window: usize,
    pub stage_timeout_seconds: u64,
}

fn default_model() -> (r: String)
    ensures
        r@ == "deepseek-v4-flash"@,
{
    String::from_str("deepseek-v4-flash")
}

fn default_base_url() -> (r: String)
    ensures
        r@ == "https://api.deepseek.com"@,
{
    String::from_str("https://api.deepseek.com")
}

fn default_false() -> (r: bool)
    ensures
        !r,
{
    false
}

fn default_true() -> (r: bool)
    ensures
        r,
{
    true
}

fn default_reasoning_effort() -> (r: String)
    ensures
        r@ == "high"@,
{
    String::from_str("high")
}

fn default_context_window() -> (r: usize)
    ensures
        r == 128_000,
{
    128_000
}

fn default_stage_timeout_seconds() -> (r: u64)
    ensures
        r == 240,
{
    240
}

impl Default for AIProviderSettings {
    fn default() -> (s: Self)
        ensures
            s.model@ == "deepseek-v4-flash"@,
            s.base_url@ == "https://api.deepseek.com"@,
            s.api_key@ == Seq::<char>::empty(),
            !s.thinking,
            s.reasoning_effort@ == "high"@,
            s.context_window == 128_000,
            s.stage_timeout_seconds == 240,
    {
        AIProviderSettings {
            model: default_model(),
            base_url: default_base_url(),
            api_key: String::new(),
            thinking: default_false(),
            reasoning_effort: default_reasoning_effort(),
            context_window: default_context_window(),
            stage_timeout_seconds: default_stage_timeout_seconds(),
        }
    }
}

/// How the analysis runs.
#[derive(Debug)]
pub struct GeneralSettings {
    pub analysis_bar_count: usize,
    pub decision_confidence_threshold: u32,
    pub decision_stance: String,
    pub trading_system: String,
    pub enable_next_bar_prediction: bool,
    pub structure_flip_cooldown_bars: usize,
}

fn default_analysis_bar_count() -> (r: usize)
    ensures
        r == 100,
{
    100
}

fn default_confidence_threshold() -> (r: u32)
    ensures
        r == 40,
{
    40
}

fn default_decision_stance() -> (r: String)
    ensures
        r@ == "balanced"@,
{
    String::from_str("balanced")
}

fn default_trading_system() -> (r: String)
    ensures
        r@ == "2pa"@,
{
    String::from_str("2pa")
}

fn default_cooldown_bars() -> (r: usize)
    ensures
        r == 3,
{
    3
}

impl Default for GeneralSettings {
    fn default() -> (s: Self)
        ensures
            s.analysis_bar_count == 100,
            s.decision_confidence_threshold == 40,
            s.decision_stance@ == "balanced"@,
            s.trading_system@ == "2pa"@,
            !s.enable_next_bar_prediction,
            s.structure_flip_cooldown_bars == 3,
    {
        GeneralSettings {
            analysis_bar_count: default_analysis_bar_count(),
            decision_confidence_threshold: default_confidence_threshold(),
            decision_stance: default_decision_stance(),
            trading_system: default_trading_system(),
            enable_next_bar_prediction: false,
            structure_flip_cooldown_bars: default_cooldown_bars(),
        }
    }
}

/// What goes into the prompts.
#[derive(Debug)]
pub struct PromptSettings {
    pub stage2_load_full_strategy_library: bool,
    pub experience_max_entries: usize,
    pub experience_max_chars_per_entry: usize,
    pub stage1_inject_pattern_briefs: bool,
}

fn default_experience_max_chars() -> (r: usize)
    ensures
        r == 400,
{
    400
}

impl Default for PromptSettings {
    fn default() -> (s: Self)
        ensures
            !s.stage2_load_full_strategy_library,
            s.experience_max_entries == 0,
            s.experience_max_chars_per_entry == 400,
            s.stage1_inject_pattern_briefs,
    {
        PromptSettings {
            stage2_load_full_strategy_library: false,
            experience_max_entries: 0,
            experience_max_chars_per_entry: default_experience_max_chars(),
            stage1_inject_pattern_briefs: default_true(),
        }
    }
}

/// How strictly model replies are checked and how often they are retried.
#[derive(Debug)]
pub struct ValidationSettings {
    pub normalization_mode: String,
    pub stage1_coherence_checks: bool,
    pub stage2_coherence_checks: bool,
    pub trace_semantic_checks: bool,
    pub strict_bar_by_bar_features: bool,
    pub disable_truncation_repair: bool,
    pub retry_enabled: bool,
    pub retry_max: usize,
    pub retry_max_semantic: usize,
    pub retry_stage2: bool,
}

fn default_normalization_mode() -> (r: String)
    ensures
        r@ == "lenient"@,
{
    String::from_str("lenient")
}

fn default_retry_max() -> (r: usize)
    ensures
        r == 3,
{
    3
}

fn default_retry_max_semantic() -> (r: usize)
    ensures
        r == 1,
{
    1
}

impl Default for ValidationSettings {
    fn default() -> (s: Self)
        ensures
            s.normalization_mode@ == "lenient"@,
            !s.stage1_coherence_checks,
            !s.stage2_coherence_checks,
            !s.trace_semantic_checks,
            !s.strict_bar_by_bar_features,
            !s.disable_truncation_repair,
            s.retry_enabled,
            s.retry_max == 3,
            s.retry_max_semantic == 1,
            s.retry_stage2,
    {
        ValidationSettings {
            normalization_mode: default_normalization_mode(),
            stage1_coherence_checks: false,
            stage2_coherence_checks: false,
            trace_semantic_checks: false,
            strict_bar_by_bar_features: false,
            disable_truncation_repair: false,
            retry_enabled: default_true(),
            retry_max: default_retry_max(),
            retry_max_semantic: default_retry_max_semantic(),
            retry_stage2: default_true(),
        }
    }
}

/// The OKX account, order and automation settings. The default order size
/// and leverage, which are floating-point, are kept by the caller beside
/// these.
#[derive(Debug)]
pub struct OKXSettings {
    pub base_url: String,
    pub api_key: String,
    pub secret_key: String,
    pub passphrase: String,
    pub demo_trading: bool,
    pub auto_trading_enabled: bool,
    pub live_trading_acknowledged: bool,
    pub trade_mode: String,
    pub position_mode: String,
    pub block_new_entries_when_position_open: bool,
    pub max_signal_age_seconds: u64,
    pub max_pending_bars: usize,
    pub automation_poll_seconds: u64,
    pub automation_session_preset: String,
    pub automation_session_timezone: String,
    pub automation_session_start: String,
    pub automation_session_end: String,
    pub automation_session_weekdays: Vec<u32>,
}

fn default_session_weekdays() -> (r: Vec<u32>)
    ensures
        r@ == seq![0u32, 1, 2, 3, 4, 5, 6],
{
    let mut v: Vec<u32> = Vec::new();
    let mut d: u32 = 0;
    while d < 7
        invariant
            0 <= d <= 7,
            v@.len() == d,
            forall|i: int| 0 <= i < d ==> v@[i] == i,
        decreases 7 - d,
    {
        v.push(d);
        d += 1;
    }
    assert(v@ =~= seq![0u32, 1, 2, 3, 4, 5, 6]);
    v
}

/// Whether OKX settings hold their defaults.
pub open spec fn okx_defaults(s: OKXSettings) -> bool {
    &&& s.base_url@ == "https://www.okx.com"@
    &&& s.api_key@.len() == 0
    &&& s.secret_key@.len() == 0
    &&& s.passphrase@.len() == 0
    &&& s.demo_trading
    &&& !s.auto_trading_enabled
    &&& !s.live_trading_acknowledged
    &&& s.trade_mode@ == "cross"@
    &&& s.position_mode@ == "net"@
    &&& s.block_new_entries_when_position_open
    &&& s.max_signal_age_seconds == 120
    &&& s.max_pending_bars == 3
    &&& s.automation_poll_seconds == 20
    &&& s.automation_session_preset@ == "always"@
    &&& s.automation_session_timezone@ == "UTC"@
    &&& s.automation_session_start@ == "00:00"@
    &&& s.automation_session_end@ == "00:00"@
    &&& s.automation_session_weekdays@ == seq![0u32, 1, 2, 3, 4, 5, 6]
}

impl Default for OKXSettings {
    fn default() -> (s: Self)
        ensures
            okx_defaults(s),
    {
        OKXSettings {
            base_url: String::from_str("https://www.okx.com"),
            api_key: String::new(),
            secret_key: String::new(),
            passphrase: String::new(),
            demo_trading: default_true(),
            auto_trading_enabled: false,
            live_trading_acknowledged: false,
            trade_mode: String::from_str("cross"),
            position_mode: String::from_str("net"),
            block_new_entries_when_position_open: default_true(),
            max_signal_age_seconds: 120,
            max_pending_bars: 3,
            automation_poll_seconds: 20,
            automation_session_preset: String::from_str("always"),
            automation_session_timezone: String::from_str("UTC"),
            automation_session_start: String::from_str("00:00"),
            automation_session_end: String::from_str("00:00"),
            automation_session_weekdays: default_session_weekdays(),
        }
    }
}

/// All configuration sections.
#[derive(Debug)]
pub struct Settings {
    pub provider: AIProviderSettings,
    pub general: GeneralSettings,
    pub prompt: PromptSettings,
    pub validation: ValidationSettings,
    pub okx: OKXSettings,
}

impl Default for Settings {
    fn default() -> (s: Self)
        ensures
            s.provider.model@ == "deepseek-v4-flash"@,
            s.provider.api_key@.len() == 0,
            s.general.trading_system@ == "2pa"@,
            s.general.analysis_bar_count == 100,
            s.prompt.experience_max_entries == 0,
            s.validation.retry_max == 3,
            okx_defaults(s.okx),
    {
        Settings {
            provider: AIProviderSettings::default(),
            general: GeneralSettings::default(),
            prompt: PromptSettings::default(),
            validation: ValidationSettings::default(),
            okx: OKXSettings::default(),
        }
    }
}

impl Settings {
    /// Whether a model provider key is filled in.
    pub fn is_provider_configured(&self) -> (r: bool)
        ensures
            r == (trim(self.provider.api_key@).len() > 0),
    {
        is_configured(self.provider.api_key.as_str())
    }

    /// Whether all three OKX credentials are filled in.
    pub fn is_okx_configured(&self) -> (r: bool)
        ensures
            r == (trim(self.okx.api_key@).len() > 0 && trim(self.okx.secret_key@).len() > 0 && trim(
                self.okx.passphrase@,
            ).len() > 0),
    {
        is_configured(self.okx.api_key.as_str()) && is_configured(self.okx.secret_key.as_str()) && is_configured(
            self.okx.passphrase.as_str(),
        )
    }

    /// Applies the environment variables over the settings read from the
    /// file (or the defaults).
    pub fn apply_env(&mut self, env: &SettingsEnv)
        ensures
            provider_env_applied(old(self).provider, final(self).provider, env.provider),
            final(self).general.trading_system@ == text_override(
                old(self).general.trading_system@,
                opt_view(env.trading_system),
            ),
            final(self).general.analysis_bar_count == old(self).general.analysis_bar_count,
            final(self).general.decision_stance@ == old(self).general.decision_stance@,
            okx_env_applied(old(self).okx, final(self).okx, env.okx),
            final(self).prompt == old(self).prompt,
            final(self).validation == old(self).validation,
    {
        apply_provider_env(&mut self.provider, &env.provider);
        apply_general_env(&mut self.general, opt_str(&env.trading_system));
        apply_okx_env(&mut self.okx, &env.okx);
    }
}

// ---------------------------------------------------------------------------
// Environment overrides.
// ---------------------------------------------------------------------------

/// The text of an optional value.
pub open spec fn opt_view(v: Option<String>) -> Option<Seq<char>> {
    match v {
        Some(s) => Some(s@),
        None => None,
    }
}

/// A text setting after its variable: the trimmed value when it is set and
/// not blank, else the current text.
pub open spec fn text_override(current: Seq<char>, var: Option<Seq<char>>) -> Seq<char> {
    match var {
        Some(v) => if trim(v).len() > 0 {
            trim(v)
        } else {
            current
        },
        None => current,
    }
}

/// A switch after its variable: when set, on exactly for `true` in any
/// letter case or `1`, around whitespace.
pub open spec fn flag_override(current: bool, var: Option<Seq<char>>) -> bool {
    match var {
        Some(v) => eq_ignore_ascii_case(trim(v), "true"@) || trim(v) == "1"@,
        None => current,
    }
}

/// A count after its variable: the value when it is set and parses as an
/// unsigned integer no greater than `max`, else the current count.
pub open spec fn count_override(current: int, var: Option<Seq<char>>, max: int) -> int {
    match var {
        Some(v) => match spec_parse_unsigned(trim(v), max) {
            Some(n) => n,
            None => current,
        },
        None => current,
    }
}

/// Applies a text variable to a text setting.
pub fn env_text(current: &str, var: Option<&str>) -> (r: String)
    ensures
        r@ == text_override(
            current@,
            match var {
                Some(v) => Some(v@),
                None => None,
            },
        ),
{
    match var {
        Some(v) => {
            let t = trim_str(v);
            if t.as_str().is_empty() {
                owned(current)
            } else {
                t
            }
        },
        None => owned(current),
    }
}

/// Applies a switch variable to a switch.
pub fn env_flag(current: bool, var: Option<&str>) -> (r: bool)
    ensures
        r == flag_override(
            current,
            match var {
                Some(v) => Some(v@),
                None => None,
            },
        ),
{
    match var {
        Some(v) => {
            let t = trim_str(v);
            str_eq_ignore_ascii_case(t.as_str(), "true") || str_eq(t.as_str(), "1")
        },
        None => current,
    }
}

/// Applies a count variable to a `usize` setting.
pub fn env_usize(current: usize, var: Option<&str>) -> (r: usize)
    ensures
        r == count_override(
            current as int,
            match var {
                Some(v) => Some(v@),
                None => None,
            },
            usize::MAX as int,
        ),
{
    match var {
        Some(v) => {
            let t = trim_str(v);
            match parse_usize(t.as_str()) {
                Some(n) => n,
                None => current,
            }
        },
        None => current,
    }
}

/// Applies a count variable to a `u64` setting.
pub fn env_u64(current: u64, var: Option<&str>) -> (r: u64)
    ensures
        r == count_override(
            current as int,
            match var {
                Some(v) => Some(v@),
                None => None,
            },
            u64::MAX as int,
        ),
{
    match var {
        Some(v) => {
            let t = trim_str(v);
            match parse_u64(t.as_str()) {
                Some(n) => n,
                None => current,
            }
        },
        None => current,
    }
}

/// The provider variables, each read from its `LLM_` name or else its
/// `AI_` name.
#[derive(Debug)]
pub struct ProviderEnv {
    pub api_key: Option<String>,
    pub base_url: Option<String>,
    pub model: Option<String>,
    pub thinking: Option<String>,
    pub reasoning_effort: Option<String>,
    pub context_window: Option<String>,
    pub stage_timeout_seconds: Option<String>,
}

/// The optional text of an optional `String`.
fn opt_str(v: &Option<String>) -> (r: Option<&str>)
    ensures
        match r {
            Some(s) => *v matches Some(t) && s@ == t@,
            None => v is None,
        },
{
    match v {
        Some(s) => Some(s.as_str()),
        None => None,
    }
}

/// Applies the provider variables to the provider settings.
pub fn apply_provider_env(s: &mut AIProviderSettings, env: &ProviderEnv)
    ensures
        final(s).api_key@ == text_override(old(s).api_key@, opt_view(env.api_key)),
        final(s).base_url@ == text_override(old(s).base_url@, opt_view(env.base_url)),
        final(s).model@ == text_override(old(s).model@, opt_view(env.model)),
        final(s).thinking == flag_override(old(s).thinking, opt_view(env.thinking)),
        final(s).reasoning_effort@ == text_override(
            old(s).reasoning_effort@,
            opt_view(env.reasoning_effort),
        ),
        final(s).context_window == count_override(
            old(s).context_window as int,
            opt_view(env.context_window),
            usize::MAX as int,
        ),
        final(s).stage_timeout_seconds == count_override(
            old(s).stage_timeout_seconds as int,
            opt_view(env.stage_timeout_seconds),
            u64::MAX as int,
        ),
{
    s.api_key = env_text(s.api_key.as_str(), opt_str(&env.api_key));
    s.base_url = env_text(s.base_url.as_str(), opt_str(&env.base_url));
    s.model = env_text(s.model.as_str(), opt_str(&env.model));
    s.thinking = env_flag(s.thinking, opt_str(&env.thinking));
    s.reasoning_effort = env_text(s.reasoning_effort.as_str(), opt_str(&env.reasoning_effort));
    s.context_window = env_usize(s.context_window, opt_str(&env.context_window));
    s.stage_timeout_seconds = env_u64(
        s.stage_timeout_seconds,
        opt_str(&env.stage_timeout_seconds),
    );
}

/// Applies `TRADING_SYSTEM` (or `AI_TRADING_SYSTEM`) to the general settings.
pub fn apply_general_env(s: &mut GeneralSettings, trading_system: Option<&str>)
    ensures
        final(s).trading_system@ == text_override(
            old(s).trading_system@,
            match trading_system {
                Some(v) => Some(v@),
                None => None,
            },
        ),
        final(s).analysis_bar_count == old(s).analysis_bar_count,
        final(s).decision_confidence_threshold == old(s).decision_confidence_threshold,
        final(s).decision_stance@ == old(s).decision_stance@,
        final(s).enable_next_bar_prediction == old(s).enable_next_bar_prediction,
        final(s).structure_flip_cooldown_bars == old(s).structure_flip_cooldown_bars,
{
    s.trading_system = env_text(s.trading_system.as_str(), trading_system);
}

/// The provider settings after the provider variables.
pub open spec fn provider_env_applied(before: AIProviderSettings, after: AIProviderSettings, env: ProviderEnv) -> bool {
    &&& after.api_key@ == text_override(before.api_key@, opt_view(env.api_key))
    &&& after.base_url@ == text_override(before.base_url@, opt_view(env.base_url))
    &&& after.model@ == text_override(before.model@, opt_view(env.model))
    &&& after.thinking == flag_override(before.thinking, opt_view(env.thinking))
    &&& after.reasoning_effort@ == text_override(before.reasoning_effort@, opt_view(env.reasoning_effort))
    &&& after.context_window == count_override(
        before.context_window as int,
        opt_view(env.context_window),
        usize::MAX as int,
    )
    &&& after.stage_timeout_seconds == count_override(
        before.stage_timeout_seconds as int,
        opt_view(env.stage_timeout_seconds),
        u64::MAX as int,
    )
}

/// The `OKX_` variables the settings read.
#[derive(Debug)]
pub struct OkxEnv {
    pub api_key: Option<String>,
    pub secret_key: Option<String>,
    pub passphrase: Option<String>,
    pub base_url: Option<String>,
    pub demo_trading: Option<String>,
    pub auto_trading_enabled: Option<String>,
    pub live_trading_acknowledged: Option<String>,
    pub trade_mode: Option<String>,
    pub position_mode: Option<String>,
    pub block_new_entries_when_position_open: Option<String>,
    pub max_signal_age_seconds: Option<String>,
    pub max_pending_bars: Option<String>,
    pub automation_session_preset: Option<String>,
    pub automation_session_timezone: Option<String>,
}

/// All variables the settings read.
#[derive(Debug)]
pub struct SettingsEnv {
    pub provider: ProviderEnv,
    /// `TRADING_SYSTEM`, else `AI_TRADING_SYSTEM`.
    pub trading_system: Option<String>,
    pub okx: OkxEnv,
}

/// The OKX settings after the `OKX_` variables; the poll interval, session
/// times and weekdays are not read from the environment.
pub open spec fn okx_env_applied(before: OKXSettings, after: OKXSettings, env: OkxEnv) -> bool {
    &&& after.api_key@ == text_override(before.api_key@, opt_view(env.api_key))
    &&& after.secret_key@ == text_override(before.secret_key@, opt_view(env.secret_key))
    &&& after.passphrase@ == text_override(before.passphrase@, opt_view(env.passphrase))
    &&& after.base_url@ == text_override(before.base_url@, opt_view(env.base_url))
    &&& after.demo_trading == flag_override(before.demo_trading, opt_view(env.demo_trading))
    &&& after.auto_trading_enabled == flag_override(before.auto_trading_enabled, opt_view(env.auto_trading_enabled))
    &&& after.live_trading_acknowledged == flag_override(
        before.live_trading_acknowledged,
        opt_view(env.live_trading_acknowledged),
    )
    &&& after.trade_mode@ == text_override(before.trade_mode@, opt_view(env.trade_mode))
    &&& after.position_mode@ == text_override(before.position_mode@, opt_view(env.position_mode))
    &&& after.block_new_entries_when_position_open == flag_override(
        before.block_new_entries_when_position_open,
        opt_view(env.block_new_entries_when_position_open),
    )
    &&& after.max_signal_age_seconds == count_override(
        before.max_signal_age_seconds as int,
        opt_view(env.max_signal_age_seconds),
        u64::MAX as int,
    )
    &&& after.max_pending_bars == count_override(
        before.max_pending_bars as int,
        opt_view(env.max_pending_bars),
        usize::MAX as int,
    )
    &&& after.automation_session_preset@ == text_override(
        before.automation_session_preset@,
        opt_view(env.automation_session_preset),
    )
    &&& after.automation_session_timezone@ == text_override(
        before.automation_session_timezone@,
        opt_view(env.automation_session_timezone),
    )
    &&& after.automation_poll_seconds == before.automation_poll_seconds
    &&& after.automation_session_start == before.automation_session_start
    &&& after.automation_session_end == before.automation_session_end
    &&& after.automation_session_weekdays == before.automation_session_weekdays
}

/// Applies the `OKX_` variables to the OKX settings.
pub fn apply_okx_env(s: &mut OKXSettings, env: &OkxEnv)
    ensures
        okx_env_applied(*old(s), *final(s), *env),
{
    s.api_key = env_text(s.api_key.as_str(), opt_str(&env.api_key));
    s.secret_key = env_text(s.secret_key.as_str(), opt_str(&env.secret_key));
    s.passphrase = env_text(s.passphrase.as_str(), opt_str(&env.passphrase));
    s.base_url = env_text(s.base_url.as_str(), opt_str(&env.base_url));
    s.demo_trading = env_flag(s.demo_trading, opt_str(&env.demo_trading));
    s.auto_trading_enabled = env_flag(s.auto_trading_enabled, opt_str(&env.auto_trading_enabled));
    s.live_trading_acknowledged = env_flag(s.live_trading_acknowledged, opt_str(&env.live_trading_acknowledged));
    s.trade_mode = env_text(s.trade_mode.as_str(), opt_str(&env.trade_mode));
    s.position_mode = env_text(s.position_mode.as_str(), opt_str(&env.position_mode));
    s.block_new_entries_when_position_open = env_flag(
        s.block_new_entries_when_position_open,
        opt_str(&env.block_new_entries_when_position_open),
    );
    s.max_signal_age_seconds = env_u64(s.max_signal_age_seconds, opt_str(&env.max_signal_age_seconds));
    s.max_pending_bars = env_usize(s.max_pending_bars, opt_str(&env.max_pending_bars));
    s.automation_session_preset = env_text(
        s.automation_session_preset.as_str(),
        opt_str(&env.automation_session_preset),
    );
    s.automation_session_timezone = env_text(
        s.automation_session_timezone.as_str(),
        opt_str(&env.automation_session_timezone),
    );
}

/// Whether a credential is filled in (not blank).
pub fn is_configured(credential: &str) -> (r: bool)
    ensures
        r == (trim(credential@).len() > 0),
{
    !crate::text::is_blank(credential)
}

/// An unset or blank variable leaves a text setting as it was.
pub proof fn law_blank_variable_changes_nothing(current: Seq<char>, var: Seq<char>)
    requires
        trim(var).len() == 0,
    ensures
        text_override(current, Some(var)) == current,
        text_override(current, None) == current,
{
}

// ---------------------------------------------------------------------------
// Saving the environment file.
// ---------------------------------------------------------------------------

/// Whether a text holds a carriage return, a line feed or a NUL.
pub open spec fn has_line_break(s: Seq<char>) -> bool {
    exists|i: int| 0 <= i < s.len() && (s[i] == '\r' || s[i] == '\n' || s[i] == '\0')
}

/// The verdict on a configuration form: no field may break a line, the
/// trading system must be known, the position and margin modes must be
/// ones OKX has, and the sizing and risk numbers must be sane (that last
/// judgement, on floating point, is `numbers_ok`).
pub open spec fn spec_env_form_check(
    fields: Seq<Seq<char>>,
    trading_system: Seq<char>,
    position_mode: Seq<char>,
    trade_mode: Seq<char>,
    numbers_ok: bool,
) -> Result<(), Seq<char>> {
    if exists|i: int| 0 <= i < fields.len() && has_line_break(#[trigger] fields[i]) {
        Err("配置字段不得包含换行"@)
    } else if crate::labels::spec_canonical(trading_system) is None {
        Err("未知交易系统"@)
    } else if !(position_mode == "net"@ || position_mode == "long_short"@) {
        Err("未知持仓模式"@)
    } else if !(trade_mode == "cash"@ || trade_mode == "cross"@ || trade_mode == "isolated"@) {
        Err("未知保证金模式"@)
    } else if !numbers_ok {
        Err("无效的仓位或风险参数"@)
    } else {
        Ok(())
    }
}

/// Whether a text holds a line break.
fn breaks_line(s: &str) -> (r: bool)
    ensures
        r == has_line_break(s@),
{
    let v = crate::text::chars_of(s);
    let mut i: usize = 0;
    while i < v.len()
        invariant
            v@ == s@,
            0 <= i <= v.len(),
            forall|k: int| 0 <= k < i ==> !(v@[k] == '\r' || v@[k] == '\n' || v@[k] == '\0'),
        decreases v.len() - i,
    {
        if v[i] == '\r' || v[i] == '\n' || v[i] == '\0' {
            return true;
        }
        i += 1;
    }
    false
}

/// Checks a configuration form before it is written: `fields` are its text
/// fields (keys, addresses, model, trading system, modes).
pub fn check_env_form(
    fields: &Vec<String>,
    trading_system: &str,
    position_mode: &str,
    trade_mode: &str,
    numbers_ok: bool,
) -> (r: Result<(), String>)
    ensures
        match r {
            Ok(()) => spec_env_form_check(views(fields@), trading_system@, position_mode@, trade_mode@, numbers_ok)
                == Ok::<(), Seq<char>>(()),
            Err(e) => spec_env_form_check(views(fields@), trading_system@, position_mode@, trade_mode@, numbers_ok)
                == Err::<(), Seq<char>>(e@),
        },
{
    let mut i: usize = 0;
    while i < fields.len()
        invariant
            0 <= i <= fields.len(),
            forall|k: int| 0 <= k < i ==> !has_line_break(#[trigger] views(fields@)[k]),
        decreases fields.len() - i,
    {
        proof {
            assert(views(fields@)[i as int] == fields@[i as int]@);
        }
        if breaks_line(fields[i].as_str()) {
            return Err(String::from_str("配置字段不得包含换行"));
        }
        i += 1;
    }
    if crate::labels::canonical(trading_system).is_none() {
        return Err(String::from_str("未知交易系统"));
    }
    if !(str_eq(position_mode, "net") || str_eq(position_mode, "long_short")) {
        return Err(String::from_str("未知持仓模式"));
    }
    if !(str_eq(trade_mode, "cash") || str_eq(trade_mode, "cross") || str_eq(trade_mode, "isolated")) {
        return Err(String::from_str("未知保证金模式"));
    }
    if !numbers_ok {
        return Err(String::from_str("无效的仓位或风险参数"));
    }
    Ok(())
}

/// The web token as it is written between double quotes in the
/// environment file: backslashes, double quotes and dollar signs escaped
/// with a backslash.
pub open spec fn escaped_token(token: Seq<char>) -> Seq<char> {
    crate::text::replace_all(
        crate::text::replace_all(crate::text::replace_all(token, "\\"@, "\\\\"@), "\""@, "\\\""@),
        "$"@,
        "\\$"@,
    )
}

/// Escapes the web token for the environment file.
pub fn escape_env_token(token: &str) -> (r: String)
    ensures
        r@ == escaped_token(token@),
{
    proof {
        reveal_strlit("\\");
        reveal_strlit("\"");
        reveal_strlit("$");
    }
    let a = crate::mask::replace_str(token, "\\", "\\\\");
    let b = crate::mask::replace_str(a.as_str(), "\"", "\\\"");
    crate::mask::replace_str(b.as_str(), "$", "\\$")
}

} // verus!
