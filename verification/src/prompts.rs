//! Assembling the prompts: the system prompt of the source 2PA pipeline,
//! the strategy protocol and where it comes from, the position section,
//! the experience query and the strategy files routed to stage two.
//!
//! Prompt files are read outside the library and handed in as text.
use vstd::prelude::*;
use crate::artifact::ActivePrompt;
use crate::digest::{content_hash, content_hash_of};
use crate::labels::{canonical, spec_canonical};
use crate::text::{append, concat2, contains, contains_str, occurs_at, eq_ignore_ascii_case, owned, str_contains, str_eq, str_eq_ignore_ascii_case, to_lowercase, trim, trim_str, unicode_lowercase, views};
use crate::validation::listed_if;

verus! {

broadcast use vstd::string::group_string_axioms;

/// The language rules both stages follow.
pub const LANGUAGE_ZH_RULE: &'static str = "## 语言要求（阶段一、阶段二均必须遵守）\n\n- **通俗易懂（最重要）**：面向用户的解释文本必须通俗易懂，像给刚入门的新手讲解一样，用日常语言描述市场发生了什么、为什么这样判断。\n- **思考过程**：扩展思考、内部推理及 JSON 说明，全程使用简体中文。\n- **最终输出**：JSON 中所有面向用户的字符串一律使用简体中文。\n- **仅允许英文**：JSON 字段名（schema 键名）、规定的枚举取值（如 `proceed`、`wait`、`bullish`、`bearish`）、K 线序号（如 `K1`、`K42-K1`）。";

/// The Chinese price-action vocabulary the model must use.
pub const PA_TERMINOLOGY_ZH: &'static str = "## 术语使用规范（面向用户时必须使用中文）\n\n| 术语 | 含义 / 用法提示 |\n|------|----------------|\n| 信号棒 | 触发入场计划的 K 线；极点外 1 跳动设止损/突破单 |\n| 入场棒 | 实际触发入场的 K 线；须在信号棒之后 |\n| 确认棒 / 跟随 | 信号或入场后 1–2 根同向延续；无跟随则信号易失败 |\n| 突破 | 价格越过结构位、通道线、区间边界或信号棒极点 |\n| 假突破 | 突破后快速回到原结构内；区间中常见 |\n| 突破回踩 / 回测 | 突破后回撤测试被突破位再延续（勿与「历史回测」混淆） |\n| 外包棒 | 高低点完全包含前一根；方向未定时勿追两端 |\n| 内包棒 | 完全在前一根范围内；ii/iii 为连续内包 |\n| 流星线 | 长上影、小实体，常作顶部拒绝 |\n| 锤子线 | 长下影、小实体，常作底部拒绝 |\n| 十字星 | 开收接近、多空犹豫 |\n| 趋势棒 | 实体大、收盘近极点、影线短 |\n| 铁丝网 | 极窄重叠区间，默认少交易 |\n| 被套 | 突破方向上的交易者被迫止损离场 |\n| 磁力位 | 失败信号棒/入场棒极点吸引价格回测 |\n\n英文缩写须加中文解释（不可单独使用英文）：SB/EB→信号棒/入场棒、OB/IB→外包棒/内包棒、H1/H2→第一次/第二次顺势回调、L1/L2→第一次/第二次逆势回调、MTR→主要趋势反转、AIL/AIS→持续看多/持续看空、20GB→约20根K线未触及均线、TR→交易区间、MM→测量移动（等距目标位）、SPS→尖峰顺势突破、SCS→尖峰连续尖峰。";

/// The rule that the model calls no tools.
pub const OPENCLAW_AGENT_NO_TOOLS_RULE: &'static str = "## PA Agent × QClaw 任务模式（硬约束）\n\n你正在接收 **PA Agent 程序化 K 线分析**请求，不是通用编程/运维助手会话。\n\n**禁止调用任何工具**，包括但不限于：`exec`、运行 Python/shell、读/写/编辑文件、浏览器、联网搜索、在本机目录写中间 `.md`/`.json` 等。\n\n- K 线表、EMA/ATR、几何特征、阶段一诊断（若有）**已全部在用户消息中给出**；禁止再拉数据或读盘。\n- 风险点数、盈亏比、交易者方程、胜率估算等**一律在思考过程或 JSON 字段内心算**；禁止为 `risk=stop-entry` 之类简单算术启动解释器。\n- **唯一交付物**：assistant 正文 `content` 中的裸 JSON（阶段一或阶段二 schema）。不得在磁盘上留档后再回复。\n\n违反会导致分析极慢、工具刷屏，且程序无法解析你的输出。";

/// The rule that the answer JSON goes in the reply body, not the reasoning.
pub const THINKING_CONTENT_OUTPUT_RULE: &'static str = "## 思考与正式输出分离（硬约束，违反则程序判定失败）\n\n启用扩展思考时，**思考区仅用于推演草稿**；**程序只读取 assistant 消息的 `content`（正文）** 做 JSON 校验，**不会**把 `reasoning_content` / 思考流当作阶段结果。\n\n**你必须做到：**\n1. 思考可以较长，但思考结束后**必须在 `content` 正文里输出完整、可 `json.loads` 的裸 JSON 对象**（阶段一诊断 JSON 或阶段二决策 JSON）。\n2. **禁止**把完整 JSON **只**写在思考里而让 `content` 为空、空白或纯叙述文字。\n3. **禁止**在 `content` 里输出 markdown 说明、英文长文分析、或「详见上文思考」——`content` 里**只能**是裸 JSON。\n4. 若思考预算较大，请**预留足够 token** 给最终 JSON；宁可压缩思考篇幅，也**不得**省略正文 JSON。\n\n阶段一：`content` = 阶段一诊断 JSON（含 `gate_trace`、`gate_result` 等必填字段）。\n阶段二：`content` = 阶段二决策 JSON（含 `decision`、`decision_trace`、`terminal` 等必填字段）。";

/// The system prompt of the source 2PA pipeline: the four fixed rule
/// blocks, then the persona outline and the binary-decision guide.
pub open spec fn spec_source_2pa_system_prompt(human_mindset: Seq<char>, binary_decision: Seq<char>) -> Seq<char> {
    LANGUAGE_ZH_RULE@ + "\n\n"@ + PA_TERMINOLOGY_ZH@ + "\n\n"@ + OPENCLAW_AGENT_NO_TOOLS_RULE@ + "\n\n"@
        + THINKING_CONTENT_OUTPUT_RULE@ + "\n\n---\n\n"@ + human_mindset + "\n\n---\n\n"@ + binary_decision
}

/// Builds the source 2PA system prompt around the texts of the persona
/// outline and the binary-decision guide (empty when their files are
/// missing).
pub fn build_source_2pa_system_prompt(human_mindset: &str, binary_decision: &str) -> (r: String)
    ensures
        r@ == spec_source_2pa_system_prompt(human_mindset@, binary_decision@),
{
    let mut s = owned(LANGUAGE_ZH_RULE);
    append(&mut s, "\n\n");
    append(&mut s, PA_TERMINOLOGY_ZH);
    append(&mut s, "\n\n");
    append(&mut s, OPENCLAW_AGENT_NO_TOOLS_RULE);
    append(&mut s, "\n\n");
    append(&mut s, THINKING_CONTENT_OUTPUT_RULE);
    append(&mut s, "\n\n---\n\n");
    append(&mut s, human_mindset);
    append(&mut s, "\n\n---\n\n");
    append(&mut s, binary_decision);
    s
}

// ---------------------------------------------------------------------------
// The strategy protocol.
// ---------------------------------------------------------------------------

/// A resolved strategy prompt with where it came from.
#[derive(Debug)]
pub struct StrategyPrompt {
    pub content: String,
    pub version: String,
    pub hash: String,
    /// `artifact` from the versioned store, `harness` from the harness
    /// modules, `embedded` for the shipped fallback.
    pub source: &'static str,
}

impl StrategyPrompt {
    /// The shipped fallback protocol, `fallback`, as a prompt.
    pub fn embedded(fallback: &str) -> (p: Self)
        ensures
            p.content@ == fallback@,
            p.version@ == "embedded"@,
            p.hash@ == content_hash_of(fallback@),
            p.source@ == "embedded"@,
    {
        StrategyPrompt {
            content: owned(fallback),
            version: String::from_str("embedded"),
            hash: content_hash(fallback),
            source: "embedded",
        }
    }
}

/// Picks the strategy protocol: the active version of the artifact store
/// when it could be read, else the shipped fallback. `active` is `None`
/// when no prompt directory is configured or the store could not be read.
pub fn resolve_strategy_prompt(active: Option<&ActivePrompt>, fallback: &str) -> (p: StrategyPrompt)
    ensures
        match active {
            Some(a) => p.content@ == a.content@ && p.version@ == a.version@ && p.hash@ == a.hash@
                && p.source@ == "artifact"@,
            None => p.content@ == fallback@ && p.version@ == "embedded"@ && p.hash@ == content_hash_of(fallback@)
                && p.source@ == "embedded"@,
        },
{
    match active {
        Some(a) => StrategyPrompt {
            content: owned(a.content.as_str()),
            version: owned(a.version.as_str()),
            hash: owned(a.hash.as_str()),
            source: "artifact",
        },
        None => StrategyPrompt::embedded(fallback),
    }
}

/// Whether a trading system uses the dog-walking harness.
pub open spec fn is_dog_system(system: Seq<char>) -> bool {
    let c = match spec_canonical(system) {
        Some(c) => c,
        None => system,
    };
    c == "dog_reversion"@ || c == "dog_trend"@ || c == "dog_walking"@
}

/// Picks the strategy protocol for a trading system: the dog-walking skill
/// and execution contract for the dog-walking systems, else as
/// `resolve_strategy_prompt` picks.
pub fn resolve_strategy_prompt_for_system(
    system: &str,
    skill: &str,
    contract: &str,
    active: Option<&ActivePrompt>,
    fallback: &str,
) -> (p: StrategyPrompt)
    ensures
        is_dog_system(system@) ==> p.content@ == skill@ + "\n\n"@ + contract@ && p.version@ == "dog_walking_harness"@
            && p.hash@ == content_hash_of(skill@ + "\n\n"@ + contract@) && p.source@ == "harness"@,
        !is_dog_system(system@) ==> match active {
            Some(a) => p.content@ == a.content@ && p.version@ == a.version@ && p.hash@ == a.hash@
                && p.source@ == "artifact"@,
            None => p.content@ == fallback@ && p.version@ == "embedded"@ && p.hash@ == content_hash_of(fallback@)
                && p.source@ == "embedded"@,
        },
{
    let canon = match canonical(system) {
        Some(c) => c,
        None => system,
    };
    if str_eq(canon, "dog_reversion") || str_eq(canon, "dog_trend") || str_eq(canon, "dog_walking") {
        let mut content = concat2(skill, "\n\n");
        append(&mut content, contract);
        let hash = content_hash(content.as_str());
        StrategyPrompt { content, version: String::from_str("dog_walking_harness"), hash, source: "harness" }
    } else {
        resolve_strategy_prompt(active, fallback)
    }
}

// ---------------------------------------------------------------------------
// Position section.
// ---------------------------------------------------------------------------

/// The open position as the prompt shows it; numbers arrive formatted.
#[derive(Debug)]
pub struct PositionText {
    pub has_position: bool,
    pub symbol: String,
    pub pos_side: String,
    /// Size as written (`{}`).
    pub pos_size: String,
    /// Average open price (`{:.2}`), when known.
    pub open_avg_px: Option<String>,
    /// Mark price (`{:.2}`), when known.
    pub mark_px: Option<String>,
    /// Profit and its ratio (`{:+.4} USDT ({:+.2}` then a percent sign),
    /// when both are known.
    pub unrealized: Option<String>,
    /// Current stop (`{:.2}`), when set.
    pub current_sl: Option<String>,
    /// Current target (`{:.2}`), when set.
    pub current_tp: Option<String>,
}

/// The text of an optional value, or `absent`.
pub open spec fn or_text(v: Option<String>, absent: Seq<char>) -> Seq<char> {
    match v {
        Some(s) => s@,
        None => absent,
    }
}

/// The section for a flat account.
pub open spec fn flat_section() -> Seq<char> {
    "## 🛡️ 【当前账户持仓与实时风控状态】\n- **当前持仓状态**：【空仓 (No Open Position)】\n- **操作指引**：当前无任何持仓，可正常评估市场并决策是否输出 `action: \"OPEN\"`（开仓）或 `action: \"WAIT\"`（观望）。"@
}

/// The section for an open position.
pub open spec fn position_section(p: PositionText) -> Seq<char> {
    let side = if eq_ignore_ascii_case(p.pos_side@, "long"@) {
        "做多 (Long)"@
    } else {
        "做空 (Short)"@
    };
    "## 🛡️ 【当前账户持仓与实时风控状态】\n- **当前持仓状态**：【持仓中】\n- **持仓品种与方向**："@ + p.symbol@ + " | 方向："@ + side + "\n- **持仓数量**："@ + p.pos_size@ + " 张/币\n- **开仓均价**："@ + or_text(p.open_avg_px, "未知"@) + " ──> **当前标记价**："@
        + or_text(p.mark_px, "未知"@) + "\n- **未实现浮动盈亏**："@ + or_text(p.unrealized, "未知"@) + "\n- **当前生效中的止损价 (SL)**："@ + or_text(p.current_sl, "未设置"@)
        + "\n- **当前生效中的止盈价 (TP)**："@ + or_text(p.current_tp, "未设置"@) + "\n\n⚠️ **【持仓生命周期管理规则】**：\n1. 若行情正沿预期发展且已累积安全浮盈（>= 1.5 ATR），请评估是否输出 `action: \"MOVE_STOP_LOSS\"` 将止损向有利方向移动（提损保本/锁定利润，多单只能上移，空单只能下移，严禁反向扩大止损！）；\n2. 若行情顺畅且未达到移损/平仓条件，输出 `action: \"HOLD\"` 继续持有；\n3. 若原开仓逻辑被重大反向信号彻底破坏，请输出 `action: \"CLOSE_EARLY\"` 主动平仓规避风险；\n4. 已有持仓时，禁止下达同向或反向的新开仓订单。"@
}

/// A text placed between two others occurs in their concatenation.
pub proof fn lemma_contains_middle(x: Seq<char>, n: Seq<char>, y: Seq<char>)
    ensures
        contains(x + n + y, n),
{
    assert((x + n + y).subrange(x.len() as int, (x.len() + n.len()) as int) =~= n);
    assert(occurs_at(x + n + y, n, x.len() as int));
}

/// The text of a position section before its symbol.
pub open spec fn position_head() -> Seq<char> {
    "## 🛡️ 【当前账户持仓与实时风控状态】\n- **当前持仓状态**：【持仓中】\n- **持仓品种与方向**："@
}

/// The direction label of a position.
pub open spec fn side_label(p: PositionText) -> Seq<char> {
    if eq_ignore_ascii_case(p.pos_side@, "long"@) {
        "做多 (Long)"@
    } else {
        "做空 (Short)"@
    }
}

/// The position section up to and including the stop's label.
pub open spec fn before_stop(p: PositionText) -> Seq<char> {
    position_head() + p.symbol@ + " | 方向："@ + side_label(p) + "\n- **持仓数量**："@ + p.pos_size@ + " 张/币\n- **开仓均价**："@
        + or_text(p.open_avg_px, "未知"@) + " ──> **当前标记价**："@ + or_text(p.mark_px, "未知"@) + "\n- **未实现浮动盈亏**："@
        + or_text(p.unrealized, "未知"@) + "\n- **当前生效中的止损价 (SL)**："@
}

/// The position section after the stop's value.
pub open spec fn after_stop(p: PositionText) -> Seq<char> {
    "\n- **当前生效中的止盈价 (TP)**："@ + or_text(p.current_tp, "未设置"@) + "\n\n⚠️ **【持仓生命周期管理规则】**：\n1. 若行情正沿预期发展且已累积安全浮盈（>= 1.5 ATR），请评估是否输出 `action: \"MOVE_STOP_LOSS\"` 将止损向有利方向移动（提损保本/锁定利润，多单只能上移，空单只能下移，严禁反向扩大止损！）；\n2. 若行情顺畅且未达到移损/平仓条件，输出 `action: \"HOLD\"` 继续持有；\n3. 若原开仓逻辑被重大反向信号彻底破坏，请输出 `action: \"CLOSE_EARLY\"` 主动平仓规避风险；\n4. 已有持仓时，禁止下达同向或反向的新开仓订单。"@
}

proof fn lemma_position_section_parts(p: PositionText)
    ensures
        position_section(p) =~= before_stop(p) + or_text(p.current_sl, "未设置"@) + after_stop(p),
{
}

/// The flat section says the account is flat.
pub proof fn law_flat_section_marker()
    ensures
        contains(flat_section(), "【空仓 (No Open Position)】"@),
{
    reveal_strlit("## 🛡️ 【当前账户持仓与实时风控状态】\n- **当前持仓状态**：【空仓 (No Open Position)】\n- **操作指引**：当前无任何持仓，可正常评估市场并决策是否输出 `action: \"OPEN\"`（开仓）或 `action: \"WAIT\"`（观望）。");
    reveal_strlit("【空仓 (No Open Position)】");
    let f = flat_section();
    assert(f.subrange(35, 58) =~= "【空仓 (No Open Position)】"@);
    assert(occurs_at(f, "【空仓 (No Open Position)】"@, 35));
}

/// The section of an open position says so and names its symbol and
/// direction, and says the stop is unset when there is none.
#[verifier::rlimit(30)]
pub proof fn law_position_section_markers(p: PositionText)
    ensures
        contains(position_section(p), "【持仓中】"@),
        contains(position_section(p), p.symbol@),
        contains(position_section(p), side_label(p)),
        p.current_sl is None ==> contains(position_section(p), "(SL)**：未设置"@),
{
    let ps = position_section(p);
    let pre = before_stop(p);
    let mid = or_text(p.current_sl, "未设置"@);
    let post = after_stop(p);
    lemma_position_section_parts(p);
    assert(ps.subrange(0, pre.len() as int) =~= pre);
    assert(pre.subrange(0, position_head().len() as int) =~= position_head());
    assert(contains(ps, "【持仓中】"@)) by {
        reveal_strlit("## 🛡️ 【当前账户持仓与实时风控状态】\n- **当前持仓状态**：【持仓中】\n- **持仓品种与方向**：");
        reveal_strlit("【持仓中】");
        assert(position_head().subrange(35, 40) =~= "【持仓中】"@);
        assert(ps.subrange(35, 40) =~= "【持仓中】"@);
        assert(occurs_at(ps, "【持仓中】"@, 35));
    }
    assert(contains(ps, p.symbol@)) by {
        let k = position_head().len() as int;
        assert(ps.subrange(k, k + p.symbol@.len()) =~= p.symbol@);
        assert(occurs_at(ps, p.symbol@, k));
    }
    assert(contains(ps, side_label(p))) by {
        let k = (position_head() + p.symbol@ + " | 方向："@).len() as int;
        assert(ps.subrange(k, k + side_label(p).len()) =~= side_label(p));
        assert(occurs_at(ps, side_label(p), k));
    }
    if p.current_sl is None {
        assert(contains(ps, "(SL)**：未设置"@)) by {
            reveal_strlit("\n- **当前生效中的止损价 (SL)**：");
            reveal_strlit("未设置");
            reveal_strlit("(SL)**：未设置");
            reveal_strlit("(SL)**：");
            let lit = "\n- **当前生效中的止损价 (SL)**："@;
            assert(lit.len() == 22);
            assert(pre.subrange(pre.len() - 22, pre.len() as int) =~= lit);
            assert(lit.subrange(15, 22) =~= "(SL)**："@);
            let k = pre.len() - 7;
            assert(pre.subrange(k, pre.len() as int) =~= "(SL)**："@);
            assert(ps.subrange(pre.len() as int, (pre.len() + 3) as int) =~= "未设置"@);
            assert(ps.subrange(k, k + 10) =~= "(SL)**：未设置"@);
            assert(occurs_at(ps, "(SL)**：未设置"@, k));
        }
    }
}

/// Appends an optional value's text, or `absent`.
fn append_or(s: &mut String, v: &Option<String>, absent: &str)
    ensures
        final(s)@ == old(s)@ + or_text(*v, absent@),
{
    match v {
        Some(t) => append(s, t.as_str()),
        None => append(s, absent),
    }
}

/// The prompt section on the account's position: the position and the
/// rules for managing it, or the note that the account is flat.
pub fn render_position_context_section(pos: Option<&PositionText>) -> (r: String)
    ensures
        r@ == match pos {
            Some(p) => if p.has_position {
                position_section(*p)
            } else {
                flat_section()
            },
            None => flat_section(),
        },
{
    match pos {
        Some(p) => {
            if p.has_position {
                let side = if str_eq_ignore_ascii_case(p.pos_side.as_str(), "long") {
                    "做多 (Long)"
                } else {
                    "做空 (Short)"
                };
                let mut s = owned("## 🛡️ 【当前账户持仓与实时风控状态】\n- **当前持仓状态**：【持仓中】\n- **持仓品种与方向**：");
                append(&mut s, p.symbol.as_str());
                append(&mut s, " | 方向：");
                append(&mut s, side);
                append(&mut s, "\n- **持仓数量**：");
                append(&mut s, p.pos_size.as_str());
                append(&mut s, " 张/币\n- **开仓均价**：");
                append_or(&mut s, &p.open_avg_px, "未知");
                append(&mut s, " ──> **当前标记价**：");
                append_or(&mut s, &p.mark_px, "未知");
                append(&mut s, "\n- **未实现浮动盈亏**：");
                append_or(&mut s, &p.unrealized, "未知");
                append(&mut s, "\n- **当前生效中的止损价 (SL)**：");
                append_or(&mut s, &p.current_sl, "未设置");
                append(&mut s, "\n- **当前生效中的止盈价 (TP)**：");
                append_or(&mut s, &p.current_tp, "未设置");
                append(&mut s, "\n\n⚠️ **【持仓生命周期管理规则】**：\n1. 若行情正沿预期发展且已累积安全浮盈（>= 1.5 ATR），请评估是否输出 `action: \"MOVE_STOP_LOSS\"` 将止损向有利方向移动（提损保本/锁定利润，多单只能上移，空单只能下移，严禁反向扩大止损！）；\n2. 若行情顺畅且未达到移损/平仓条件，输出 `action: \"HOLD\"` 继续持有；\n3. 若原开仓逻辑被重大反向信号彻底破坏，请输出 `action: \"CLOSE_EARLY\"` 主动平仓规避风险；\n4. 已有持仓时，禁止下达同向或反向的新开仓订单。");
                return s;
            }
        },
        None => {},
    }
    String::from_str("## 🛡️ 【当前账户持仓与实时风控状态】\n- **当前持仓状态**：【空仓 (No Open Position)】\n- **操作指引**：当前无任何持仓，可正常评估市场并决策是否输出 `action: \"OPEN\"`（开仓）或 `action: \"WAIT\"`（观望）。")
}

// ---------------------------------------------------------------------------
// Experience query.
// ---------------------------------------------------------------------------

/// The side experience cases are looked up by: bullish words mean `long`,
/// bearish words `short`, anything else is used as it is (lowercased).
pub open spec fn spec_experience_direction(dominant_force: Seq<char>) -> Seq<char> {
    let d = unicode_lowercase(trim(dominant_force));
    if d == "bulls"@ || d == "bull"@ || d == "long"@ {
        "long"@
    } else if d == "bears"@ || d == "bear"@ || d == "short"@ {
        "short"@
    } else {
        d
    }
}

/// Derives the experience-library query from the stage-1 diagnosis: its
/// trimmed cycle position, the side its dominant force points to, and its
/// detected patterns. Absent fields count as empty.
pub fn experience_query(
    cycle_position: Option<&str>,
    dominant_force: Option<&str>,
    detected_patterns: Vec<String>,
) -> (r: (String, String, Vec<String>))
    ensures
        r.0@ == trim(match cycle_position {
            Some(c) => c@,
            None => ""@,
        }),
        r.1@ == spec_experience_direction(match dominant_force {
            Some(d) => d@,
            None => ""@,
        }),
        r.2@ == detected_patterns@,
{
    let cycle = trim_str(match cycle_position {
        Some(c) => c,
        None => "",
    });
    let t = trim_str(match dominant_force {
        Some(d) => d,
        None => "",
    });
    let d = to_lowercase(t.as_str());
    let ds = d.as_str();
    let direction = if str_eq(ds, "bulls") || str_eq(ds, "bull") || str_eq(ds, "long") {
        String::from_str("long")
    } else if str_eq(ds, "bears") || str_eq(ds, "bear") || str_eq(ds, "short") {
        String::from_str("short")
    } else {
        owned(ds)
    };
    (cycle, direction, detected_patterns)
}

/// Whether stage two looks up experience cases: the budget allows some and
/// the diagnosis names a cycle position.
pub fn experience_wanted(max_entries: usize, cycle_position: &str) -> (r: bool)
    ensures
        r == (max_entries > 0 && trim(cycle_position@).len() > 0),
{
    max_entries > 0 && !crate::text::is_blank(cycle_position)
}

/// One experience case as the prompt cites it: its bucket, its cycle
/// position, its lesson (when the case has one) and its recorded outcome
/// as JSON text.
#[derive(Debug)]
pub struct ExperienceCaseText {
    pub case_type: String,
    pub cycle_position: String,
    pub lesson: Option<String>,
    pub outcome_json: String,
}

/// The heading of the experience section.
pub open spec fn experience_heading() -> Seq<char> {
    "\n## 历史同类案例（由程序从已结算交易自动抽取，仅作结构参考；样本有限，不得当作实测胜率或收益承诺，也不得据此放宽任何阈值）\n"@
}

/// The line that cites one case.
pub open spec fn case_line(e: ExperienceCaseText) -> Seq<char> {
    let kind = if e.case_type@ == "success"@ {
        "成功"@
    } else {
        "失败"@
    };
    let lesson = match e.lesson {
        Some(l) => l@,
        None => "（无复盘说明）"@,
    };
    "- 【"@ + kind + "·"@ + e.cycle_position@ + "】"@ + lesson + " 程序记录结果："@ + e.outcome_json@ + "\n"@
}

/// The lines citing the cases, in order.
pub open spec fn case_lines(s: Seq<ExperienceCaseText>) -> Seq<char>
    decreases s.len(),
{
    if s.len() == 0 {
        Seq::empty()
    } else {
        case_lines(s.drop_last()) + case_line(s.last())
    }
}

/// The experience section of a stage-2 prompt: nothing without cases, else
/// the heading and one line per case, framed as reference material only.
pub open spec fn spec_experience_section(s: Seq<ExperienceCaseText>) -> Seq<char> {
    if s.len() == 0 {
        Seq::empty()
    } else {
        experience_heading() + case_lines(s)
    }
}

/// Renders the retrieved cases into the prompt.
pub fn render_experience_section(entries: &Vec<ExperienceCaseText>) -> (r: String)
    ensures
        r@ == spec_experience_section(entries@),
{
    if entries.len() == 0 {
        return String::new();
    }
    let mut out = String::from_str(
        "\n## 历史同类案例（由程序从已结算交易自动抽取，仅作结构参考；样本有限，不得当作实测胜率或收益承诺，也不得据此放宽任何阈值）\n",
    );
    let mut i: usize = 0;
    while i < entries.len()
        invariant
            0 <= i <= entries.len(),
            entries.len() > 0,
            out@ == experience_heading() + case_lines(entries@.take(i as int)),
        decreases entries.len() - i,
    {
        let e = &entries[i];
        let kind = if str_eq(e.case_type.as_str(), "success") {
            "成功"
        } else {
            "失败"
        };
        let lesson: &str = match &e.lesson {
            Some(l) => l.as_str(),
            None => "（无复盘说明）",
        };
        let ghost before = out@;
        append(&mut out, "- 【");
        append(&mut out, kind);
        append(&mut out, "·");
        append(&mut out, e.cycle_position.as_str());
        append(&mut out, "】");
        append(&mut out, lesson);
        append(&mut out, " 程序记录结果：");
        append(&mut out, e.outcome_json.as_str());
        append(&mut out, "\n");
        proof {
            assert(entries@.take(i + 1).drop_last() =~= entries@.take(i as int));
            assert(out@ =~= before + case_line(entries@[i as int]));
        }
        i += 1;
    }
    proof {
        assert(entries@.take(entries.len() as int) =~= entries@);
    }
    out
}

/// The prompt files a stage-2 prompt names: the strategy protocol, and the
/// experience bucket of the cycle position when cases were loaded.
pub fn stage2_files_used(cycle_position: &str, experiences_loaded: bool) -> (r: Vec<String>)
    ensures
        views(r@) == if experiences_loaded {
            seq!["strategy_v1.txt"@, "experience:"@ + cycle_position@]
        } else {
            seq!["strategy_v1.txt"@]
        },
{
    let mut files: Vec<String> = Vec::new();
    files.push(String::from_str("strategy_v1.txt"));
    if experiences_loaded {
        files.push(concat2("experience:", cycle_position));
    }
    proof {
        if experiences_loaded {
            assert(views(files@) =~= seq!["strategy_v1.txt"@, "experience:"@ + cycle_position@]);
        } else {
            assert(views(files@) =~= seq!["strategy_v1.txt"@]);
        }
    }
    files
}

// ---------------------------------------------------------------------------
// Strategy file routing.
// ---------------------------------------------------------------------------

/// The files every stage-2 prompt includes.
pub open spec fn base_files() -> Seq<Seq<char>> {
    seq!["逐棒分析检查单.txt"@, "文件16-K线信号识别.txt"@, "文件17-止损和止盈与仓位管理.txt"@, "文件23-MeasuredMove与结构目标.txt"@]
}

/// The whole strategy library.
pub open spec fn full_library_files() -> Seq<Seq<char>> {
    seq!["上涨通道分析识别.txt"@, "上涨通道交易策略.txt"@, "下跌通道分析识别.txt"@, "下跌通道交易策略.txt"@, "极速上涨分析识别.txt"@, "极速上涨交易策略.txt"@, "极速下跌分析识别.txt"@, "极速下跌交易策略.txt"@, "震荡区间分析识别.txt"@, "震荡区间交易策略.txt"@, "文件13-窄通道与宽通道策略.txt"@, "文件14-楔形形态分析交易.txt"@, "文件15-二次入场机会.txt"@, "文件18-突破失败与突破测试.txt"@, "文件19-H1H2-L1L2计数.txt"@, "文件20-AlwaysIn与20GB.txt"@, "文件21-铁丝网与无交易环境.txt"@, "文件22-信号失败后的磁力位.txt"@, "文件24-最终旗形与趋势末端.txt"@, "文件25-主要趋势反转MTR.txt"@, "文件27-三角形与收敛形态.txt"@, "文件28-双重顶底与微型结构.txt"@]
}

/// `s` with later repeats removed, among its first `n` entries.
pub open spec fn dedup(s: Seq<Seq<char>>, n: int) -> Seq<Seq<char>>
    decreases n,
{
    if n <= 0 {
        Seq::empty()
    } else {
        let d = dedup(s, n - 1);
        if d.contains(s[n - 1]) {
            d
        } else {
            d.push(s[n - 1])
        }
    }
}

/// `s` with later repeats removed.
pub open spec fn dedup_all(s: Seq<Seq<char>>) -> Seq<Seq<char>> {
    dedup(s, s.len() as int)
}

/// A channel of any width.
pub open spec fn is_channel(cp: Seq<char>) -> bool {
    cp == "micro_channel"@ || cp == "tight_channel"@ || cp == "normal_channel"@ || cp == "broad_channel"@
        || cp == "channel"@
}

/// A trading range.
pub open spec fn is_range(cp: Seq<char>) -> bool {
    cp == "trading_range"@ || cp == "trending_tr"@ || cp == "range"@
}

/// A spike.
pub open spec fn is_spike(cp: Seq<char>) -> bool {
    cp == "spike"@ || cp == "trend"@
}

/// A direction naming the bulls or a long side.
pub open spec fn bullish(dir: Seq<char>) -> bool {
    contains(dir, "bull"@) || contains(dir, "long"@)
}

/// A direction naming the bears or a short side.
pub open spec fn bearish(dir: Seq<char>) -> bool {
    contains(dir, "bear"@) || contains(dir, "short"@)
}

/// The files for the market cycle and the dominant direction.
pub open spec fn cycle_files(cp: Seq<char>, dir: Seq<char>) -> Seq<Seq<char>> {
    if is_channel(cp) {
        (if bullish(dir) {
            seq!["上涨通道分析识别.txt"@, "上涨通道交易策略.txt"@]
        } else if bearish(dir) {
            seq!["下跌通道分析识别.txt"@, "下跌通道交易策略.txt"@]
        } else {
            seq!["震荡区间分析识别.txt"@, "震荡区间交易策略.txt"@]
        }) + seq!["文件13-窄通道与宽通道策略.txt"@]
    } else if is_spike(cp) {
        if bullish(dir) {
            seq!["极速上涨分析识别.txt"@, "极速上涨交易策略.txt"@]
        } else if bearish(dir) {
            seq!["极速下跌分析识别.txt"@, "极速下跌交易策略.txt"@]
        } else {
            Seq::empty()
        }
    } else if is_range(cp) {
        seq!["震荡区间分析识别.txt"@, "震荡区间交易策略.txt"@]
    } else {
        Seq::empty()
    }
}

/// Whether some pattern contains `t`.
pub open spec fn any_contains(pats: Seq<Seq<char>>, t: Seq<char>) -> bool {
    exists|i: int| 0 <= i < pats.len() && contains(#[trigger] pats[i], t)
}

/// The files the detected patterns call for (patterns lowercased).
pub open spec fn overlay_files(channel: bool, range: bool, p: Seq<Seq<char>>) -> Seq<Seq<char>> {
    listed_if(p.contains("wedge"@), "文件14-楔形形态分析交易.txt"@) + listed_if(
        channel || p.contains("reversal_attempt"@) || p.contains("mtr"@) || p.contains("final_flag"@)
            || p.contains("h2"@) || p.contains("l2"@),
        "文件15-二次入场机会.txt"@,
    ) + listed_if(p.contains("mtr"@), "文件25-主要趋势反转MTR.txt"@) + listed_if(
        p.contains("final_flag"@),
        "文件24-最终旗形与趋势末端.txt"@,
    ) + listed_if(
        channel || p.contains("h1"@) || p.contains("h2"@) || p.contains("l1"@) || p.contains("l2"@),
        "文件19-H1H2-L1L2计数.txt"@,
    ) + listed_if(
        p.contains("breakout_failure"@) || p.contains("failed_breakout"@) || p.contains("breakout_test"@)
            || p.contains("breakout_pullback"@),
        "文件18-突破失败与突破测试.txt"@,
    ) + listed_if(
        p.contains("always_in"@) || p.contains("ail"@) || p.contains("ais"@) || p.contains("20gb"@)
            || p.contains("gap_bar"@),
        "文件20-AlwaysIn与20GB.txt"@,
    ) + listed_if(
        range || p.contains("barbwire"@) || p.contains("wire"@) || p.contains("overlap"@) || p.contains(
            "middle_range"@,
        ),
        "文件21-铁丝网与无交易环境.txt"@,
    ) + listed_if(
        p.contains("failed_signal"@) || p.contains("magnet"@) || p.contains("trapped_traders"@),
        "文件22-信号失败后的磁力位.txt"@,
    ) + listed_if(any_contains(p, "triangle"@), "文件27-三角形与收敛形态.txt"@) + listed_if(
        p.contains("double_top_bottom"@) || p.contains("double_top"@) || p.contains("double_bottom"@),
        "文件28-双重顶底与微型结构.txt"@,
    )
}

/// The patterns, each lowercased.
pub open spec fn lowered(p: Seq<Seq<char>>) -> Seq<Seq<char>> {
    p.map_values(|x: Seq<char>| unicode_lowercase(x))
}

/// The strategy files stage two loads: the whole library when asked for,
/// else the files for the diagnosed cycle, direction and patterns, then
/// the base files; each file once, in the order first listed.
pub open spec fn spec_route(
    cycle_position: Option<Seq<char>>,
    direction: Option<Seq<char>>,
    patterns: Seq<Seq<char>>,
    full: bool,
) -> Seq<Seq<char>> {
    if full {
        dedup_all(full_library_files() + base_files())
    } else {
        let cp = unicode_lowercase(
            trim(
                match cycle_position {
                    Some(c) => c,
                    None => "unknown"@,
                },
            ),
        );
        let dir = unicode_lowercase(
            trim(
                match direction {
                    Some(d) => d,
                    None => "neutral"@,
                },
            ),
        );
        let p = lowered(patterns);
        dedup_all(cycle_files(cp, dir) + overlay_files(is_channel(cp), is_range(cp), p) + base_files())
    }
}

/// Appends `f` to `v`.
fn push_file(v: &mut Vec<String>, f: &str)
    ensures
        views(final(v)@) == views(old(v)@).push(f@),
{
    v.push(owned(f));
    proof {
        assert(views(final(v)@) =~= views(old(v)@).push(f@));
    }
}

/// Appends `f` to `v` when `b` holds.
fn push_file_if(v: &mut Vec<String>, b: bool, f: &str)
    ensures
        views(final(v)@) == views(old(v)@) + listed_if(b, f@),
{
    if b {
        push_file(v, f);
        proof {
            assert(views(final(v)@) =~= views(old(v)@) + listed_if(b, f@));
        }
    } else {
        proof {
            assert(views(old(v)@) + listed_if(b, f@) =~= views(old(v)@));
        }
    }
}

/// Whether some string of `v` contains `t`.
fn any_str_contains(v: &Vec<String>, t: &str) -> (r: bool)
    ensures
        r == any_contains(views(v@), t@),
{
    let mut i: usize = 0;
    while i < v.len()
        invariant
            0 <= i <= v.len(),
            forall|k: int| 0 <= k < i ==> !contains(#[trigger] views(v@)[k], t@),
        decreases v.len() - i,
    {
        proof {
            assert(views(v@)[i as int] == v@[i as int]@);
        }
        if str_contains(v[i].as_str(), t) {
            return true;
        }
        i += 1;
    }
    false
}

/// `v` with later repeats removed.
pub fn dedup_strings(v: &Vec<String>) -> (r: Vec<String>)
    ensures
        views(r@) == dedup_all(views(v@)),
{
    let mut out: Vec<String> = Vec::new();
    let mut i: usize = 0;
    while i < v.len()
        invariant
            0 <= i <= v.len(),
            views(out@) == dedup(views(v@), i as int),
        decreases v.len() - i,
    {
        let f = v[i].as_str();
        proof {
            assert(views(v@)[i as int] == f@);
        }
        if !contains_str(&out, f) {
            push_file(&mut out, f);
        }
        i += 1;
    }
    out
}

/// Appends every string of `extra` to `v`.
fn push_files(v: &mut Vec<String>, extra: &Vec<String>)
    ensures
        views(final(v)@) == views(old(v)@) + views(extra@),
{
    let ghost start = views(v@);
    let mut i: usize = 0;
    while i < extra.len()
        invariant
            0 <= i <= extra.len(),
            views(v@) == start + views(extra@).take(i as int),
        decreases extra.len() - i,
    {
        push_file(v, extra[i].as_str());
        proof {
            assert(views(extra@).take(i + 1) =~= views(extra@).take(i as int).push(extra@[i as int]@));
        }
        i += 1;
    }
    proof {
        assert(views(extra@).take(extra.len() as int) =~= views(extra@));
    }
}

/// The base files, in order.
fn base_file_list() -> (r: Vec<String>)
    ensures
        views(r@) == base_files(),
{
    let mut v: Vec<String> = Vec::new();
    push_file(&mut v, "逐棒分析检查单.txt");
    push_file(&mut v, "文件16-K线信号识别.txt");
    push_file(&mut v, "文件17-止损和止盈与仓位管理.txt");
    push_file(&mut v, "文件23-MeasuredMove与结构目标.txt");
    proof {
        assert(views(v@) =~= base_files());
    }
    v
}

/// The strategy library, in order.
fn full_library_list() -> (r: Vec<String>)
    ensures
        views(r@) == full_library_files(),
{
    let mut v: Vec<String> = Vec::new();
    push_file(&mut v, "上涨通道分析识别.txt");
    push_file(&mut v, "上涨通道交易策略.txt");
    push_file(&mut v, "下跌通道分析识别.txt");
    push_file(&mut v, "下跌通道交易策略.txt");
    push_file(&mut v, "极速上涨分析识别.txt");
    push_file(&mut v, "极速上涨交易策略.txt");
    push_file(&mut v, "极速下跌分析识别.txt");
    push_file(&mut v, "极速下跌交易策略.txt");
    push_file(&mut v, "震荡区间分析识别.txt");
    push_file(&mut v, "震荡区间交易策略.txt");
    push_file(&mut v, "文件13-窄通道与宽通道策略.txt");
    push_file(&mut v, "文件14-楔形形态分析交易.txt");
    push_file(&mut v, "文件15-二次入场机会.txt");
    push_file(&mut v, "文件18-突破失败与突破测试.txt");
    push_file(&mut v, "文件19-H1H2-L1L2计数.txt");
    push_file(&mut v, "文件20-AlwaysIn与20GB.txt");
    push_file(&mut v, "文件21-铁丝网与无交易环境.txt");
    push_file(&mut v, "文件22-信号失败后的磁力位.txt");
    push_file(&mut v, "文件24-最终旗形与趋势末端.txt");
    push_file(&mut v, "文件25-主要趋势反转MTR.txt");
    push_file(&mut v, "文件27-三角形与收敛形态.txt");
    push_file(&mut v, "文件28-双重顶底与微型结构.txt");
    proof {
        assert(views(v@) =~= full_library_files());
    }
    v
}

/// Each string of `v`, lowercased.
fn lower_all(v: &Vec<String>) -> (r: Vec<String>)
    ensures
        views(r@) == lowered(views(v@)),
{
    let mut p: Vec<String> = Vec::new();
    let mut i: usize = 0;
    while i < v.len()
        invariant
            0 <= i <= v.len(),
            views(p@) == lowered(views(v@)).take(i as int),
        decreases v.len() - i,
    {
        let low = to_lowercase(v[i].as_str());
        let ghost before = views(p@);
        proof {
            assert(views(v@)[i as int] == v@[i as int]@);
            assert(lowered(views(v@))[i as int] == unicode_lowercase(views(v@)[i as int]));
        }
        p.push(low);
        proof {
            assert(views(p@) =~= before.push(low@));
            assert(lowered(views(v@)).take(i + 1) =~= lowered(views(v@)).take(i as int).push(
                lowered(views(v@))[i as int],
            ));
        }
        i += 1;
    }
    proof {
        assert(lowered(views(v@)).take(v.len() as int) =~= lowered(views(v@)));
    }
    p
}

/// The files for the market cycle and direction.
fn cycle_file_list(cp: &str, dir: &str) -> (r: Vec<String>)
    ensures
        views(r@) == cycle_files(cp@, dir@),
{
    let channel = str_eq(cp, "micro_channel") || str_eq(cp, "tight_channel") || str_eq(
        cp,
        "normal_channel",
    ) || str_eq(cp, "broad_channel") || str_eq(cp, "channel");
    let range = str_eq(cp, "trading_range") || str_eq(cp, "trending_tr") || str_eq(cp, "range");
    let spike = str_eq(cp, "spike") || str_eq(cp, "trend");
    let bull = str_contains(dir, "bull") || str_contains(dir, "long");
    let bear = str_contains(dir, "bear") || str_contains(dir, "short");
    let mut files: Vec<String> = Vec::new();
    if channel {
        if bull {
            push_file(&mut files, "上涨通道分析识别.txt");
            push_file(&mut files, "上涨通道交易策略.txt");
        } else if bear {
            push_file(&mut files, "下跌通道分析识别.txt");
            push_file(&mut files, "下跌通道交易策略.txt");
        } else {
            push_file(&mut files, "震荡区间分析识别.txt");
            push_file(&mut files, "震荡区间交易策略.txt");
        }
        push_file(&mut files, "文件13-窄通道与宽通道策略.txt");
    } else if spike {
        if bull {
            push_file(&mut files, "极速上涨分析识别.txt");
            push_file(&mut files, "极速上涨交易策略.txt");
        } else if bear {
            push_file(&mut files, "极速下跌分析识别.txt");
            push_file(&mut files, "极速下跌交易策略.txt");
        }
    } else if range {
        push_file(&mut files, "震荡区间分析识别.txt");
        push_file(&mut files, "震荡区间交易策略.txt");
    }
    proof {
        assert(views(files@) =~= cycle_files(cp@, dir@));
    }
    files
}

/// The files the (lowercased) patterns call for.
#[verifier::rlimit(40)]
fn overlay_file_list(channel: bool, range: bool, p: &Vec<String>) -> (r: Vec<String>)
    ensures
        views(r@) == overlay_files(channel, range, views(p@)),
{
    let wedge = contains_str(p, "wedge");
    let mtr = contains_str(p, "mtr");
    let final_flag = contains_str(p, "final_flag");
    let h1 = contains_str(p, "h1");
    let h2 = contains_str(p, "h2");
    let l1 = contains_str(p, "l1");
    let l2 = contains_str(p, "l2");
    let reversal_attempt = contains_str(p, "reversal_attempt");
    let breakout = contains_str(p, "breakout_failure") || contains_str(p, "failed_breakout")
        || contains_str(p, "breakout_test") || contains_str(p, "breakout_pullback");
    let always_in = contains_str(p, "always_in") || contains_str(p, "ail") || contains_str(p, "ais")
        || contains_str(p, "20gb") || contains_str(p, "gap_bar");
    let wire = range || contains_str(p, "barbwire") || contains_str(p, "wire") || contains_str(
        p,
        "overlap",
    ) || contains_str(p, "middle_range");
    let magnet = contains_str(p, "failed_signal") || contains_str(p, "magnet") || contains_str(
        p,
        "trapped_traders",
    );
    let triangle = any_str_contains(p, "triangle");
    let double = contains_str(p, "double_top_bottom") || contains_str(p, "double_top")
        || contains_str(p, "double_bottom");
    let mut files: Vec<String> = Vec::new();
    push_file_if(&mut files, wedge, "文件14-楔形形态分析交易.txt");
    push_file_if(&mut files, channel || reversal_attempt || mtr || final_flag || h2 || l2, "文件15-二次入场机会.txt");
    push_file_if(&mut files, mtr, "文件25-主要趋势反转MTR.txt");
    push_file_if(&mut files, final_flag, "文件24-最终旗形与趋势末端.txt");
    push_file_if(&mut files, channel || h1 || h2 || l1 || l2, "文件19-H1H2-L1L2计数.txt");
    push_file_if(&mut files, breakout, "文件18-突破失败与突破测试.txt");
    push_file_if(&mut files, always_in, "文件20-AlwaysIn与20GB.txt");
    push_file_if(&mut files, wire, "文件21-铁丝网与无交易环境.txt");
    push_file_if(&mut files, magnet, "文件22-信号失败后的磁力位.txt");
    push_file_if(&mut files, triangle, "文件27-三角形与收敛形态.txt");
    push_file_if(&mut files, double, "文件28-双重顶底与微型结构.txt");
    proof {
        assert(views(files@) =~= overlay_files(channel, range, views(p@)));
    }
    files
}

/// The strategy files stage two loads for a diagnosis: its cycle position
/// and direction (or dominant force), each when given, and its detected
/// patterns; or the whole library when `load_full_strategy_library` is set.
pub fn route_stage2_strategy_files(
    cycle_position: Option<&str>,
    direction: Option<&str>,
    patterns: &Vec<String>,
    load_full_strategy_library: bool,
) -> (r: Vec<String>)
    ensures
        views(r@) == spec_route(
            match cycle_position {
                Some(c) => Some(c@),
                None => None,
            },
            match direction {
                Some(d) => Some(d@),
                None => None,
            },
            views(patterns@),
            load_full_strategy_library,
        ),
{
    if load_full_strategy_library {
        let mut all = full_library_list();
        let base = base_file_list();
        push_files(&mut all, &base);
        return dedup_strings(&all);
    }
    let cp_t = trim_str(
        match cycle_position {
            Some(c) => c,
            None => "unknown",
        },
    );
    let cp_s = to_lowercase(cp_t.as_str());
    let dir_t = trim_str(
        match direction {
            Some(d) => d,
            None => "neutral",
        },
    );
    let dir_s = to_lowercase(dir_t.as_str());
    let p = lower_all(patterns);
    let cp = cp_s.as_str();
    let channel = str_eq(cp, "micro_channel") || str_eq(cp, "tight_channel") || str_eq(
        cp,
        "normal_channel",
    ) || str_eq(cp, "broad_channel") || str_eq(cp, "channel");
    let range = str_eq(cp, "trading_range") || str_eq(cp, "trending_tr") || str_eq(cp, "range");
    let mut files = cycle_file_list(cp, dir_s.as_str());
    let overlay = overlay_file_list(channel, range, &p);
    push_files(&mut files, &overlay);
    let base = base_file_list();
    push_files(&mut files, &base);
    dedup_strings(&files)
}

/// Removing repeats keeps every file once and drops none.
pub proof fn law_routing_lists_each_file_once(s: Seq<Seq<char>>, n: int)
    requires
        0 <= n <= s.len(),
    ensures
        dedup(s, n).no_duplicates(),
        forall|i: int| 0 <= i < n ==> dedup(s, n).contains(#[trigger] s[i]),
        forall|f: Seq<char>| dedup(s, n).contains(f) ==> exists|i: int| 0 <= i < n && #[trigger] s[i] == f,
    decreases n,
{
    if n > 0 {
        law_routing_lists_each_file_once(s, n - 1);
        let d = dedup(s, n - 1);
        if !d.contains(s[n - 1]) {
            let d2 = d.push(s[n - 1]);
            assert forall|i: int, j: int| 0 <= i < j < d2.len() implies d2[i] != d2[j] by {
                if j == d2.len() - 1 {
                    assert(d.contains(d2[i]) || i == j);
                }
            }
            assert forall|i: int| 0 <= i < n implies d2.contains(#[trigger] s[i]) by {
                if i < n - 1 {
                    let k = choose|k: int| 0 <= k < d.len() && d[k] == s[i];
                    assert(d2[k] == s[i]);
                } else {
                    assert(d2[d2.len() - 1] == s[i]);
                }
            }
            assert forall|f: Seq<char>| d2.contains(f) implies exists|i: int| 0 <= i < n && #[trigger] s[i] == f by {
                let k = choose|k: int| 0 <= k < d2.len() && d2[k] == f;
                if k < d.len() {
                    assert(d[k] == f);
                    assert(d.contains(f));
                } else {
                    assert(s[n - 1] == f);
                }
            }
        }
    }
}

/// Every stage-2 prompt includes the base files.
pub proof fn law_base_files_always_routed(
    cycle_position: Option<Seq<char>>,
    direction: Option<Seq<char>>,
    patterns: Seq<Seq<char>>,
    full: bool,
    k: int,
)
    requires
        0 <= k < base_files().len(),
    ensures
        spec_route(cycle_position, direction, patterns, full).contains(base_files()[k]),
{
    let cp = unicode_lowercase(
        trim(
            match cycle_position {
                Some(c) => c,
                None => "unknown"@,
            },
        ),
    );
    let dir = unicode_lowercase(
        trim(
            match direction {
                Some(d) => d,
                None => "neutral"@,
            },
        ),
    );
    let s = if full {
        full_library_files() + base_files()
    } else {
        cycle_files(cp, dir) + overlay_files(is_channel(cp), is_range(cp), lowered(patterns)) + base_files()
    };
    let off = s.len() - base_files().len();
    assert(s[off + k] == base_files()[k]);
    law_routing_lists_each_file_once(s, s.len() as int);
}

} // verus!
