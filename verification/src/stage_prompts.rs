//! The stage prompts as the model receives them, assembled from their
//! parts: the fixed rule blocks, the strategy texts, the stage-1 diagnosis
//! and the tables rendered from the bars.
//!
//! The tables themselves are rendered from floating-point bar data by the
//! caller; here they arrive as text and are placed, with every heading and
//! rule block, in the order the prompts fix.
use vstd::prelude::*;
use crate::labels::{canonical, spec_canonical};
use crate::prompts::{
    flat_section, position_section, render_experience_section, render_position_context_section,
    spec_experience_section, ExperienceCaseText, PositionText, LANGUAGE_ZH_RULE,
};
use crate::retry::{transcript, ChatMessage};
use crate::stance::{build_decision_stance_guidance, guidance_head, guidance_tail, stance_label_of};
use crate::text::{append, decimal, join, join_strs, owned, push_decimal, str_eq, views};

verus! {

broadcast use vstd::string::group_string_axioms;

/// The format of the stage-1 reply, with its gate rules.
pub const STAGE1_OUTPUT_REMINDER: &'static str = "请严格按照以下 JSON 格式输出诊断结果,不要输出任何其他内容。\n**硬约束：思考结束后，必须在 assistant 正文 `content` 输出下方完整阶段一 JSON；不得仅在思考区分析而让 `content` 为空。**\n**思考过程与 JSON 内所有说明性文字必须使用简体中文**（仅 JSON 键名与规定枚举除外）。\n禁止用 markdown 代码围栏（不要写 ```json 或结尾的 ```），只输出裸 JSON 对象。\n\n```json\n{\n  \"cycle_position\": \"spike|micro_channel|tight_channel|normal_channel|broad_channel|trending_tr|trading_range|extreme_tr|unknown\",\n  \"alternative_cycle_position\": null,\n  \"direction\": \"bullish|bearish|neutral\",\n  \"dominant_force\": \"bulls|bears|neutral\",\n  \"diagnosis_confidence\": 75,\n  \"spike_stage\": null,\n  \"climax_risk\": \"none|warning|triggered\",\n  \"market_phase\": \"stable|transitioning\",\n  \"transition_risk\": null,\n  \"detected_patterns\": [],\n  \"key_signals\": [],\n  \"htf_context\": \"\",\n  \"entry_setup\": \"\",\n  \"support_levels\": [],\n  \"resistance_levels\": [],\n  \"strategy_files_needed\": [\"下跌通道分析识别.txt\", \"下跌通道交易策略.txt\"],\n  \"risk_warning\": \"\",\n  \"bar_analysis\": {\n    \"always_in\": \"long|short|neutral\",\n    \"last_closed_bar\": \"K1\",\n    \"bar_type\": \"trend_bull|trend_bear|doji|inside|outside_bull|outside_bear|flat|other\",\n    \"signal_bar\": {\n      \"bar\": \"K2 或 null\",\n      \"quality\": \"strong|medium|weak|invalid\",\n      \"reason\": \"信号棒质量判断\"\n    },\n    \"entry_setup_type\": \"H1|H2|L1|L2|MTR|wedge|tr_boundary|breakout_pullback|none\",\n    \"follow_through\": \"yes|no|pending|failed\"\n  },\n  \"bar_by_bar_summary\": [\n    {\n      \"bar\": \"K1\",\n      \"role\": \"structure|signal|entry|confirmation|noise|trap|climax|test\",\n      \"bar_type\": \"trend_bull|trend_bear|doji|inside|outside_bull|outside_bear|flat|other\",\n      \"context_effect\": \"strengthens_bull|weakens_bull|strengthens_bear|weakens_bear|neutral\",\n      \"follow_through\": \"yes|no|pending|failed\",\n      \"trapped_side\": \"bulls|bears|both|none|unknown\",\n      \"reason\": \"一句话说明该K线对当前市场状态的增量影响\"\n    }\n  ],\n  \"gate_trace\": [\n    {\n      \"node_id\": \"1.2\",\n      \"question\": \"是否能识别出当前市场周期？\",\n      \"answer\": \"是\",\n      \"reason\": \"K线结构特征清晰\",\n      \"branch\": \"normal_channel\",\n      \"section\": \"K线识别\",\n      \"bar_range\": \"K12-K1\"\n    },\n    {\n      \"node_id\": \"2.1\",\n      \"question\": \"近期结构是否呈现明确惯性方向？\",\n      \"answer\": \"是\",\n      \"reason\": \"LH+LL 结构清晰\",\n      \"branch\": \"bearish\",\n      \"section\": \"方向判断\",\n      \"bar_range\": \"K8-K1\"\n    }\n  ],\n  \"gate_result\": \"proceed\"\n}\n```\n\n## 阶段一闸门（二元决策树 §1–§2，必须执行）\n当 gate_result=proceed 时，必须包含节点 1.2、1.3、2.1、2.2、2.5 共 5 条。\n§2.5 answer=否/中性 ≠ gate_result=wait。gate_result=wait 仅在 §1.2 unknown 或 §1.3 extreme_tr 时触发。";

/// The closing reminder of the stage-1 prompt.
pub const STAGE1_TAIL_REMINDER: &'static str = "【最后一步·必做】思考结束后，立即在 assistant 正文 `content` 输出完整阶段一裸 JSON。\n思考请用简体中文并尽量简洁；`content` 不得为空。\n禁止调用 exec/Python/写文件等工具。\n若 token 紧张：可缩短思考、将 bar_by_bar_summary 保持 5 根，但 gate_trace 与 gate_result 必须写在 JSON 末尾且不可省略。";

/// The rule that frames stage 2 as a single API request, not a chat turn.
pub const STAGE2_API_TASK_RULE: &'static str = "## 阶段二 API 任务模式（硬约束，非聊天）\n\n本次调用是 PA Agent **阶段二的一次独立 API 请求**。提示中虽含阶段一诊断 JSON，**不代表**阶段二已完成或可以收尾对话。\n\n**禁止**输出：\n- 「阶段一和阶段二都已输出完毕」「分析已完成」等会话总结\n- 「告诉我你想怎么处理」「请选择 1/2/3/4」等菜单式追问\n- Markdown 摘要、复盘建议、保存文件提示（除非写在 JSON 字段内）\n\n**必须**：在 assistant 正文 `content` 输出**完整阶段二裸 JSON**（仅此一种交付物）。";

/// The stage-2 output format: the JSON decision to return.
pub const STAGE2_OUTPUT_CONTRACT: &'static str = "请严格按照以下 JSON 格式输出决策结果，不要输出任何其他内容。\n**硬约束：思考结束后，必须在 assistant 正文 `content` 输出下方完整阶段二 JSON；不得仅在思考区分析而让 `content` 为空。**\n**思考过程与 JSON 内所有说明性文字必须使用简体中文**（仅 JSON 键名与规定枚举除外）。\n禁止用 markdown 代码围栏（不要写 ```json 或结尾的 ```），只输出裸 JSON 对象。\n重要规则：当 order_type 为“不下单”时，entry_price、take_profit_price、take_profit_price_2、stop_loss_price、order_direction 必须全部为 null。\n\n```json\n{\n  \"decision\": {\n    \"order_direction\": \"做多|做空|null\",\n    \"order_type\": \"限价单|突破单|市价单|不下单\",\n    \"entry_price\": null,\n    \"entry_basis_bar\": null,\n    \"entry_basis_extreme\": null,\n    \"entry_rule\": null,\n    \"take_profit_price\": null,\n    \"take_profit_price_2\": null,\n    \"stop_loss_price\": null,\n    \"reasoning\": \"\",\n    \"diagnosis_confidence\": 75,\n    \"trade_confidence\": 70,\n    \"estimated_win_rate\": null,\n    \"key_factors\": [],\n    \"watch_points\": [],\n    \"risk_assessment\": \"\",\n    \"invalidation_condition\": \"\"\n  },\n  \"diagnosis_summary\": {\n    \"cycle_position\": \"\",\n    \"direction\": \"\",\n    \"key_signals\": []\n  },\n  \"bar_analysis\": {\n    \"always_in\": \"long|short|neutral\",\n    \"last_closed_bar\": \"K1\",\n    \"bar_type\": \"trend_bull|trend_bear|doji|inside|outside_bull|outside_bear|flat|other\",\n    \"signal_bar\": {\n      \"bar\": \"K2 或 null\",\n      \"quality\": \"strong|medium|weak|invalid\",\n      \"pattern\": \"H1|H2|L1|L2|MTR|wedge|tr_boundary|breakout_pullback|none\",\n      \"reason\": \"信号棒质量判断\"\n    },\n    \"entry_bar\": {\n      \"strength\": \"strong|weak|not_triggered\",\n      \"follow_through\": true,\n      \"still_valid\": true,\n      \"freshness\": \"fresh|pending|stale|invalid\"\n    },\n    \"second_entry\": {\n      \"is_second_entry\": true,\n      \"type\": \"H2|L2|MTR|wedge|tr_boundary|trendline|none\"\n    }\n  },\n  \"decision_trace\": [\n    {\n      \"node_id\": \"4.1\",\n      \"section\": \"通道\",\n      \"question\": \"是否出现有序波段结构？\",\n      \"answer\": \"是\",\n      \"reason\": \"HH+HL\",\n      \"skipped\": false,\n      \"bar_range\": \"由你填写\"\n    }\n  ],\n  \"terminal\": {\n    \"node_id\": \"11.2\",\n    \"outcome\": \"trade\",\n    \"label\": \"...\"\n  }\n}\n```";

/// The closing reminder of the stage-2 prompt.
pub const STAGE2_TAIL_REMINDER: &'static str = "【最后一步·必做】思考结束后，立即在 assistant 正文 `content` 输出完整阶段二裸 JSON\n（含 decision、decision_trace、terminal）。思考用简体中文并尽量简洁；`content` 不得为空。\n禁止调用 exec/Python/写文件等工具；算术在 JSON 推理字段内完成。\n若 token 紧张，优先保证 `content` 有 JSON，可缩短思考。";

/// The text of an optional string.
pub open spec fn opt_text(o: Option<String>) -> Option<Seq<char>> {
    match o {
        Some(s) => Some(s@),
        None => None,
    }
}

/// The smaller of two numbers.
pub open spec fn min_nat(a: nat, b: nat) -> nat {
    if a < b {
        a
    } else {
        b
    }
}

/// The background layer of the stage-1 window rules: with more than 40
/// bars the older part (K{n} back to K41) is background; with fewer it
/// overlaps the recent window.
pub open spec fn background_window(n: nat) -> Seq<char> {
    if n > 40 {
        "**长程背景 K"@ + decimal(n) + "–K41**（较老部分）：\n- swing 高低点、磁力位参考 → 写入 htf_context；背景方向\n- **禁止**用背景方向否决近期 direction；冲突时近期为主、背景作风险参考\n\n"@
    } else {
        "**长程背景**（当前仅 "@ + decimal(n) + " 根，不足 41 根，与近期窗口重叠）：\n\n"@
    }
}

/// Appends the background layer for `n` bars.
fn push_background_window(s: &mut String, n: usize)
    ensures
        final(s)@ == old(s)@ + background_window(n as nat),
{
    if n > 40 {
        append(s, "**长程背景 K");
        push_decimal(s, n as u64);
        append(s, "–K41**（较老部分）：\n- swing 高低点、磁力位参考 → 写入 htf_context；背景方向\n- **禁止**用背景方向否决近期 direction；冲突时近期为主、背景作风险参考\n\n");
    } else {
        append(s, "**长程背景**（当前仅 ");
        push_decimal(s, n as u64);
        append(s, " 根，不足 41 根，与近期窗口重叠）：\n\n");
    }
}

/// The higher-timeframe block: a heading and the context, or nothing.
pub open spec fn htf_block(htf: Option<Seq<char>>) -> Seq<char> {
    match htf {
        Some(h) => "## 高时间框架背景上下文\n"@ + h + "\n\n"@,
        None => Seq::empty(),
    }
}

/// Appends the higher-timeframe block.
fn push_htf_block(s: &mut String, htf: &Option<String>)
    ensures
        final(s)@ == old(s)@ + htf_block(opt_text(*htf)),
{
    match htf {
        Some(h) => {
            append(s, "## 高时间框架背景上下文\n");
            append(s, h.as_str());
            append(s, "\n\n");
        },
        None => {
            proof {
                assert(old(s)@ + Seq::<char>::empty() =~= old(s)@);
            }
        },
    }
}

/// Appends the decimal text of `n`.
fn push_count(s: &mut String, n: usize)
    ensures
        final(s)@ == old(s)@ + decimal(n as nat),
{
    push_decimal(s, n as u64);
}

/// What the stage-1 user prompt of the source 2PA pipeline is made of.
pub struct Stage1Inputs {
    /// The market-diagnosis framework text.
    pub diag_framework: String,
    /// The bar-signal recognition text.
    pub bar_signals: String,
    pub symbol: String,
    pub timeframe: String,
    /// The number of closed bars shown.
    pub bar_count: usize,
    /// The higher-timeframe context, when there is one.
    pub htf_context: Option<String>,
    /// The bar table.
    pub kline_table: String,
    /// The bar geometry table.
    pub geometry_table: String,
    /// The market-features block.
    pub features_block: String,
}

/// The stage-1 user prompt: the task, the framework and signal texts, the
/// output format, the target and its bar count, the layered window rules
/// (recent structure over the last 40 bars, momentum over 8, signals over
/// 10), the higher-timeframe block, the tables and the closing reminder.
pub open spec fn spec_stage1_user_prompt(s: Stage1Inputs) -> Seq<char> {
        "## 阶段一任务\n\n你现在只执行阶段一：市场诊断与闸门判断。不要评估具体下单、止损、止盈或仓位。\n\n"@ + s.diag_framework@
        + "\n\n---\n\n"@ + s.bar_signals@ + "\n\n---\n\n"@ + STAGE1_OUTPUT_REMINDER@
        + "\n\n---\n\n## 当前分析目标\n品种: "@ + s.symbol@ + " 周期: "@ + s.timeframe@ + " K线数量: "@
        + decimal(s.bar_count as nat) + "\n（K线序号：1=最新已收盘，最大 K"@ + decimal(s.bar_count as nat)
        + "；每个决策节点的 bar_range 由你自行选择子区间，勿超出 K"@ + decimal(s.bar_count as nat)
        + "-K1）\n\n## ⚠️ 分析窗口分层规则（必须遵守）\n"@ + background_window(s.bar_count as nat) + "**近期结构 K"@
        + decimal(min_nat(s.bar_count as nat, 40))
        + "–K1：**\n- cycle_position、direction、通道/区间/波段主结构\n\n**即时惯性 K"@
        + decimal(min_nat(s.bar_count as nat, 8))
        + "–K1：**\n- Always In、惯性强度、近端 spike_stage / 尖峰识别\n\n**即时信号 K"@
        + decimal(min_nat(s.bar_count as nat, 10))
        + "–K1：**\n- 信号棒/入场棒/二次入场/突破失败（阶段二 §9 裁定窗口）\n\n**逐棒摘要 K5–K1：**\n- bar_by_bar_summary **必须**恰好 5 条（窗口>=5 根时），每条 1 句 reason\n\n"@
        + htf_block(opt_text(s.htf_context)) + "## K线数据(序号1=最新已收盘K线,序号越大越早;不含当前未收盘K线)\n\n"@
        + s.kline_table@ + "\n\n## K线几何特征(程序预计算，类型包含 inside/outside/doji/trend/flat/other)\n\n"@
        + s.geometry_table@ + "\n\n"@ + s.features_block@ + "\n\n请根据以上数据，严格输出阶段一 JSON 诊断结果。\n\n"@
        + STAGE1_TAIL_REMINDER@
}

/// Builds the stage-1 user prompt of the source 2PA pipeline.
pub fn build_source_2pa_stage1_user_prompt(s_in: &Stage1Inputs) -> (r: String)
    ensures
        r@ == spec_stage1_user_prompt(*s_in),
{
    let n = s_in.bar_count;
    let mut s = String::new();
    append(&mut s, "## 阶段一任务\n\n你现在只执行阶段一：市场诊断与闸门判断。不要评估具体下单、止损、止盈或仓位。\n\n");
    append(&mut s, s_in.diag_framework.as_str());
    append(&mut s, "\n\n---\n\n");
    append(&mut s, s_in.bar_signals.as_str());
    append(&mut s, "\n\n---\n\n");
    append(&mut s, STAGE1_OUTPUT_REMINDER);
    append(&mut s, "\n\n---\n\n## 当前分析目标\n品种: ");
    append(&mut s, s_in.symbol.as_str());
    append(&mut s, " 周期: ");
    append(&mut s, s_in.timeframe.as_str());
    append(&mut s, " K线数量: ");
    push_count(&mut s, n);
    append(&mut s, "\n（K线序号：1=最新已收盘，最大 K");
    push_count(&mut s, n);
    append(&mut s, "；每个决策节点的 bar_range 由你自行选择子区间，勿超出 K");
    push_count(&mut s, n);
    append(&mut s, "-K1）\n\n## ⚠️ 分析窗口分层规则（必须遵守）\n");
    push_background_window(&mut s, n);
    append(&mut s, "**近期结构 K");
    push_count(&mut s, if n < 40 { n } else { 40 });
    append(&mut s, "–K1：**\n- cycle_position、direction、通道/区间/波段主结构\n\n**即时惯性 K");
    push_count(&mut s, if n < 8 { n } else { 8 });
    append(&mut s, "–K1：**\n- Always In、惯性强度、近端 spike_stage / 尖峰识别\n\n**即时信号 K");
    push_count(&mut s, if n < 10 { n } else { 10 });
    append(&mut s, "–K1：**\n- 信号棒/入场棒/二次入场/突破失败（阶段二 §9 裁定窗口）\n\n**逐棒摘要 K5–K1：**\n- bar_by_bar_summary **必须**恰好 5 条（窗口>=5 根时），每条 1 句 reason\n\n");
    push_htf_block(&mut s, &s_in.htf_context);
    append(&mut s, "## K线数据(序号1=最新已收盘K线,序号越大越早;不含当前未收盘K线)\n\n");
    append(&mut s, s_in.kline_table.as_str());
    append(&mut s, "\n\n## K线几何特征(程序预计算，类型包含 inside/outside/doji/trend/flat/other)\n\n");
    append(&mut s, s_in.geometry_table.as_str());
    append(&mut s, "\n\n");
    append(&mut s, s_in.features_block.as_str());
    append(&mut s, "\n\n请根据以上数据，严格输出阶段一 JSON 诊断结果。\n\n");
    append(&mut s, STAGE1_TAIL_REMINDER);
    s
}

/// A one-message prompt: the system prompt, a separator line and the user
/// prompt.
pub open spec fn spec_full_prompt(system: Seq<char>, user: Seq<char>) -> Seq<char> {
    system + "\n\n====================\n\n"@ + user
}

/// Joins the system and user prompts of the source 2PA pipeline into one
/// prompt, for either stage.
pub fn build_source_2pa_prompt(system: &str, user: &str) -> (r: String)
    ensures
        r@ == spec_full_prompt(system@, user@),
{
    let mut s = owned(system);
    append(&mut s, "\n\n====================\n\n");
    append(&mut s, user);
    s
}

/// The two messages of a source 2PA call: the system prompt, then the user
/// prompt.
pub fn build_source_2pa_messages(system: String, user: String) -> (r: Vec<ChatMessage>)
    ensures
        transcript(r@) == seq![("system"@, system@), ("user"@, user@)],
{
    let mut v: Vec<ChatMessage> = Vec::new();
    v.push(ChatMessage { role: owned("system"), content: system });
    v.push(ChatMessage { role: owned("user"), content: user });
    proof {
        assert(transcript(v@) =~= seq![("system"@, system@), ("user"@, user@)]);
    }
    v
}

/// One handbook of the strategy context: its file name as a heading, then
/// its text.
pub open spec fn handbook_entry(file: Seq<char>, content: Seq<char>) -> Seq<char> {
    "### 【策略手册】"@ + file + "\n"@ + content
}

/// The handbook entries of the files whose text is not empty, in order.
pub open spec fn handbook_entries(files: Seq<Seq<char>>, contents: Seq<Seq<char>>) -> Seq<Seq<char>>
    decreases files.len(),
{
    if files.len() == 0 {
        Seq::empty()
    } else {
        let rest = handbook_entries(files.drop_last(), contents.take(files.len() - 1));
        if contents[files.len() - 1].len() == 0 {
            rest
        } else {
            rest.push(handbook_entry(files.last(), contents[files.len() - 1]))
        }
    }
}

/// The strategy context of a stage-2 prompt: the handbooks that have text,
/// separated by rules.
pub open spec fn spec_strategy_context(files: Seq<Seq<char>>, contents: Seq<Seq<char>>) -> Seq<char> {
    join(handbook_entries(files, contents), "\n\n---\n\n"@)
}

/// Lays out the routed strategy handbooks; `contents[i]` is the text of
/// `files[i]`, empty when the file could not be read.
pub fn strategy_context(files: &Vec<String>, contents: &Vec<String>) -> (r: String)
    requires
        files.len() == contents.len(),
    ensures
        r@ == spec_strategy_context(views(files@), views(contents@)),
{
    let mut entries: Vec<String> = Vec::new();
    let mut i: usize = 0;
    while i < files.len()
        invariant
            0 <= i <= files.len(),
            files.len() == contents.len(),
            views(entries@) == handbook_entries(views(files@).take(i as int), views(contents@).take(i as int)),
        decreases files.len() - i,
    {
        proof {
            let f = views(files@).take(i + 1);
            let c = views(contents@).take(i + 1);
            assert(f.drop_last() =~= views(files@).take(i as int));
            assert(c.take(i as int) =~= views(contents@).take(i as int));
            assert(f.last() == files@[i as int]@);
            assert(c[i as int] == contents@[i as int]@);
        }
        if !contents[i].as_str().is_empty() {
            let mut e = owned("### 【策略手册】");
            append(&mut e, files[i].as_str());
            append(&mut e, "\n");
            append(&mut e, contents[i].as_str());
            entries.push(e);
            proof {
                assert(views(entries@) =~= views(entries@.drop_last()).push(entries@.last()@));
            }
        }
        i += 1;
    }
    proof {
        assert(views(files@).take(files.len() as int) =~= views(files@));
        assert(views(contents@).take(files.len() as int) =~= views(contents@));
    }
    join_strs(&entries, "\n\n---\n\n")
}

/// The hint on how to price a breakout order, with the tick the program
/// assumes.
pub open spec fn breakout_hint() -> Seq<char> {
    "**突破单定价（程序推断最小跳动 ≈ 0.01）**：做多时 entry_price 必须严格大于 entry_basis_bar 的 high（推荐 high + 0.01）；做空时 entry_price 必须严格低于 low（推荐 low - 0.01）。entry_rule 必须写明基准 K 线序号与极点价格。"@
}

/// The breakout pricing hint of the stage-2 prompt.
pub fn format_breakout_tick_hint() -> (r: String)
    ensures
        r@ == breakout_hint(),
{
    owned("**突破单定价（程序推断最小跳动 ≈ 0.01）**：做多时 entry_price 必须严格大于 entry_basis_bar 的 high（推荐 high + 0.01）；做空时 entry_price 必须严格低于 low（推荐 low - 0.01）。entry_rule 必须写明基准 K 线序号与极点价格。")
}

/// The position section for an optional position.
pub open spec fn position_context_text(p: Option<PositionText>) -> Seq<char> {
    match p {
        Some(p) => if p.has_position {
            position_section(p)
        } else {
            flat_section()
        },
        None => flat_section(),
    }
}

/// What the stage-2 user prompt of the source 2PA pipeline is made of.
pub struct Stage2Inputs {
    /// The decision stance as configured.
    pub decision_stance: String,
    /// The open position, when known.
    pub position: Option<PositionText>,
    /// The routed strategy files.
    pub strategy_files: Vec<String>,
    /// The text of each routed file, empty where it could not be read.
    pub strategy_contents: Vec<String>,
    /// The validated stage-1 diagnosis, pretty-printed.
    pub stage1_json: String,
    /// The higher-timeframe context, when there is one.
    pub htf_context: Option<String>,
    /// The number of closed bars shown.
    pub bar_count: usize,
    pub kline_table: String,
    pub geometry_table: String,
    pub features_block: String,
    /// The retrieved past cases.
    pub experiences: Vec<ExperienceCaseText>,
}

/// The stage-2 user prompt: the API task rule, the stance, the position,
/// the strategy handbooks and the output format, the diagnosis, the
/// higher-timeframe block, the tables, the breakout hint, the past cases
/// and the closing reminder.
pub open spec fn spec_stage2_user_prompt(s: Stage2Inputs) -> Seq<char> {
        STAGE2_API_TASK_RULE@
        + "\n\n## 阶段二任务\n\n你现在独立执行阶段二：交易决策、风险收益和下单方式评估（基于阶段一诊断结果）。\n以下 JSON 是程序校验通过后的阶段一诊断结果，请以此为权威依据；本消息下方附有完整 K 线表与几何特征。\n\n"@
        + guidance_head() + stance_label_of(s.decision_stance@) + guidance_tail() + "\n\n---\n\n"@
        + position_context_text(s.position) + "\n\n---\n\n"@
        + spec_strategy_context(views(s.strategy_files@), views(s.strategy_contents@))
        + "\n\n---\n\n"@ + STAGE2_OUTPUT_CONTRACT@ + "\n\n---\n\n## 阶段一诊断结果\n\n```json\n"@
        + s.stage1_json@ + "\n```\n\n"@ + htf_block(opt_text(s.htf_context)) + "## K线数据(共"@
        + decimal(s.bar_count as nat) + "根，序号1=最新已收盘)\n\n"@ + s.kline_table@
        + "\n\n## K线几何特征(程序预计算，仅作逐棒客观辅助)\n\n"@ + s.geometry_table@ + "\n\n"@ + s.features_block@
        + "\n\n"@ + breakout_hint() + "\n\n"@ + spec_experience_section(s.experiences@)
        + "\n\n请根据以上诊断和K线数据,按《二元决策.txt》§3–§11、§14 输出 JSON 决策结果。\n注意:如果判断不下单,entry_price、take_profit_price、take_profit_price_2、stop_loss_price、order_direction 必须全部为 null。\n\n"@
        + STAGE2_TAIL_REMINDER@
}

/// Builds the stage-2 user prompt of the source 2PA pipeline.
pub fn build_source_2pa_stage2_user_prompt(s_in: &Stage2Inputs) -> (r: String)
    requires
        s_in.strategy_files.len() == s_in.strategy_contents.len(),
    ensures
        r@ == spec_stage2_user_prompt(*s_in),
{
    let mut s = String::new();
    append(&mut s, STAGE2_API_TASK_RULE);
    append(&mut s, "\n\n## 阶段二任务\n\n你现在独立执行阶段二：交易决策、风险收益和下单方式评估（基于阶段一诊断结果）。\n以下 JSON 是程序校验通过后的阶段一诊断结果，请以此为权威依据；本消息下方附有完整 K 线表与几何特征。\n\n");
    let g = build_decision_stance_guidance(s_in.decision_stance.as_str());
    append(&mut s, g.as_str());
    append(&mut s, "\n\n---\n\n");
    let p = match &s_in.position { Some(p) => render_position_context_section(Some(p)), None => render_position_context_section(None) };
    append(&mut s, p.as_str());
    append(&mut s, "\n\n---\n\n");
    let sc = strategy_context(&s_in.strategy_files, &s_in.strategy_contents);
    append(&mut s, sc.as_str());
    append(&mut s, "\n\n---\n\n");
    append(&mut s, STAGE2_OUTPUT_CONTRACT);
    append(&mut s, "\n\n---\n\n## 阶段一诊断结果\n\n```json\n");
    append(&mut s, s_in.stage1_json.as_str());
    append(&mut s, "\n```\n\n");
    push_htf_block(&mut s, &s_in.htf_context);
    append(&mut s, "## K线数据(共");
    push_count(&mut s, s_in.bar_count);
    append(&mut s, "根，序号1=最新已收盘)\n\n");
    append(&mut s, s_in.kline_table.as_str());
    append(&mut s, "\n\n## K线几何特征(程序预计算，仅作逐棒客观辅助)\n\n");
    append(&mut s, s_in.geometry_table.as_str());
    append(&mut s, "\n\n");
    append(&mut s, s_in.features_block.as_str());
    append(&mut s, "\n\n");
    let b = format_breakout_tick_hint();
    append(&mut s, b.as_str());
    append(&mut s, "\n\n");
    let x = render_experience_section(&s_in.experiences);
    append(&mut s, x.as_str());
    append(&mut s, "\n\n请根据以上诊断和K线数据,按《二元决策.txt》§3–§11、§14 输出 JSON 决策结果。\n注意:如果判断不下单,entry_price、take_profit_price、take_profit_price_2、stop_loss_price、order_direction 必须全部为 null。\n\n");
    append(&mut s, STAGE2_TAIL_REMINDER);
    s
}

/// The indicator tables rendered for a prompt: the bar table, the
/// deviation table and the geometry table.
pub struct IndicatorTables {
    pub kline_table: String,
    pub deviation_table: String,
    pub geometry_table: String,
}

/// The canonical id of a system, or `fallback` when it has none.
pub open spec fn canonical_or(system: Seq<char>, fallback: Seq<char>) -> Seq<char> {
    match spec_canonical(system) {
        Some(c) => c,
        None => fallback,
    }
}

/// The indicator section a system reads: the deviation table for dog
/// walking, the bar and deviation tables for the adaptive system, and the
/// bar and geometry tables for price action.
pub open spec fn spec_indicators_for_system(system: Seq<char>, t: IndicatorTables) -> Seq<char> {
    let canon = canonical_or(system, "2pa_trend"@);
    if canon == "dog_reversion"@ {
        t.deviation_table@
    } else if canon == "adaptive"@ {
        t.kline_table@ + "\n\n"@ + t.deviation_table@
    } else {
        t.kline_table@ + "\n\n#### 📐 近端 K 线微观几何特征明细 (实体比/影线比/收盘位置)\n"@ + t.geometry_table@
    }
}

/// The canonical id of `system`, or `fallback`.
fn canonical_or_else(system: &str, fallback: &'static str) -> (r: &'static str)
    ensures
        r@ == canonical_or(system@, fallback@),
{
    match canonical(system) {
        Some(c) => c,
        None => fallback,
    }
}

/// Picks and lays out the indicator tables of `system`.
pub fn render_indicators_for_system(system: &str, t: &IndicatorTables) -> (r: String)
    ensures
        r@ == spec_indicators_for_system(system@, *t),
{
    let canon = canonical_or_else(system, "2pa_trend");
    if str_eq(canon, "dog_reversion") {
        owned(t.deviation_table.as_str())
    } else if str_eq(canon, "adaptive") {
        let mut s = owned(t.kline_table.as_str());
        append(&mut s, "\n\n");
        append(&mut s, t.deviation_table.as_str());
        s
    } else {
        let mut s = owned(t.kline_table.as_str());
        append(&mut s, "\n\n#### 📐 近端 K 线微观几何特征明细 (实体比/影线比/收盘位置)\n");
        append(&mut s, t.geometry_table.as_str());
        s
    }
}

/// Whether `system` runs the source 2PA pipeline, whose prompts are built
/// from the handbook files rather than from one strategy text.
pub fn uses_source_pipeline(system: &str) -> (r: bool)
    ensures
        r == (canonical_or(system@, system@) == "2pa_source"@),
{
    match canonical(system) {
        Some(c) => str_eq(c, "2pa_source"),
        None => str_eq(system, "2pa_source"),
    }
}

/// The higher-timeframe text of a one-strategy prompt, or the note that it
/// is missing.
pub open spec fn htf_or_missing(htf: Option<Seq<char>>) -> Seq<char> {
    match htf {
        Some(h) => h,
        None => "高周期数据缺失"@,
    }
}

/// Appends the higher-timeframe text or the missing note.
fn push_htf_or_missing(s: &mut String, htf: &Option<String>)
    ensures
        final(s)@ == old(s)@ + htf_or_missing(opt_text(*htf)),
{
    match htf {
        Some(h) => append(s, h.as_str()),
        None => append(s, "高周期数据缺失"),
    }
}

/// What the stage-1 prompt of a one-strategy system is made of.
pub struct StrategyStage1Inputs {
    pub system: String,
    /// The resolved strategy text.
    pub strategy_prompt: String,
    /// The indicator section of the system.
    pub indicators: String,
    pub htf_context: Option<String>,
}

/// The stage-1 prompt of a one-strategy system: the language rule, the
/// strategy, its canonical id, the indicators and the higher timeframe.
pub open spec fn spec_stage1_prompt_for_system(s: StrategyStage1Inputs) -> Seq<char> {
        LANGUAGE_ZH_RULE@ + "\n"@ + s.strategy_prompt@ + "\n策略："@
        + canonical_or(s.system@, "unknown"@) + "\n"@ + s.indicators@ + "\n高时间框架："@
        + htf_or_missing(opt_text(s.htf_context)) + "\n阶段一：仅输出市场诊断 JSON。"@
}

/// Builds the stage-1 prompt of a one-strategy system.
pub fn build_stage1_prompt_for_system(s_in: &StrategyStage1Inputs) -> (r: String)
    ensures
        r@ == spec_stage1_prompt_for_system(*s_in),
{
    let mut s = String::new();
    append(&mut s, LANGUAGE_ZH_RULE);
    append(&mut s, "\n");
    append(&mut s, s_in.strategy_prompt.as_str());
    append(&mut s, "\n策略：");
    let cn = canonical_or_else(s_in.system.as_str(), "unknown");
    append(&mut s, cn);
    append(&mut s, "\n");
    append(&mut s, s_in.indicators.as_str());
    append(&mut s, "\n高时间框架：");
    push_htf_or_missing(&mut s, &s_in.htf_context);
    append(&mut s, "\n阶段一：仅输出市场诊断 JSON。");
    s
}

/// What the stage-2 prompt of a one-strategy system is made of.
pub struct StrategyStage2Inputs {
    pub system: String,
    /// The resolved strategy text.
    pub strategy_prompt: String,
    pub decision_stance: String,
    /// The stage-1 diagnosis as compact JSON.
    pub stage1_json: String,
    /// The position context as compact JSON (`null` when unknown).
    pub position_json: String,
    /// The indicator section of the system.
    pub indicators: String,
    pub htf_context: Option<String>,
    /// The retrieved past cases.
    pub experiences: Vec<ExperienceCaseText>,
}

/// The stage-2 prompt of a one-strategy system: the language rule, the
/// strategy and its id, the stance, the diagnosis, the position, the
/// indicators, the higher timeframe and the past cases.
pub open spec fn spec_stage2_prompt_with_strategy(s: StrategyStage2Inputs) -> Seq<char> {
        LANGUAGE_ZH_RULE@ + "\n"@ + s.strategy_prompt@ + "\n策略："@
        + canonical_or(s.system@, "unknown"@) + "\n"@
        + guidance_head() + stance_label_of(s.decision_stance@) + guidance_tail() + "\n阶段一："@
        + s.stage1_json@ + "\n持仓："@ + s.position_json@ + "\n"@ + s.indicators@ + "\n"@
        + htf_or_missing(opt_text(s.htf_context)) + "\n"@ + spec_experience_section(s.experiences@)
        + "\n阶段二：仅输出交易决策 JSON。"@
}

/// Builds the stage-2 prompt of a one-strategy system.
pub fn build_stage2_prompt_with_strategy(s_in: &StrategyStage2Inputs) -> (r: String)
    ensures
        r@ == spec_stage2_prompt_with_strategy(*s_in),
{
    let mut s = String::new();
    append(&mut s, LANGUAGE_ZH_RULE);
    append(&mut s, "\n");
    append(&mut s, s_in.strategy_prompt.as_str());
    append(&mut s, "\n策略：");
    let cn = canonical_or_else(s_in.system.as_str(), "unknown");
    append(&mut s, cn);
    append(&mut s, "\n");
    let g = build_decision_stance_guidance(s_in.decision_stance.as_str());
    append(&mut s, g.as_str());
    append(&mut s, "\n阶段一：");
    append(&mut s, s_in.stage1_json.as_str());
    append(&mut s, "\n持仓：");
    append(&mut s, s_in.position_json.as_str());
    append(&mut s, "\n");
    append(&mut s, s_in.indicators.as_str());
    append(&mut s, "\n");
    push_htf_or_missing(&mut s, &s_in.htf_context);
    append(&mut s, "\n");
    let x = render_experience_section(&s_in.experiences);
    append(&mut s, x.as_str());
    append(&mut s, "\n阶段二：仅输出交易决策 JSON。");
    s
}

} // verus!
