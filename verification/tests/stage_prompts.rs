use okx_pa_agent::prompts::{
    build_source_2pa_system_prompt, render_experience_section, route_stage2_strategy_files, stage2_files_used, ExperienceCaseText,
    LANGUAGE_ZH_RULE,
};
use okx_pa_agent::stage_prompts::{
    build_source_2pa_messages, build_source_2pa_prompt, build_source_2pa_stage1_user_prompt,
    build_source_2pa_stage2_user_prompt, build_stage1_prompt_for_system, build_stage2_prompt_with_strategy,
    format_breakout_tick_hint, render_indicators_for_system, strategy_context, uses_source_pipeline,
    IndicatorTables, Stage1Inputs, Stage2Inputs, StrategyStage1Inputs, StrategyStage2Inputs,
    STAGE1_OUTPUT_REMINDER, STAGE1_TAIL_REMINDER, STAGE2_API_TASK_RULE, STAGE2_OUTPUT_CONTRACT,
    STAGE2_TAIL_REMINDER,
};
use okx_pa_agent::prompts::render_position_context_section;
use okx_pa_agent::stance::build_decision_stance_guidance;

fn stage1_inputs(n: usize, htf: Option<&str>) -> Stage1Inputs {
    Stage1Inputs {
        diag_framework: "诊断框架正文".to_string(),
        bar_signals: "信号识别正文".to_string(),
        symbol: "BTC-USDT-SWAP".to_string(),
        timeframe: "15m".to_string(),
        bar_count: n,
        htf_context: htf.map(|h| h.to_string()),
        kline_table: "| K1 | 1 |".to_string(),
        geometry_table: "| K1 | doji |".to_string(),
        features_block: "特征".to_string(),
    }
}

fn expected_stage1(s: &Stage1Inputs) -> String {
    let n_bars = s.bar_count;
    let bg_window = if n_bars > 40 {
        format!("**长程背景 K{}–K41**（较老部分）：\n- swing 高低点、磁力位参考 → 写入 htf_context；背景方向\n- **禁止**用背景方向否决近期 direction；冲突时近期为主、背景作风险参考\n\n", n_bars)
    } else {
        format!("**长程背景**（当前仅 {} 根，不足 41 根，与近期窗口重叠）：\n\n", n_bars)
    };
    let htf_block = match &s.htf_context {
        Some(htf) => format!("## 高时间框架背景上下文\n{}\n\n", htf),
        None => String::new(),
    };
    format!(
        "## 阶段一任务\n\n\
         你现在只执行阶段一：市场诊断与闸门判断。不要评估具体下单、止损、止盈或仓位。\n\n\
         {}\n\n---\n\n{}\n\n---\n\n\
         {}\n\n---\n\n\
         ## 当前分析目标\n\
         品种: {} 周期: {} K线数量: {}\n\
         （K线序号：1=最新已收盘，最大 K{}；每个决策节点的 bar_range 由你自行选择子区间，勿超出 K{}-K1）\n\n\
         ## ⚠️ 分析窗口分层规则（必须遵守）\n\
         {}\
         **近期结构 K{}–K1：**\n\
         - cycle_position、direction、通道/区间/波段主结构\n\n\
         **即时惯性 K{}–K1：**\n\
         - Always In、惯性强度、近端 spike_stage / 尖峰识别\n\n\
         **即时信号 K{}–K1：**\n\
         - 信号棒/入场棒/二次入场/突破失败（阶段二 §9 裁定窗口）\n\n\
         **逐棒摘要 K5–K1：**\n\
         - bar_by_bar_summary **必须**恰好 5 条（窗口>=5 根时），每条 1 句 reason\n\n\
         {}\
         ## K线数据(序号1=最新已收盘K线,序号越大越早;不含当前未收盘K线)\n\n\
         {}\n\n\
         ## K线几何特征(程序预计算，类型包含 inside/outside/doji/trend/flat/other)\n\n\
         {}\n\n\
         {}\n\n\
         请根据以上数据，严格输出阶段一 JSON 诊断结果。\n\n\
         {}",
        s.diag_framework,
        s.bar_signals,
        STAGE1_OUTPUT_REMINDER,
        s.symbol, s.timeframe, n_bars,
        n_bars, n_bars,
        bg_window,
        n_bars.min(40),
        n_bars.min(8),
        n_bars.min(10),
        htf_block,
        s.kline_table,
        s.geometry_table,
        s.features_block,
        STAGE1_TAIL_REMINDER
    )
}

#[test]
fn stage1_user_prompt_with_long_window_and_htf() {
    let s = stage1_inputs(60, Some("4H 上涨通道"));
    assert_eq!(build_source_2pa_stage1_user_prompt(&s), expected_stage1(&s));
    assert!(build_source_2pa_stage1_user_prompt(&s).contains("**近期结构 K40–K1：**"));
}

#[test]
fn stage1_user_prompt_with_short_window() {
    let s = stage1_inputs(6, None);
    let p = build_source_2pa_stage1_user_prompt(&s);
    assert_eq!(p, expected_stage1(&s));
    assert!(p.contains("当前仅 6 根"));
    assert!(p.contains("**即时惯性 K6–K1：**"));
    assert!(!p.contains("高时间框架背景上下文"));
}

#[test]
fn full_prompt_and_messages() {
    assert_eq!(build_source_2pa_prompt("SYS", "USER"), "SYS\n\n====================\n\nUSER");
    let m = build_source_2pa_messages("SYS".to_string(), "USER".to_string());
    assert_eq!(m.len(), 2);
    assert_eq!((m[0].role.as_str(), m[0].content.as_str()), ("system", "SYS"));
    assert_eq!((m[1].role.as_str(), m[1].content.as_str()), ("user", "USER"));
}

#[test]
fn strategy_context_skips_unreadable_files() {
    let files = vec!["a.txt".to_string(), "b.txt".to_string(), "c.txt".to_string()];
    let contents = vec!["甲".to_string(), String::new(), "丙".to_string()];
    assert_eq!(
        strategy_context(&files, &contents),
        "### 【策略手册】a.txt\n甲\n\n---\n\n### 【策略手册】c.txt\n丙"
    );
    assert_eq!(strategy_context(&vec![], &vec![]), "");
}

#[test]
fn breakout_hint_names_the_tick() {
    let tick = 0.01;
    let expected = format!(
"**突破单定价（程序推断最小跳动 ≈ {:.2}）**：做多时 entry_price 必须严格大于 entry_basis_bar 的 high（推荐 high + {:.2}）；做空时 entry_price 必须严格低于 low（推荐 low - {:.2}）。entry_rule 必须写明基准 K 线序号与极点价格。",
        tick, tick, tick
    );
    assert_eq!(format_breakout_tick_hint(), expected);
}

#[test]
fn stage2_user_prompt_layout() {
    let s = Stage2Inputs {
        decision_stance: "aggressive".to_string(),
        position: None,
        strategy_files: vec!["a.txt".to_string()],
        strategy_contents: vec!["甲".to_string()],
        stage1_json: "{\n  \"direction\": \"bullish\"\n}".to_string(),
        htf_context: Some("日线区间".to_string()),
        bar_count: 80,
        kline_table: "KT".to_string(),
        geometry_table: "GT".to_string(),
        features_block: "FB".to_string(),
        experiences: vec![ExperienceCaseText {
            case_type: "success".to_string(),
            cycle_position: "broad_channel".to_string(),
            lesson: None,
            outcome_json: "{}".to_string(),
        }],
    };
    let stance_guidance = build_decision_stance_guidance("aggressive");
    let pos_section = render_position_context_section(None);
    let strategy_context = "### 【策略手册】a.txt\n甲".to_string();
    let stage1_str = s.stage1_json.clone();
    let htf_block = "## 高时间框架背景上下文\n日线区间\n\n".to_string();
    let n_bars = 80;
    let kline_tbl = "KT";
    let geom_tbl = "GT";
    let features_block = "FB";
    let breakout_hint = format_breakout_tick_hint();
    let experience_section = render_experience_section(&s.experiences);
    let user_content = format!(
        "{}\n\n\
         ## 阶段二任务\n\n\
         你现在独立执行阶段二：交易决策、风险收益和下单方式评估（基于阶段一诊断结果）。\n\
         以下 JSON 是程序校验通过后的阶段一诊断结果，请以此为权威依据；本消息下方附有完整 K 线表与几何特征。\n\n\
         {}\n\n---\n\n\
         {}\n\n---\n\n\
         {}\n\n---\n\n\
         {}\n\n---\n\n\
         ## 阶段一诊断结果\n\n```json\n{}\n```\n\n\
         {}\
         ## K线数据(共{}根，序号1=最新已收盘)\n\n{}\n\n\
         ## K线几何特征(程序预计算，仅作逐棒客观辅助)\n\n{}\n\n\
         {}\n\n\
         {}\n\n\
         {}\n\n\
         请根据以上诊断和K线数据,按《二元决策.txt》§3–§11、§14 输出 JSON 决策结果。\n\
         注意:如果判断不下单,entry_price、take_profit_price、take_profit_price_2、stop_loss_price、order_direction 必须全部为 null。\n\n\
         {}",
        STAGE2_API_TASK_RULE,
        stance_guidance,
        pos_section,
        strategy_context,
        STAGE2_OUTPUT_CONTRACT,
        stage1_str,
        htf_block,
        n_bars,
        kline_tbl,
        geom_tbl,
        features_block,
        breakout_hint,
        experience_section,
        STAGE2_TAIL_REMINDER
    );
    assert_eq!(build_source_2pa_stage2_user_prompt(&s), user_content);
}

#[test]
fn stage2_tail_reminder_text() {
    let expected = "\
【最后一步·必做】思考结束后，立即在 assistant 正文 `content` 输出完整阶段二裸 JSON
（含 decision、decision_trace、terminal）。思考用简体中文并尽量简洁；`content` 不得为空。
禁止调用 exec/Python/写文件等工具；算术在 JSON 推理字段内完成。
若 token 紧张，优先保证 `content` 有 JSON，可缩短思考。";
    assert_eq!(STAGE2_TAIL_REMINDER, expected);
}

#[test]
fn indicator_tables_follow_the_system() {
    let t = IndicatorTables {
        kline_table: "K".to_string(),
        deviation_table: "D".to_string(),
        geometry_table: "G".to_string(),
    };
    assert_eq!(render_indicators_for_system("dog_walking", &t), "D");
    assert_eq!(render_indicators_for_system("adaptive", &t), "K\n\nD");
    assert_eq!(
        render_indicators_for_system("2pa", &t),
        "K\n\n#### 📐 近端 K 线微观几何特征明细 (实体比/影线比/收盘位置)\nG"
    );
    assert_eq!(
        render_indicators_for_system("no such system", &t),
        "K\n\n#### 📐 近端 K 线微观几何特征明细 (实体比/影线比/收盘位置)\nG"
    );
}

#[test]
fn source_pipeline_is_chosen_by_canonical_id() {
    assert!(uses_source_pipeline("2pa_source"));
    assert!(uses_source_pipeline(" 2PA_Original "));
    assert!(!uses_source_pipeline("2pa"));
    assert!(!uses_source_pipeline("dog_walking"));
}

#[test]
fn one_strategy_prompts() {
    let s1 = StrategyStage1Inputs {
        system: "dog_walking".to_string(),
        strategy_prompt: "STRAT".to_string(),
        indicators: "IND".to_string(),
        htf_context: None,
    };
    let expected1 = format!("{}\n{}\n策略：{}\n{}\n高时间框架：{}\n阶段一：仅输出市场诊断 JSON。",
        LANGUAGE_ZH_RULE, "STRAT", "dog_reversion", "IND", "高周期数据缺失");
    assert_eq!(build_stage1_prompt_for_system(&s1), expected1);

    let s2 = StrategyStage2Inputs {
        system: "mystery".to_string(),
        strategy_prompt: "STRAT".to_string(),
        decision_stance: "balanced".to_string(),
        stage1_json: "{\"a\":1}".to_string(),
        position_json: "null".to_string(),
        indicators: "IND".to_string(),
        htf_context: Some("HTF".to_string()),
        experiences: vec![],
    };
    let expected2 = format!(
        "{}\n{}\n策略：{}\n{}\n阶段一：{}\n持仓：{}\n{}\n{}\n{}\n阶段二：仅输出交易决策 JSON。",
        LANGUAGE_ZH_RULE,
        "STRAT",
        "unknown",
        build_decision_stance_guidance("balanced"),
        "{\"a\":1}",
        "null",
        "IND",
        "HTF",
        ""
    );
    assert_eq!(build_stage2_prompt_with_strategy(&s2), expected2);
}

const KLINE_HEADER: &str = "| K线序号 | 开盘时间 (UTC) | 开盘价 | 最高价 | 最低价 | 收盘价 | 成交量 | EMA20 | ATR14 |\n|---|---|---|---|---|---|---|---|---|\n";
const DOG_HEADER: &str = "| K线序号 | 开盘时间 (UTC) | 开盘价 | 最高价 | 最低价 | 收盘价 | 成交量 | SMA14 (狗绳) | SMA170 (主人) | 偏离度(%) | ATR14 |\n|---|---|---|---|---|---|---|---|---|---|---|\n";
const GEOMETRY_HEADER: &str = "| K线序号 | 类型 | 实体比 | 上影比 | 下影比 | 收盘位置 | 范围/ATR | EMA关系 | 重叠比 | 内部序列 | 双顶底 | 缺口棒 |\n|---|---|---|---|---|---|---|---|---|---|---|---|\n";

fn tables() -> IndicatorTables {
    IndicatorTables {
        kline_table: KLINE_HEADER.to_string(),
        deviation_table: DOG_HEADER.to_string(),
        geometry_table: GEOMETRY_HEADER.to_string(),
    }
}

#[test]
fn test_render_indicators_for_system_decouples_indicators() {
    let t = tables();

    let pa_indicators = render_indicators_for_system("2pa_trend", &t);
    assert!(pa_indicators.contains("EMA20"));
    assert!(pa_indicators.contains("微观几何特征"));
    assert!(!pa_indicators.contains("SMA170 (主人)"), "2PA prompt must not include dog walking table");

    let dog_indicators = render_indicators_for_system("dog_walking", &t);
    assert!(dog_indicators.contains("SMA14 (狗绳)"));
    assert!(dog_indicators.contains("SMA170 (主人)"));
    assert!(!dog_indicators.contains("微观几何特征"), "Dog walking prompt must not include PA geometry table");

    let adaptive_indicators = render_indicators_for_system("adaptive", &t);
    assert!(adaptive_indicators.contains("EMA20"));
    assert!(adaptive_indicators.contains("SMA170 (主人)"));
}

#[test]
fn test_source_2pa_prompt_pipeline() {
    let system = build_source_2pa_system_prompt("# 提示词大纲：人设与思维方式", "# 二元决策");
    let s1_user = build_source_2pa_stage1_user_prompt(&Stage1Inputs {
        htf_context: Some("HTF Trend: Bullish".to_string()),
        kline_table: KLINE_HEADER.to_string(),
        geometry_table: GEOMETRY_HEADER.to_string(),
        ..stage1_inputs(30, None)
    });
    let s1_msgs = build_source_2pa_messages(system.clone(), s1_user.clone());
    assert_eq!(s1_msgs.len(), 2);
    assert_eq!(s1_msgs[0].role, "system");
    assert_eq!(s1_msgs[1].role, "user");
    assert!(s1_msgs[0].content.contains("二元决策"));
    assert!(s1_msgs[1].content.contains("阶段一任务"));

    let patterns = vec!["h2".to_string(), "breakout_test".to_string()];
    let files = route_stage2_strategy_files(Some("normal_channel"), Some("bullish"), &patterns, false);
    let contents: Vec<String> = files.iter().map(|f| format!("{f} 正文")).collect();
    let s2_user = build_source_2pa_stage2_user_prompt(&Stage2Inputs {
        decision_stance: "balanced".to_string(),
        position: None,
        strategy_files: files.clone(),
        strategy_contents: contents,
        stage1_json: "{\n  \"cycle_position\": \"normal_channel\"\n}".to_string(),
        htf_context: None,
        bar_count: 30,
        kline_table: KLINE_HEADER.to_string(),
        geometry_table: GEOMETRY_HEADER.to_string(),
        features_block: String::new(),
        experiences: vec![],
    });
    let s2_msgs = build_source_2pa_messages(system.clone(), s2_user.clone());
    assert_eq!(s2_msgs.len(), 2);
    assert!(files.contains(&"文件15-二次入场机会.txt".to_string()));
    assert!(files.contains(&"文件19-H1H2-L1L2计数.txt".to_string()));
    assert!(files.contains(&"文件18-突破失败与突破测试.txt".to_string()));
    assert!(files.contains(&"文件23-MeasuredMove与结构目标.txt".to_string()));

    assert!(uses_source_pipeline("2pa_source"));
    let s1_str = build_source_2pa_prompt(&system, &s1_user);
    assert!(s1_str.contains("阶段一任务"));
    let s2_str = build_source_2pa_prompt(&system, &s2_user);
    assert!(s2_str.contains("阶段二任务"));
    assert!(s2_str.contains("### 【策略手册】文件15-二次入场机会.txt"));
}

#[test]
fn no_experience_means_no_injection() {
    let loaded: Vec<ExperienceCaseText> = vec![];
    let prompt = build_stage2_prompt_with_strategy(&StrategyStage2Inputs {
        system: "2pa_trend".to_string(),
        strategy_prompt: "策略协议".to_string(),
        decision_stance: "balanced".to_string(),
        stage1_json: "{\"cycle_position\":\"trending_tr\",\"detected_patterns\":[\"h2\",\"breakout_test\"],\"dominant_force\":\"bulls\"}".to_string(),
        position_json: "null".to_string(),
        indicators: render_indicators_for_system("2pa_trend", &tables()),
        htf_context: None,
        experiences: loaded,
    });
    let files = stage2_files_used("trending_tr", false);
    assert!(!prompt.contains("历史同类案例"));
    assert_eq!(files, vec!["strategy_v1.txt"]);
}
