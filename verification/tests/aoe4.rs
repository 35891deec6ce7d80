//! The game server: fetching, keeping, reporting and answering.

use nonoka::aoe4::battle::full_game_report;
use nonoka::aoe4::cache::{
    answer, cache_entry, cache_file, cache_key, cache_record, cache_ttl, is_fresh, kb_dir,
};
use nonoka::aoe4::error::{Argument, ToolError};
use nonoka::aoe4::fetch::{
    after_response, api_url, backoff_delay_ms, failure, parse_retry_after, site_url,
    throttle_wait, FetchStep,
};
use nonoka::aoe4::knowledge::{
    civ_statistics_path, civ_stats, kb_lookup, meta_winrate_line, KnowledgeFile, KB_JSON,
    KB_VERSION,
};
use nonoka::aoe4::meta::{gathering_result, get_meta, reuse, reuse_report, update_knowledge};
use nonoka::aoe4::player::{analyze_player, player_games_path, player_path, GameReader};
use nonoka::aoe4::rpc::{handle, picture_reply, tool_reply, RpcAction};
use nonoka::aoe4::screenshot::{
    check_fetched, check_size, needs_retry, parse_size, plan_shot, screenshot_stats, shot_host,
};
use nonoka::aoe4::share::{game_path, parse_link, plan_full_game, FullGamePlan};
use nonoka::aoe4::stats::{
    aggregate_paths, analyze_via_crawl, analyze_via_stats, gather_aggregate, knowledge_json,
    ladder_path, ladder_targets, report_gathered, Crawl,
};
use nonoka::aoe4::summary::{
    analyze_game, summarize_game, summarize_games, summarize_leaderboard, summarize_player,
    summarize_search, unsigned_game_report,
};
use nonoka::aoe4::tools::{call_tool, tools_list, ToolRequest};
use nonoka::json::{self, Json};
use nonoka::report::{Piece, Report};

fn convert(value: &serde_json::Value) -> Json {
    match value {
        serde_json::Value::Null => Json::Null,
        serde_json::Value::Bool(b) => Json::Bool(*b),
        serde_json::Value::Number(n) => match (n.as_u64(), n.as_i64()) {
            (Some(u), _) => Json::Unsigned(u),
            (None, Some(i)) => Json::Negative(i),
            _ => Json::Real(n.to_string()),
        },
        serde_json::Value::String(s) => Json::Text(s.clone()),
        serde_json::Value::Array(a) => Json::Array(a.iter().map(convert).collect()),
        serde_json::Value::Object(o) => {
            Json::Object(o.iter().map(|(k, v)| (k.clone(), convert(v))).collect())
        }
    }
}

fn doc(text: &str) -> Json {
    convert(&serde_json::from_str(text).unwrap())
}

fn kb() -> Json {
    doc(KB_JSON)
}

fn filled(report: Report) -> String {
    let mut written = Vec::new();
    for piece in &report.pieces {
        match piece {
            Piece::Text(_) => {}
            Piece::Rate { wins, games, decimals } => {
                let rate = if *games > 0 {
                    *wins as f64 * 100.0 / *games as f64
                } else {
                    0.0
                };
                written.push(format!("{:.*}", *decimals as usize, rate));
            }
            Piece::Fixed { digits, decimals } => {
                let number: f64 = digits.parse().unwrap();
                written.push(format!("{:.*}", *decimals as usize, number));
            }
        }
    }
    report.fill(&written)
}

#[test]
fn backoff_respects_retry_after_over_exponential() {
    assert_eq!(backoff_delay_ms(0, Some(7), 999), 7000);
    assert_eq!(backoff_delay_ms(2, Some(1), 0), 1000);
}

#[test]
fn backoff_grows_exponentially_with_jitter() {
    assert_eq!(backoff_delay_ms(0, None, 0), 2000);
    assert_eq!(backoff_delay_ms(1, None, 123), 4123);
    assert_eq!(backoff_delay_ms(2, None, 0), 8000);
    assert_eq!(backoff_delay_ms(3, None, 499), 16499);
    assert_eq!(backoff_delay_ms(3, None, u32::MAX), 16000 + 295);
    assert_eq!(backoff_delay_ms(9, None, 0), 32000);
}

#[test]
fn cache_key_is_stable_and_collision_free_for_known_paths() {
    let a = cache_key("/players/123/games?page=1");
    let b = cache_key("/players/123/games?page=1");
    let c = cache_key("/players/124/games?page=1");
    assert_eq!(a, b);
    assert_ne!(a, c);
    assert!(a.ends_with(".json"));
}

#[test]
fn cache_ttl_matches_endpoint_kinds() {
    assert_eq!(cache_ttl("/players/search?query=x"), 60);
    assert_eq!(cache_ttl("/players/1/games?page=1"), 120);
    assert_eq!(cache_ttl("/leaderboards/rm_solo?page=1"), 300);
}

fn fnv(path: &str) -> u64 {
    let mut hash: u64 = 0xcbf2_9ce4_8422_2325;
    for b in path.bytes() {
        hash ^= b as u64;
        hash = hash.wrapping_mul(0x0000_0100_0000_01b3);
    }
    hash
}

#[test]
fn cache_keys_are_names_with_hashes() {
    assert_eq!(cache_key(""), "-cbf29ce484222325.json");
    for path in ["/players/123", "a", &"x".repeat(50), "/中文?查=询"] {
        let safe: String = path
            .chars()
            .map(|c| if c.is_ascii_alphanumeric() { c } else { '_' })
            .take(40)
            .collect();
        assert_eq!(cache_key(path), format!("{safe}-{:016x}.json", fnv(path)));
    }
    assert_eq!(
        cache_file("/kb", "a"),
        format!("/kb/cache/a-{:016x}.json", fnv("a"))
    );
    assert_eq!(kb_dir(Some("/set"), Some("/home/u")), "/set");
    assert_eq!(kb_dir(None, Some("/home/u")), "/home/u/.aoe4world-mcp");
    assert_eq!(kb_dir(None, None), "/tmp/.aoe4world-mcp");
}

#[test]
fn cache_roundtrip_and_expiry() {
    let path = "/players/42/test-roundtrip";
    let record = cache_record(1_000_000, &doc(r#"{"ok": true}"#));
    let (age, body) = cache_entry(&record, 1_000_001).expect("cache entry after write");
    assert!(age <= 1);
    assert_eq!(*body, doc(r#"{"ok": true}"#));
    let (age, _) = cache_entry(&record, 1_009_999).expect("stale entry readable");
    assert!(age >= 9999);
    assert!(age >= cache_ttl(path));
    assert!(!is_fresh(age, path));
    assert!(is_fresh(299, path));
    assert_eq!(cache_entry(&record, 0).unwrap().0, 0);
    assert!(cache_entry(&Json::Null, 5).is_none());
}

#[test]
fn a_failure_falls_back_on_what_was_kept() {
    let one = || json::string("new");
    let old = || json::string("old");
    assert_eq!(answer(Ok(one()), Some(old())).unwrap(), one());
    assert_eq!(answer(Err("down".to_string()), Some(old())).unwrap(), old());
    assert_eq!(answer(Err("down".to_string()), None).unwrap_err(), "down");
}

#[test]
fn requests_are_spaced_and_tried_again() {
    assert_eq!(throttle_wait(None), 0);
    assert_eq!(throttle_wait(Some(u64::MAX)), 0);
    assert_eq!(parse_retry_after(" 12 "), Some(12));
    assert_eq!(parse_retry_after("soon"), None);
    assert!(matches!(after_response(200, 9, None, 0), FetchStep::Read));
    assert!(matches!(after_response(204, 0, None, 0), FetchStep::Read));
    assert!(matches!(
        after_response(429, 0, Some(3), 7),
        FetchStep::Again { wait_ms: 3000 }
    ));
    assert!(matches!(
        after_response(503, 1, None, 5),
        FetchStep::Again { wait_ms: 4005 }
    ));
    assert!(matches!(after_response(404, 0, None, 0), FetchStep::Fail));
    assert!(matches!(after_response(500, 1000, None, 0), FetchStep::Fail));
    assert_eq!(
        failure("u", "404 Not Found"),
        "GET u -> 404 Not Found"
    );
    assert!(api_url("/x").ends_with("/api/v0/x"));
    assert!(site_url("/x").ends_with("aoe4world.com/x"));
}

#[test]
fn searches_are_summed_up() {
    let body = doc(
        r#"{"total_count": 2, "players": [
            {"name": "A", "profile_id": 7, "modes": {"rm_solo": {"rating": 1500}}, "last_game_at": "now"},
            {}]}"#,
    );
    assert_eq!(
        summarize_search(&body),
        "命中 2 名玩家,本页 2 名:\n- A (id=7) rating=1500 最近比赛=now\n- ? (id=) rating=- 最近比赛=-\n"
    );
}

const PLAYER: &str = r#"{"name": "A", "profile_id": 7, "modes": {
    "rm_solo": {"rating": 1500, "rank": 3, "rank_level": "gold_1", "wins_count": 4, "losses_count": 5},
    "rm_team": {}}}"#;

const PLAYER_TEXT: &str = "玩家 A (profile_id=7)\n- rm_solo: rating=1500 rank=3 level=gold_1 胜4/负5\n- rm_team: rating=- rank=- level=- 胜-/负-\n";

#[test]
fn players_are_summed_up() {
    assert_eq!(summarize_player(&doc(PLAYER)), PLAYER_TEXT);
    assert_eq!(summarize_player(&Json::Null), "玩家 ? (profile_id=)\n");
}

#[test]
fn games_are_summed_up() {
    let game = r#"{"game_id": 9, "map": "Dry", "kind": "rm_1v1", "started_at": "t", "patch": 12, "duration": 125,
        "teams": [[{"player": {"name": "A", "civilization": "rus", "result": "win", "profile_id": 1, "rating": 10, "mmr": 11}}],
                  [{"player": {"name": "B"}}, {}]]}"#;
    let list = doc(&format!(r#"{{"total_count": 1, "games": [{game}]}}"#));
    assert_eq!(
        summarize_games(&list),
        "共 1 场,本页 1 场:\n- game=9 rm_1v1 Dry t: A[rus](win) vs B[?]\n"
    );
    assert_eq!(
        summarize_game(&doc(game)),
        "对局 9: rm_1v1 地图=Dry patch=12 时长=Some(125)秒\n- 队1 A (id=1) 文明=rus rating=10 mmr=11 结果=win\n- 队2 B (id=) 文明=? rating=- mmr=- 结果=进行中\n"
    );
    assert_eq!(
        summarize_game(&Json::Null),
        "对局 : - 地图=- patch=- 时长=None秒\n"
    );
}

#[test]
fn ladders_are_summed_up() {
    let body = doc(
        r#"{"name": "RM", "players": [{"rank": 1, "name": "A", "rating": 2000, "win_rate": 61.5}, {}]}"#,
    );
    assert_eq!(
        summarize_leaderboard(&body),
        "天梯 RM,本页 2 名:\n- #1 A rating=2000 winrate=61.5\n- #- ? rating=- winrate=-\n"
    );
}

#[test]
fn a_game_is_told_team_by_team() {
    let game = doc(
        r#"{"kind": "rm_1v1", "map": "Dry", "patch": 12, "duration": 125, "server": "EU", "average_rating": 1400,
            "teams": [[{"name": "A", "civilization": "rus", "rating": 1500, "rating_diff": 12, "country": "de", "result": "win"}],
                      [{"name": "B", "rating": 1490, "rating_diff": -12, "result": "loss"}], [{"rating": 5}]]}"#,
    );
    let text = "战报 对局9:rm_1v1 地图=Dry patch=12 时长=2分5秒 服务器=EU 平均rating=1400\n队1(胜):\n- A[rus] rating=1500(+12) 国别=de\n队2(负):\n- B[?] rating=1490(-12) 国别=\n队3(进行中):\n- ?[?] rating=5 国别=\n";
    assert_eq!(analyze_game(9, &game).unwrap(), text);
    assert_eq!(
        unsigned_game_report(9, &game).unwrap(),
        format!("对局链接未带 sig(深度时间线需要游戏内分享出的带 sig 链接),已降级为 API 层战报:\n\n{text}")
    );
    assert_eq!(
        analyze_game(9, &Json::Null).unwrap_err().message(),
        "对局没有队伍数据"
    );
}

fn played(me: &str, civ: &str, map: &str, at: &str) -> String {
    format!(
        r#"{{"map": "{map}", "kind": "rm_1v1", "started_at": "{at}", "teams": [[{{"player": {{"profile_id": 7, "result": "{me}", "civilization": "{civ}"}}}}], [{{"player": {{"profile_id": 8}}}}]]}}"#
    )
}

#[test]
fn a_player_is_told_by_games_and_streaks() {
    let games = doc(&format!(
        "[{},{},{},{}]",
        played("win", "rus", "Dry", "t4"),
        played("win", "rus", "Dry", "t3"),
        played("loss", "english", "Wet", "t2"),
        played("win", "rus", "Wet", "t1"),
    ));
    let list = match games {
        Json::Array(v) => v,
        _ => panic!("list"),
    };
    let text = filled(analyze_player(7, &doc(PLAYER), &list, 50));
    assert_eq!(
        text,
        format!(
            "玩家历史分析 A (profile_id=7)\n{PLAYER_TEXT}\n近 4 场(截至 t1):胜率 75.0% (3胜/1负);当前2 连胜;最长连胜 2;最长连败 1\n文明表现(按胜率,≥2 场):\n- 文明 rus: 100% (3/3)\n地图表现(按胜率,≥2 场):\n- 地图 Dry: 100% (2/2)\n- 地图 Wet: 50% (1/2)\n模式分布:\n- 模式 rm_1v1: 75% (3/4)\n"
        )
    );
    let none = filled(analyze_player(7, &Json::Null, &vec![], 50));
    assert_eq!(
        none,
        "玩家历史分析 ? (profile_id=7)\n玩家 ? (profile_id=)\n\n近 0 场(截至 ):胜率 0.0% (0胜/0负);当前无连胜连败;最长连胜 0;最长连败 0\n"
    );
    assert_eq!(player_path(7), "/players/7");
    assert_eq!(player_games_path(7, 2), "/players/7/games?page=2");
}

#[test]
fn pages_are_read_until_one_is_short() {
    let page = |n: usize| {
        let mut list = Vec::new();
        for _ in 0..n {
            list.push(Json::Null);
        }
        Json::Object(vec![("games".to_string(), Json::Array(list))])
    };
    let mut reader = GameReader::new(150);
    assert_eq!(reader.pages, 3);
    assert!(reader.open);
    reader.take_page(&page(50));
    assert!(reader.open);
    reader.take_page(&page(49));
    assert!(!reader.open);
    assert_eq!(reader.games.len(), 99);
    assert_eq!(GameReader::new(10).pages, 1);
    assert_eq!(GameReader::new(0).pages, 1);
    assert_eq!(GameReader::new(50).pages, 1);
    assert_eq!(GameReader::new(51).pages, 2);
    assert_eq!(GameReader::new(200).pages, 4);
    let mut broken = GameReader::new(10);
    broken.take_page(&Json::Null);
    assert!(!broken.open);
}

fn kept() -> KnowledgeFile {
    KnowledgeFile::Loaded(doc(
        r#"{"updated_at": 5, "patch": "p1", "civilizations": [{"civ": "french", "games": 8, "wins": 5}, {"civ": "x", "games": 0, "wins": 0}],
            "matchups": [{"matchup": "french_vs_rus", "games": 4, "wins": 1}, {"matchup": "a_vs_b", "games": 2, "wins": 2}]}"#,
    ))
}

#[test]
fn knowledge_is_looked_up_by_id_or_name() {
    let text = filled(kb_lookup("法兰西", &kb(), &kept()).unwrap());
    assert!(text.starts_with(
        "【文明】french / 法兰西\n  特性:皇家骑士+重甲冲脸,贸易与采石强化,骑士流核心\n  版本胜率:62.5% (5/8) [patch p1]\n"
    ));
    assert!(text.contains("\n通用克制总则:\n  - 长矛系"));
    assert!(text.ends_with(&format!(
        "(知识库策展版本 {KB_VERSION};版本强度数据见 knowledge.json 的 updated_at)"
    )));
    let unit = filled(kb_lookup("皇家骑士", &kb(), &KnowledgeFile::Missing).unwrap());
    assert!(unit.contains(
        "【兵种】royal_knight / 皇家骑士(重骑兵)\n  强对抗:远程单位、步兵阵线冲锋\n  被克制:长矛兵海、弩手、僧侣转化\n"
    ));
    let villager = filled(kb_lookup("VILLAGER", &kb(), &KnowledgeFile::Missing).unwrap());
    assert!(villager.contains("【兵种】villager / 村民(经济)\n  强对抗:\n  被克制:所有军事单位\n"));
    let none = filled(kb_lookup("zzz", &kb(), &KnowledgeFile::Missing).unwrap());
    assert!(none.starts_with("未命中「zzz」,以下是通用克制总则:\n  - 长矛系"));
    assert_eq!(
        kb_lookup("  ", &kb(), &KnowledgeFile::Missing).unwrap_err().message(),
        "query 不能为空"
    );
    assert_eq!(
        kb_lookup("x", &Json::Null, &KnowledgeFile::Missing).unwrap_err().message(),
        "KB civs"
    );
    assert_eq!(
        kb_lookup("x", &doc(r#"{"civs": {}}"#), &KnowledgeFile::Missing)
            .unwrap_err()
            .message(),
        "KB units"
    );
}

#[test]
fn letters_beyond_ascii_are_lowered_too() {
    let kb = doc(r#"{"civs": {}, "units": {"jarl": {"cn": "ÄRGER"}}}"#);
    let text = filled(kb_lookup("ärger", &kb, &KnowledgeFile::Missing).unwrap());
    assert!(text.starts_with("【兵种】jarl / ÄRGER(-)\n"));
}

#[test]
fn rates_of_a_version_are_told_where_they_are_known() {
    let line = |k: &KnowledgeFile, civ: &str| filled(meta_winrate_line(k, civ));
    assert_eq!(
        line(&KnowledgeFile::Missing, "rus"),
        "  版本胜率:先跑 analyze_win_rates"
    );
    assert_eq!(
        line(&KnowledgeFile::Damaged("why".to_string()), "rus"),
        "  版本胜率:知识库损坏"
    );
    assert_eq!(line(&kept(), "rus"), "  版本胜率:该文明不在当前统计中");
    assert_eq!(line(&kept(), "x"), "  版本胜率:0.0% (0/0) [patch p1]");
}

#[test]
fn civilizations_are_ranked_by_rate() {
    assert_eq!(
        civ_statistics_path("rm_solo", None, None),
        "/stats/rm_solo/civilizations?"
    );
    assert_eq!(
        civ_statistics_path("rm_team", Some("gold"), Some("1")),
        "/stats/rm_team/civilizations?rank_level=gold&patch=1&"
    );
    let body = doc(
        r#"{"patch": "p", "rank_level": "gold", "data": [
            {"civilization": "rus", "win_rate": 48.25, "pick_rate": 3.5, "games_count": 10},
            {"civilization": "french", "win_rate": 51.5, "pick_rate": 7.25, "games_count": 20}]}"#,
    );
    let text = filled(civ_stats("rm_solo", &body, &vec![4825, 5150], &kb()).unwrap());
    assert_eq!(
        text,
        "文明胜率 rm_solo [段位:gold] [patch p](按胜率排序):\n- french(法兰西): 51.5% 登场7.2% 样本20\n- rus(罗斯): 48.2% 登场3.5% 样本10\n"
    );
    assert_eq!(
        civ_stats("rm_solo", &Json::Null, &vec![], &kb()).unwrap_err().message(),
        "stats 无数据"
    );
}

#[test]
fn links_to_games_are_read() {
    let link = parse_link("https://aoe4world.com/players/12-name/games/34?sig=ab&x=1").unwrap();
    assert_eq!((link.player, link.game), (12, 34));
    assert_eq!(link.sig, Some("ab".to_string()));
    let bare = parse_link("https://aoe4world.com/players/12-/games/34/").unwrap();
    assert_eq!(bare.sig, None);
    assert!(parse_link("https://aoe4world.com/games/34").is_none());
    assert!(matches!(
        plan_full_game(Some("x/players/12-/games/34?sig=ab"), None, None, None),
        Ok(FullGamePlan::Summary { game: 34, path }) if path == "/players/12-/games/34/summary?camelize=true&sig=ab"
    ));
    assert!(matches!(
        plan_full_game(None, Some(1), Some(2), None),
        Ok(FullGamePlan::Entry { game: 2, path }) if path == "/games/2"
    ));
    assert_eq!(
        plan_full_game(Some("nonsense"), Some(1), Some(2), None).unwrap_err().message(),
        "分享链接格式不对,需要 aoe4world.com/players/<id>-/games/<id>?sig=... 完整链接"
    );
    assert_eq!(
        plan_full_game(None, Some(1), None, None).unwrap_err().message(),
        "需要 share_url 或 profile_id+game_id(+sig)"
    );
    assert_eq!(game_path(5), "/games/5");
}

fn fighter(name: &str, team: i64, result: &str, kills: i64, lost: i64) -> String {
    format!(
        r#"{{"name": "{name}", "team": {team}, "result": "{result}", "civilization": "rus", "apm": 100,
            "_stats": {{"sqkill": {kills}, "sqlost": {lost}, "sqprod": 5, "inactperiod": 2}},
            "actions": {{"feudalAge": [65], "castleAge": []}},
            "totalResourcesGathered": {{"total": 4000, "food": 1, "wood": 2, "gold": 3, "stone": 4}},
            "scores": {{"total": 10, "military": 4, "economy": 3, "technology": 2, "society": 1}},
            "buildOrder": [
                {{"icon": "icons/units/spearman", "type": "Unit", "finished": [70, 80], "destroyed": [90]}},
                {{"icon": "icons/sheep", "type": "Animal", "finished": [1]}},
                {{"icon": "icons/house", "type": "Building", "finished": [30]}}]}}"#
    )
}

#[test]
fn a_full_game_is_told() {
    let body = doc(&format!(
        r#"{{"mapName": "Dry", "leaderboard": "rm_1v1", "duration": 605, "winReason": "Landmarks", "players": [{},{}]}}"#,
        fighter("A", 1, "win", 9, 3),
        fighter("B", 2, "loss", 3, 9),
    ));
    let text = full_game_report(34, &body, &kb()).unwrap();
    assert!(text.starts_with(
        "深度战报 对局34:rm_1v1 地图=Dry 时长=10分5秒 结束原因=Landmarks\n- A[罗斯](队1) win | APM100 击杀9 战损3 生产5 | 采集4000 总分10(军4) | 挂机2s | 时代 封建1:05 城堡- 帝王-\n- B[罗斯](队2) loss | APM100 击杀3 战损9 生产5 | 采集4000 总分10(军4) | 挂机2s | 时代 封建1:05 城堡- 帝王-\n\n【Comparison 四维分数】\n- A 总10 经济3 军事4 科技2 社会1 | 资源 食1 木2 金3 石4\n- B 总10 经济3 军事4 科技2 社会1 | 资源 食1 木2 金3 石4\n\n【Build Order 关键节点】(前 12 条,完整序列过长省略中后段)\n- A: 0:30:house 1:10:spearman×2(损1) \n- B: 0:30:house 1:10:spearman×2(损1) \n"
    ));
    assert!(!text.contains("MVP 候选"));
    assert!(text.contains("1v1 没有 MVP/战犯概念"));
    assert_eq!(
        full_game_report(1, &Json::Null, &kb()).unwrap_err().message(),
        "无玩家"
    );
    assert_eq!(
        full_game_report(1, &body, &Json::Null).unwrap_err().message(),
        "KB civs"
    );
}

#[test]
fn the_best_and_the_worst_are_named_in_team_games() {
    let body = doc(&format!(
        r#"{{"players": [{},{},{},{}]}}"#,
        fighter("A", 1, "win", 9, 3),
        fighter("B", 1, "win", 12, 3),
        fighter("C", 2, "loss", 3, 9),
        fighter("D", 2, "loss", 3, 11),
    ));
    let text = full_game_report(34, &body, &kb()).unwrap();
    assert!(text.contains(
        "\nMVP 候选:B[罗斯](击杀12 战损3 采集4000)\n战犯候选:D[罗斯](击杀3 战损11 采集4000)\n"
    ));
    assert!(text.contains("战犯要点名说透"));
}

const CIVS: &str = r#"{"patch": "p", "data": [{"civilization": "rus", "games_count": 10, "win_count": 4}, {}, {"civilization": "french", "games_count": 30, "win_count": 20}]}"#;
const MATCHUPS: &str = r#"{"data": [{"civilization": "rus", "other_civilization": "french", "games_count": 5, "win_count": 1}, {"civilization": "rus"}]}"#;

#[test]
fn aggregates_are_gathered_and_reported() {
    assert_eq!(
        aggregate_paths("b"),
        (
            "/stats/b/civilizations".to_string(),
            "/stats/b/matchups".to_string()
        )
    );
    let gathered = gather_aggregate(&doc(CIVS), &doc(MATCHUPS)).unwrap();
    let text = filled(report_gathered(
        "官方聚合",
        "p",
        5,
        &gathered.civs,
        &gathered.matchups,
        "/kb",
        "",
    ));
    assert_eq!(
        text,
        "胜率分析完成(官方聚合,patch p):统计 5 场(文明样本 20 场)\n\n文明登场/胜率:\n- french: 66.7% (20/30) 登场率 150.0%\n- rus: 40.0% (4/10) 登场率 50.0%\n\n文明对阵胜率(前 20):\n- rus_vs_french: 20.00% (1/5)\n\n知识库已更新:/kb/knowledge.json\n"
    );
    let kept = knowledge_json(9, "b", "官方聚合", "p", 5, &gathered.civs, &gathered.matchups);
    assert_eq!(
        kept.to_text(),
        "{\"updated_at\":9,\"board\":\"b\",\"source\":\"官方聚合\",\"patch\":\"p\",\"games\":5,\"civilizations\":[{\"civ\":\"rus\",\"games\":10,\"wins\":4},{\"civ\":\"french\",\"games\":30,\"wins\":20}],\"matchups\":[{\"matchup\":\"rus_vs_french\",\"games\":5,\"wins\":1}]}"
    );
    assert_eq!(
        gather_aggregate(&Json::Null, &Json::Null).unwrap_err().message(),
        "官方聚合端点返回空数据"
    );
}

#[test]
fn what_was_gathered_is_read_back() {
    let gathered = gather_aggregate(&doc(CIVS), &doc(MATCHUPS)).unwrap();
    let kept = knowledge_json(9, "b", "s", "p", 5, &gathered.civs, &gathered.matchups);
    let file = KnowledgeFile::Loaded(kept);
    assert_eq!(
        filled(meta_winrate_line(&file, "french")),
        "  版本胜率:66.7% (20/30) [patch p]"
    );
    assert_eq!(
        filled(get_meta(&file, Some("rus")).unwrap()),
        "AOE4World 知识库(更新于 epoch 9):\nrus: 40.0% (4/10)\n- rus_vs_french: 20.0% (1/5)\n"
    );
}

#[test]
fn ladders_are_crawled() {
    assert_eq!(ladder_path("b"), "/leaderboards/b?page=1");
    let ladder = doc(r#"{"players": [{"profile_id": 3, "name": "A"}, {"name": "B"}, {"profile_id": 4}]}"#);
    let targets = ladder_targets(&ladder, 2).unwrap();
    assert_eq!(targets.len(), 1);
    assert_eq!((targets[0].id, targets[0].name.as_str()), (3, "A"));
    assert_eq!(
        ladder_targets(&Json::Null, 2).unwrap_err().message(),
        "leaderboard has no players"
    );
    let page = doc(
        r#"{"games": [
            {"teams": [[{"player": {"civilization": "rus", "result": "win"}}], [{"player": {"civilization": "french", "result": "loss"}}]]},
            {"teams": [[{"player": {"civilization": "rus"}}], [{"player": {"civilization": "french"}}]]},
            {"teams": [[{"player": {"civilization": "rus", "result": "loss"}}], [{"player": {"civilization": "rus"}}]]},
            {}]}"#,
    );
    let mut crawl = Crawl::new();
    crawl.add_page("A", &page, 50, 1000);
    assert_eq!(crawl.games, 2);
    assert_eq!(crawl.progress, "已统计 A 的比赛\n");
    let row = |name: &str| {
        let r = crawl.civs.rows.iter().find(|r| r.name == name).unwrap();
        (r.games, r.wins)
    };
    assert_eq!(row("rus"), (3, 3));
    assert_eq!(row("french"), (1, 0));
    assert_eq!(crawl.matchups.rows[0].name, "rus_vs_french");
    assert_eq!((crawl.matchups.rows[1].games, crawl.matchups.rows[1].wins), (1, 0));
}

#[test]
fn knowledge_is_told_in_whole_or_by_civilization() {
    assert_eq!(
        filled(get_meta(&kept(), None).unwrap()),
        "AOE4World 知识库(更新于 epoch 5):\n文明胜率:\n- french: 62.5% (5/8)\n- x: 0.0% (0/0)\n对阵胜率:\n- french_vs_rus: 25.0% (1/4)\n- a_vs_b: 100.0% (2/2)\n"
    );
    assert_eq!(
        filled(get_meta(&kept(), Some("rus")).unwrap()),
        "AOE4World 知识库(更新于 epoch 5):\n知识库里没有 rus 的记录\n"
    );
    assert_eq!(
        get_meta(&KnowledgeFile::Missing, None).unwrap_err().message(),
        "知识库为空:先调用 analyze_win_rates 生成"
    );
    assert_eq!(
        get_meta(&KnowledgeFile::Damaged("bad".to_string()), None).unwrap_err().message(),
        "bad"
    );
}

#[test]
fn young_knowledge_is_used_again() {
    assert!(reuse(false, Some(1799)));
    assert!(!reuse(false, Some(1800)));
    assert!(!reuse(true, Some(0)));
    assert!(!reuse(false, None));
    let text = filled(reuse_report("12", &KnowledgeFile::Missing));
    assert_eq!(
        text,
        "知识库 12 分钟前刚分析过(窗口 30 分钟),直接复用本地结果;确需重抓请在 force=true 后重试。\n\n读取知识库失败:知识库为空:先调用 analyze_win_rates 生成"
    );
    let report = |s: &str| {
        let mut r = Report::new();
        r.text(s);
        r
    };
    let first = gathering_result(Ok(report("stats")), Err("x".to_string())).unwrap();
    assert_eq!(filled(first), "stats");
    let second = gathering_result(Err("down".to_string()), Ok(report("crawl"))).unwrap();
    assert_eq!(
        filled(second),
        "官方聚合端点不可用(down),已降级为天梯玩家抓取。\ncrawl"
    );
    assert_eq!(
        gathering_result(Err("a".to_string()), Err("b".to_string())).unwrap_err(),
        "官方聚合端点失败:a;天梯抓取降级也失败:b"
    );
    assert_eq!(
        update_knowledge(None, Some("bad"), Some("3")),
        format!("知识库更新:\n- rm_solo 官方聚合胜率已刷新\n- qm_1v1 刷新失败:bad\n- 策展知识(文明/兵种/克制/中文名):版本 {KB_VERSION},随程序更新\n- 动态胜率数据:3 分钟前\n")
    );
    assert!(update_knowledge(None, None, None).ends_with("- 动态胜率数据:从未\n"));
}

#[test]
fn pictures_are_planned_on_either_machine() {
    assert!(shot_host(None).is_empty());
    assert!(shot_host(Some("  ")).is_empty());
    assert_eq!(shot_host(Some(" a@b ")).last().unwrap(), "a@b");
    let plan = plan_shot(" /stats/rm_solo/matchups?rank_level=gold ", 100, None).unwrap();
    assert_eq!(plan.page, "stats/rm_solo/matchups?rank_level=gold");
    assert_eq!(plan.shoot.program, "sh");
    assert_eq!(plan.shoot.args[0], "-c");
    assert_eq!(
        plan.shoot.args[1],
        "timeout 90 docker run --rm --shm-size=256m -v /tmp:/data zenika/alpine-chrome:latest --headless --no-sandbox --disable-gpu --disable-dev-shm-usage --hide-scrollbars --window-size=1360,800 --virtual-time-budget=20000 --screenshot=/data/aoe4world-shot.png 'https://aoe4world.com/stats/rm_solo/matchups?rank_level=gold' >/dev/null 2>&1; test -s /tmp/aoe4world-shot.png && stat -c %s /tmp/aoe4world-shot.png"
    );
    assert!(plan.again.args[1].contains("--virtual-time-budget=45000"));
    assert!(plan.fetch.is_none());
    let remote = plan_shot("stats/x", 9000, Some("a@b")).unwrap();
    assert_eq!(remote.shoot.program, "ssh");
    assert_eq!(remote.shoot.args.len(), 8);
    assert_eq!(remote.shoot.args[6], "a@b");
    assert!(remote.shoot.args[7].contains("--window-size=1360,6000"));
    let fetch = remote.fetch.unwrap();
    assert_eq!(fetch.args[7], "cat /tmp/aoe4world-shot.png");
    assert_eq!(
        plan_shot("stats/$(x)", 1, None).unwrap_err().message(),
        "path 只允许站点相对路径(字母数字与 =&?/_-.),拒绝: stats/$(x)"
    );
    assert!(plan_shot(" / ", 1, None).is_err());
    assert_eq!(
        plan_shot("players/1", 1, None).unwrap_err().message(),
        "只允许截 stats/ 下的统计页,拒绝: players/1"
    );
}

#[test]
fn pictures_are_checked_and_shown() {
    assert_eq!(parse_size(" 123456\n"), 123456);
    assert_eq!(parse_size("none"), 0);
    assert!(needs_retry(99_999));
    assert!(!needs_retry(100_000));
    assert!(check_size(100_000).is_ok());
    assert_eq!(
        check_size(0).unwrap_err().message(),
        "截图未生成(页面超时或被站点挑战拦截)"
    );
    assert_eq!(
        check_size(7).unwrap_err().message(),
        "截图疑似空白(7 bytes,站点挑战或渲染未完成)。降级方案:改用 civ_stats 工具输出文字版胜率数据"
    );
    assert!(check_fetched(true, 1).is_ok());
    assert_eq!(check_fetched(true, 0).unwrap_err().message(), "回传截图为空");
    assert!(check_fetched(false, 1).is_err());
    let shown = screenshot_stats("stats/x", 123, b"foo");
    assert_eq!(
        shown.to_text(),
        "[{\"type\":\"text\",\"text\":\"已截取官方统计页 https://aoe4world.com/stats/x (123 bytes)。直接把图发给用户;若用户要的是热力网格但图里只见表格,可用更大的 height(如 4000)重截。\"},{\"type\":\"image\",\"data\":\"Zm9v\",\"mimeType\":\"image/png\"}]"
    );
}

fn asked(name: &str, args: &str) -> Result<ToolRequest, ToolError> {
    call_tool(name, &doc(args))
}

#[test]
fn tools_lead_to_requests() {
    assert!(matches!(
        asked("search_players", r#"{"query": "x", "page": 2}"#),
        Ok(ToolRequest::Search { path }) if path == "/players/search?query=x&page=2"
    ));
    assert!(matches!(
        asked("get_player", r#"{"profile_id": 7}"#),
        Ok(ToolRequest::Player { path }) if path == "/players/7"
    ));
    assert!(matches!(
        asked("get_player_games", r#"{"profile_id": 7, "opponent_profile_id": 8, "since": "t"}"#),
        Ok(ToolRequest::PlayerGames { path }) if path == "/players/7/games?page=1&opponent_profile_id=8&since=t"
    ));
    assert!(matches!(
        asked("get_game", r#"{"game_id": 9}"#),
        Ok(ToolRequest::Game { path }) if path == "/games/9"
    ));
    assert!(matches!(
        asked("analyze_player", r#"{"profile_id": 7, "games_limit": 999}"#),
        Ok(ToolRequest::AnalyzePlayer { player: 7, limit: 200 })
    ));
    assert!(matches!(
        asked("get_leaderboard", "{}"),
        Ok(ToolRequest::Leaderboard { path }) if path == "/leaderboards/rm_solo?page=1"
    ));
    assert!(matches!(
        asked("analyze_win_rates", r#"{"top_players": 0, "force": true}"#),
        Ok(ToolRequest::WinRates { board, top: 1, per: 50, force: true }) if board == "rm_solo"
    ));
    assert!(matches!(
        asked("get_meta", r#"{"civilization": "rus"}"#),
        Ok(ToolRequest::Meta { civ: Some(c) }) if c == "rus"
    ));
    assert!(matches!(
        asked("civ_stats", "{}"),
        Ok(ToolRequest::CivStats { board, path }) if board == "rm_solo" && path == "/stats/rm_solo/civilizations?"
    ));
    assert!(matches!(
        asked("kb_lookup", r#"{"query": "q"}"#),
        Ok(ToolRequest::Lookup { query }) if query == "q"
    ));
    assert_eq!(asked("get_player", "{}").unwrap_err().message(), "profile_id 必填");
    assert_eq!(asked("get_game", "{}").unwrap_err().message(), "game_id 必填");
    assert_eq!(asked("nope", "{}").unwrap_err().message(), "unknown tool: nope");
    assert_eq!(
        ToolError::Missing(Argument::GameId).message(),
        "game_id 必填"
    );
}

#[test]
fn every_listed_tool_is_known() {
    let tools = tools_list();
    let list = tools.array_at("tools").unwrap();
    assert_eq!(list.len(), 14);
    for tool in list {
        let name = tool.text_at("name").unwrap();
        if name != "screenshot_stats" {
            let unknown = matches!(call_tool(name, &Json::Null), Err(ToolError::UnknownTool(_)));
            assert!(!unknown, "{name}");
        }
    }
}

#[test]
fn requests_are_answered() {
    let reply = |text: &str| match handle(&doc(text)) {
        RpcAction::Reply(v) => v.to_text(),
        _ => panic!("reply"),
    };
    assert_eq!(
        reply(r#"{"id": 1, "method": "ping"}"#),
        "{\"jsonrpc\":\"2.0\",\"id\":1,\"result\":{}}"
    );
    assert_eq!(
        reply(r#"{"id": "a", "method": "initialize"}"#),
        "{\"jsonrpc\":\"2.0\",\"id\":\"a\",\"result\":{\"protocolVersion\":\"2025-03-26\",\"capabilities\":{\"tools\":{}},\"serverInfo\":{\"name\":\"aoe4world-mcp\",\"version\":\"0.2.0\"}}}"
    );
    assert_eq!(
        reply(r#"{"method": "what"}"#),
        "{\"jsonrpc\":\"2.0\",\"id\":null,\"error\":{\"code\":-32601,\"message\":\"method not found: what\"}}"
    );
    assert!(reply(r#"{"id": 2, "method": "tools/list"}"#).contains("search_players"));
    assert!(matches!(
        handle(&doc(r#"{"method": "notifications/initialized"}"#)),
        RpcAction::Ignore
    ));
    assert!(matches!(
        handle(&doc(r#"{"method": "tools/call", "params": {"name": "screenshot_stats", "arguments": {"path": "stats/x"}}}"#)),
        RpcAction::Screenshot { path, height: 2400, .. } if path == "stats/x"
    ));
    assert!(matches!(
        handle(&doc(r#"{"method": "tools/call", "params": {"name": "get_game", "arguments": {"game_id": 1}}}"#)),
        RpcAction::Tool { name, arguments, .. } if name == "get_game" && arguments.integer_at("game_id") == Some(1)
    ));
    assert_eq!(
        tool_reply(Json::Null, Ok("t".to_string())).to_text(),
        "{\"jsonrpc\":\"2.0\",\"id\":null,\"result\":{\"content\":[{\"type\":\"text\",\"text\":\"t\"}],\"isError\":false}}"
    );
    assert_eq!(
        picture_reply(Json::Unsigned(1), Err("bad".to_string())).to_text(),
        "{\"jsonrpc\":\"2.0\",\"id\":1,\"result\":{\"content\":[{\"type\":\"text\",\"text\":\"bad\"}],\"isError\":true}}"
    );
}

#[test]
fn statistics_say_where_they_come_from() {
    let civs = r#"{"patch": "14.2", "data": [{"civilization": "rus", "games_count": 10, "win_count": 5}]}"#;
    let met = r#"{"data": [
        {"civilization": "rus", "other_civilization": "french", "games_count": 4, "win_count": 1},
        {"civilization": "french", "other_civilization": "rus", "games_count": 3, "win_count": 2}
    ]}"#;
    let found = gather_aggregate(&doc(civs), &doc(met)).unwrap();
    assert_eq!(found.patch, "14.2");
    let (kept, report) = analyze_via_stats(&found, "rm_solo", 99, "/kb");
    assert_eq!(kept.text_or("source", ""), "官方聚合");
    assert_eq!(kept.text_or("patch", ""), "14.2");
    assert_eq!(kept.natural_at("games"), Some(7));
    assert_eq!(kept.natural_at("updated_at"), Some(99));
    assert_eq!(
        filled(report),
        "胜率分析完成(官方聚合,patch 14.2):统计 7 场(文明样本 5 场)\n\n文明登场/胜率:\n- rus: 50.0% (5/10) 登场率 200.0%\n\n文明对阵胜率(前 20):\n- rus_vs_french: 25.00% (1/4)\n- french_vs_rus: 66.67% (2/3)\n\n知识库已更新:/kb/knowledge.json\n"
    );

    let page = doc(
        r#"{"games": [{"teams": [
            [{"player": {"civilization": "rus", "result": "win"}}],
            [{"player": {"civilization": "french", "result": "loss"}}]
        ]}]}"#,
    );
    let mut crawl = Crawl::new();
    crawl.add_page("A", &page, 50, 0);
    let (kept, report) = analyze_via_crawl(&crawl, "rm_solo", 7, "/kb");
    assert_eq!(kept.text_or("source", ""), "天梯抓取");
    assert_eq!(kept.natural_at("games"), Some(1));
    assert_eq!(
        filled(report),
        "胜率分析完成(天梯抓取,patch -):统计 1 场(文明样本 1 场)\n\n文明登场/胜率:\n- rus: 100.0% (1/1) 登场率 100.0%\n- french: 0.0% (0/1) 登场率 100.0%\n\n文明对阵胜率(前 20):\n- rus_vs_french: 100.00% (1/1)\n\n知识库已更新:/kb/knowledge.json\n已统计 A 的比赛\n"
    );
}

#[test]
fn as_many_games_are_looked_at_as_are_asked_for() {
    let page = |from: usize| {
        let games: Vec<String> = (from..from + 50)
            .map(|i| played(if i < 30 { "win" } else { "loss" }, "rus", "Dry", &format!("t{i}")))
            .collect();
        doc(&format!("{{\"games\": [{}]}}", games.join(",")))
    };
    let mut reader = GameReader::new(75);
    reader.take_page(&page(0));
    assert!(reader.open);
    reader.take_page(&page(50));
    assert!(!reader.open);
    assert_eq!(reader.games.len(), 100);
    let text = filled(analyze_player(7, &Json::Null, &reader.games, 75));
    assert!(text.contains("近 75 场(截至 t74):胜率 40.0% (30胜/45负);当前30 连胜;最长连胜 30;最长连败 45\n"));
}

#[test]
fn the_longest_runs_are_the_greatest_and_the_least_of_all() {
    let list = |results: &[&str]| {
        let games: Vec<Json> = results
            .iter()
            .map(|r| doc(&played(r, "rus", "Dry", "t")))
            .collect();
        filled(analyze_player(7, &Json::Null, &games, 50))
    };
    assert!(list(&["win", "win"]).contains("当前2 连胜;最长连胜 2;最长连败 2\n"));
    assert!(list(&["loss", "loss", "loss"]).contains("当前3 连败;最长连胜 -3;最长连败 3\n"));
    assert!(list(&["win", "loss", "loss"]).contains("当前1 连胜;最长连胜 1;最长连败 2\n"));
}

#[test]
fn civilizations_and_maps_stand_by_their_share_of_wins() {
    let mut games: Vec<Json> = Vec::new();
    let mut add = |result: &str, civ: &str, map: &str, n: usize| {
        for _ in 0..n {
            games.push(doc(&played(result, civ, map, "t")));
        }
    };
    add("win", "rus", "Dry", 3);
    add("loss", "rus", "Dry", 3);
    add("win", "french", "Wet", 2);
    add("win", "english", "Old", 1);
    add("loss", "english", "Old", 1);
    let text = filled(analyze_player(7, &Json::Null, &games, 50));
    assert!(text.contains(
        "文明表现(按胜率,≥2 场):\n- 文明 french: 100% (2/2)\n- 文明 english: 50% (1/2)\n- 文明 rus: 50% (3/6)\n"
    ));
    assert!(text.contains(
        "地图表现(按胜率,≥2 场):\n- 地图 Wet: 100% (2/2)\n- 地图 Old: 50% (1/2)\n- 地图 Dry: 50% (3/6)\n"
    ));
}

#[test]
fn plain_queries_are_read_in_lower_case() {
    let blank = kb_lookup(" \t", &kb(), &KnowledgeFile::Missing);
    assert!(matches!(blank, Err(ToolError::EmptyQuery)));
    let text = filled(kb_lookup(" FRENCH ", &kb(), &KnowledgeFile::Missing).unwrap());
    assert!(text.contains("【文明】french / 法兰西"));
    assert!(!text.contains("【文明】english"));
}

#[test]
fn requests_wait_for_the_rest_of_the_interval() {
    assert_eq!(throttle_wait(Some(200_000_000)), 1_000_000_000);
}
