//! The tools that the service offers, and what each call asks for.

use super::error::{Argument, ToolError};
use super::knowledge;
use super::player;
use super::share::{self, FullGamePlan};
use crate::json::{self, Doc, Fields, Items, Json};
use crate::text;
use vstd::prelude::*;

verus! {

/// What is said of `search_players`.
pub const SEARCH_PLAYERS_ABOUT: &'static str = "在 AOE4World 按昵称搜索玩家，返回 profile_id、天梯分、最近比赛时间等。";

/// What is said of `get_player`.
pub const GET_PLAYER_ABOUT: &'static str = "获取玩家资料:各模式 rating、排名、历史赛季、胜场等。";

/// What is said of `get_player_games`.
pub const GET_PLAYER_GAMES_ABOUT: &'static str = "获取玩家最近对局列表,含地图、文明、胜负、rating 变化、对手信息。";

/// What is said of `analyze_player`.
pub const ANALYZE_PLAYER_ABOUT: &'static str = "玩家历史分析:各模式 rating/排名/胜负,加最近 N 场的胜率、常用与高胜率文明、地图表现、连胜连败。输出结构化报告供 further 分析。";

/// What is said of `get_game`.
pub const GET_GAME_ABOUT: &'static str = "获取单场对局详情:双方文明、rating、MMR、时长、版本等。";

/// What is said of `analyze_game`.
pub const ANALYZE_GAME_ABOUT: &'static str = "对局速览:仅阵容(玩家/文明/rating 变化)、地图、时长、版本、胜负。只有用户明确只要\"简单看看阵容/谁跟谁打\"时才用本工具;任何\"分析战报/分析这局/分析对局/战报分析\"及 /分析战报 类请求一律用 analyze_game_full 深度版,不要用本工具凑合。";

/// What is said of `get_leaderboard`.
pub const GET_LEADERBOARD_ABOUT: &'static str = "获取天梯排行。board: rm_solo(1v1)、rm_team(组队)等。";

/// What is said of `analyze_win_rates`.
pub const ANALYZE_WIN_RATES_ABOUT: &'static str = "统计各文明胜率、文明对阵胜率、登场率,写入本地知识库供 get_meta 查询。优先使用站点官方聚合数据(2 个请求、全量样本),不可用时降级为抓取天梯玩家近期对局(top_players/games_per_player 仅降级路径生效)。30 分钟内已有结果时直接复用,确需重抓传 force=true;站点限流严格,不要为绕过限流反复调用。";

/// What is said of `get_meta`.
pub const GET_META_ABOUT: &'static str = "读取本地知识库里最新的打法/胜率分析结果。civilization 可传文明英文 id(如 english、french、zhu_xi_legacy),不传返回全部。";

/// What is said of `civ_stats`.
pub const CIV_STATS_ABOUT: &'static str = "文明胜率排行,支持段位维度。rank_level 缺省为全段位,可选 conqueror/diamond/platinum/gold/silver/bronze;board 缺省 rm_solo。中英文文明名混用均可。";

/// What is said of `kb_lookup`.
pub const KB_LOOKUP_ABOUT: &'static str = "AOE4 知识库查询:文明特性、兵种属性与克制关系、中英文/别名互查,并合并当前版本胜率。用户问\"XX怕什么/XX克制谁/XX文明怎么样/XX是什么\"等兵种或文明问题时必须调用,不要凭记忆回答(版本在变)。query 传中文名(如 皇家骑士/法兰西)或英文 id(如 royal_knight/french)。";

/// What is said of `screenshot_stats`.
pub const SCREENSHOT_STATS_ABOUT: &'static str = "截取 aoe4world 统计页面的官方原图并以图片形式发到对话。用户要\"胜率表截图/对阵网格图/热力图/发张图看看\"等任何要图的场景,必须调用本工具。path 支持 stats/rm_solo/matchups、stats/rm_solo/civilizations 等(stats/{board}/matchups|civilizations|maps);board 可换模式;支持查询参数如 rank_level=conqueror。热力网格在页面下方,height 建议 4000+。若截图失败报错,降级调用 civ_stats 以文字+表格给出胜率数据,并向用户说明截图暂时不可用。";

/// What is said of `analyze_game_full`.
pub const ANALYZE_GAME_FULL_ABOUT: &'static str = "深度战报(默认战报入口):用户说\"分析战报/分析这局/分析对局/战报分析\"或 /分析战报 时必须调用本工具,严禁凭旧对话记忆回答或用网页抓取凑合。链接带 sig 时输出全维度官方数据:每玩家 APM/击杀/战损/生产、Comparison 四维分数(经济/军事/科技/社会)、资源采集细分、时代升级 timing(封建/城堡/帝王)、Build Order 建造出兵序列、MVP 与战犯候选;无 sig 自动降级为 API 战报。本工具已内置节流/缓存/退避,历史 429 不代表现在失败,必须实际调用。只用用户分享的链接,禁止批量抓取。";

/// What is said of `update_knowledge`.
pub const UPDATE_KNOWLEDGE_ABOUT: &'static str = "更新本地知识数据:重新拉取当前版本官方胜率(全段位+各段位),报告知识库各部分的版本与数据年龄。用户要求更新或查询结果显示数据过期时调用。";

/// A parameter that is a text.
pub open spec fn text_param(about: Option<Seq<char>>) -> Doc {
    let plain = json::fields().push(("type"@, Doc::Text("string"@)));
    Doc::Object(
        match about {
            Some(a) => plain.push(("description"@, Doc::Text(a))),
            None => plain,
        },
    )
}

fn text_json(about: Option<&str>) -> (r: Json)
    ensures
        r@ == text_param(text::opt_str(about)),
{
    let plain = Fields::new().with("type", json::string("string"));
    match about {
        Some(a) => plain.with("description", json::string(a)).build(),
        None => plain.build(),
    }
}

/// A parameter that is one of some texts.
pub open spec fn choice_param(choices: Seq<Doc>) -> Doc {
    Doc::Object(
        json::fields().push(("type"@, Doc::Text("string"@))).push(("enum"@, Doc::Array(choices))),
    )
}

fn choice_json(choices: Items) -> (r: Json)
    ensures
        r@ == choice_param(choices@),
{
    Fields::new().with("type", json::string("string")).with("enum", choices.build()).build()
}

/// A parameter that is an integer.
pub open spec fn integer_param(
    least: Option<u64>,
    greatest: Option<u64>,
    about: Option<Seq<char>>,
) -> Doc {
    let plain = json::fields().push(("type"@, Doc::Text("integer"@)));
    let from = match least {
        Some(n) => plain.push(("minimum"@, Doc::Unsigned(n))),
        None => plain,
    };
    let to = match greatest {
        Some(n) => from.push(("maximum"@, Doc::Unsigned(n))),
        None => from,
    };
    Doc::Object(
        match about {
            Some(a) => to.push(("description"@, Doc::Text(a))),
            None => to,
        },
    )
}

fn integer_json(least: Option<u64>, greatest: Option<u64>, about: Option<&str>) -> (r: Json)
    ensures
        r@ == integer_param(least, greatest, text::opt_str(about)),
{
    let plain = Fields::new().with("type", json::string("integer"));
    let from = match least {
        Some(n) => plain.with("minimum", Json::Unsigned(n)),
        None => plain,
    };
    let to = match greatest {
        Some(n) => from.with("maximum", Json::Unsigned(n)),
        None => from,
    };
    match about {
        Some(a) => to.with("description", json::string(a)).build(),
        None => to.build(),
    }
}

/// A parameter that is a truth value.
pub open spec fn truth_param(about: Seq<char>) -> Doc {
    Doc::Object(
        json::fields().push(("type"@, Doc::Text("boolean"@))).push(
            ("description"@, Doc::Text(about)),
        ),
    )
}

fn truth_json(about: &str) -> (r: Json)
    ensures
        r@ == truth_param(about@),
{
    Fields::new().with("type", json::string("boolean")).with(
        "description",
        json::string(about),
    ).build()
}

/// A tool: its name, what is said of it, its parameters, and the one that a call has to have.
pub open spec fn tool(
    name: Seq<char>,
    about: Seq<char>,
    params: Seq<(Seq<char>, Doc)>,
    required: Option<Seq<char>>,
) -> Doc {
    let open = json::fields().push(("type"@, Doc::Text("object"@))).push(
        ("properties"@, Doc::Object(params)),
    );
    let schema = match required {
        Some(r) => open.push(("required"@, Doc::Array(json::items().push(Doc::Text(r))))),
        None => open,
    };
    Doc::Object(
        json::fields().push(("name"@, Doc::Text(name))).push(
            ("description"@, Doc::Text(about)),
        ).push(("inputSchema"@, Doc::Object(schema))),
    )
}

fn tool_json(name: &str, about: &str, params: Fields, required: Option<&str>) -> (r: Json)
    ensures
        r@ == tool(name@, about@, params@, text::opt_str(required)),
{
    let open = Fields::new().with("type", json::string("object")).with(
        "properties",
        params.build(),
    );
    let schema = match required {
        Some(r) => open.with("required", Items::new().with(json::string(r)).build()),
        None => open,
    };
    Fields::new().with("name", json::string(name)).with("description", json::string(about)).with(
        "inputSchema",
        schema.build(),
    ).build()
}

/// The modes that games are ranked in.
pub open spec fn all_boards() -> Seq<Doc> {
    json::items().push(Doc::Text("rm_solo"@)).push(Doc::Text("rm_team"@)).push(
        Doc::Text("qm_1v1"@),
    ).push(Doc::Text("qm_2v2"@)).push(Doc::Text("qm_3v3"@)).push(Doc::Text("qm_4v4"@))
}

fn boards() -> (r: Items)
    ensures
        r@ == all_boards(),
{
    Items::new().with(json::string("rm_solo")).with(json::string("rm_team")).with(
        json::string("qm_1v1"),
    ).with(json::string("qm_2v2")).with(json::string("qm_3v3")).with(json::string("qm_4v4"))
}

/// The tool `search_players`.
pub open spec fn search_players_tool() -> Doc {
    tool(
        "search_players"@,
        SEARCH_PLAYERS_ABOUT@,
        json::fields()
            .push(("query"@, text_param(Some("玩家昵称关键词"@))))
            .push(("page"@, integer_param(Some(1u64), None, None))),
        Some("query"@),
    )
}

fn search_players_json() -> (r: Json)
    ensures
        r@ == search_players_tool(),
{
    tool_json(
        "search_players",
        SEARCH_PLAYERS_ABOUT,
        Fields::new()
            .with("query", text_json(Some("玩家昵称关键词")))
            .with("page", integer_json(Some(1u64), None, None)),
        Some("query"),
    )
}

/// The tool `get_player`.
pub open spec fn get_player_tool() -> Doc {
    tool(
        "get_player"@,
        GET_PLAYER_ABOUT@,
        json::fields()
            .push(("profile_id"@, integer_param(None, None, None))),
        Some("profile_id"@),
    )
}

fn get_player_json() -> (r: Json)
    ensures
        r@ == get_player_tool(),
{
    tool_json(
        "get_player",
        GET_PLAYER_ABOUT,
        Fields::new()
            .with("profile_id", integer_json(None, None, None)),
        Some("profile_id"),
    )
}

/// The tool `get_player_games`.
pub open spec fn get_player_games_tool() -> Doc {
    tool(
        "get_player_games"@,
        GET_PLAYER_GAMES_ABOUT@,
        json::fields()
            .push(("profile_id"@, integer_param(None, None, None)))
            .push(("page"@, integer_param(Some(1u64), None, None)))
            .push(("opponent_profile_id"@, integer_param(None, None, None)))
            .push(("since"@, text_param(Some("ISO8601 时间,只取该时间之后的比赛"@)))),
        Some("profile_id"@),
    )
}

fn get_player_games_json() -> (r: Json)
    ensures
        r@ == get_player_games_tool(),
{
    tool_json(
        "get_player_games",
        GET_PLAYER_GAMES_ABOUT,
        Fields::new()
            .with("profile_id", integer_json(None, None, None))
            .with("page", integer_json(Some(1u64), None, None))
            .with("opponent_profile_id", integer_json(None, None, None))
            .with("since", text_json(Some("ISO8601 时间,只取该时间之后的比赛"))),
        Some("profile_id"),
    )
}

/// The tool `analyze_player`.
pub open spec fn analyze_player_tool() -> Doc {
    tool(
        "analyze_player"@,
        ANALYZE_PLAYER_ABOUT@,
        json::fields()
            .push(("profile_id"@, integer_param(None, None, None)))
            .push(("games_limit"@, integer_param(None, None, Some("回溯场数,默认 50,最大 200"@)))),
        Some("profile_id"@),
    )
}

fn analyze_player_json() -> (r: Json)
    ensures
        r@ == analyze_player_tool(),
{
    tool_json(
        "analyze_player",
        ANALYZE_PLAYER_ABOUT,
        Fields::new()
            .with("profile_id", integer_json(None, None, None))
            .with("games_limit", integer_json(None, None, Some("回溯场数,默认 50,最大 200"))),
        Some("profile_id"),
    )
}

/// The tool `get_game`.
pub open spec fn get_game_tool() -> Doc {
    tool(
        "get_game"@,
        GET_GAME_ABOUT@,
        json::fields()
            .push(("game_id"@, integer_param(None, None, None))),
        Some("game_id"@),
    )
}

fn get_game_json() -> (r: Json)
    ensures
        r@ == get_game_tool(),
{
    tool_json(
        "get_game",
        GET_GAME_ABOUT,
        Fields::new()
            .with("game_id", integer_json(None, None, None)),
        Some("game_id"),
    )
}

/// The tool `analyze_game`.
pub open spec fn analyze_game_tool() -> Doc {
    tool(
        "analyze_game"@,
        ANALYZE_GAME_ABOUT@,
        json::fields()
            .push(("game_id"@, integer_param(None, None, None))),
        Some("game_id"@),
    )
}

fn analyze_game_json() -> (r: Json)
    ensures
        r@ == analyze_game_tool(),
{
    tool_json(
        "analyze_game",
        ANALYZE_GAME_ABOUT,
        Fields::new()
            .with("game_id", integer_json(None, None, None)),
        Some("game_id"),
    )
}

/// The tool `get_leaderboard`.
pub open spec fn get_leaderboard_tool() -> Doc {
    tool(
        "get_leaderboard"@,
        GET_LEADERBOARD_ABOUT@,
        json::fields()
            .push(("board"@, choice_param(all_boards())))
            .push(("page"@, integer_param(Some(1u64), None, None))),
        None,
    )
}

fn get_leaderboard_json() -> (r: Json)
    ensures
        r@ == get_leaderboard_tool(),
{
    tool_json(
        "get_leaderboard",
        GET_LEADERBOARD_ABOUT,
        Fields::new()
            .with("board", choice_json(boards()))
            .with("page", integer_json(Some(1u64), None, None)),
        None,
    )
}

/// The tool `analyze_win_rates`.
pub open spec fn analyze_win_rates_tool() -> Doc {
    tool(
        "analyze_win_rates"@,
        ANALYZE_WIN_RATES_ABOUT@,
        json::fields()
            .push(("board"@, choice_param(json::items().push(Doc::Text("rm_solo"@)).push(Doc::Text("rm_team"@)))))
            .push(("top_players"@, integer_param(Some(1u64), Some(50u64), None)))
            .push(("games_per_player"@, integer_param(Some(1u64), Some(200u64), None)))
            .push(("force"@, truth_param("忽略 30 分钟新鲜度窗口,强制重新统计"@))),
        None,
    )
}

fn analyze_win_rates_json() -> (r: Json)
    ensures
        r@ == analyze_win_rates_tool(),
{
    tool_json(
        "analyze_win_rates",
        ANALYZE_WIN_RATES_ABOUT,
        Fields::new()
            .with("board", choice_json(Items::new().with(json::string("rm_solo")).with(json::string("rm_team"))))
            .with("top_players", integer_json(Some(1u64), Some(50u64), None))
            .with("games_per_player", integer_json(Some(1u64), Some(200u64), None))
            .with("force", truth_json("忽略 30 分钟新鲜度窗口,强制重新统计")),
        None,
    )
}

/// The tool `get_meta`.
pub open spec fn get_meta_tool() -> Doc {
    tool(
        "get_meta"@,
        GET_META_ABOUT@,
        json::fields()
            .push(("civilization"@, text_param(None))),
        None,
    )
}

fn get_meta_json() -> (r: Json)
    ensures
        r@ == get_meta_tool(),
{
    tool_json(
        "get_meta",
        GET_META_ABOUT,
        Fields::new()
            .with("civilization", text_json(None)),
        None,
    )
}

/// The tool `civ_stats`.
pub open spec fn civ_stats_tool() -> Doc {
    tool(
        "civ_stats"@,
        CIV_STATS_ABOUT@,
        json::fields()
            .push(("board"@, choice_param(all_boards())))
            .push(("rank_level"@, text_param(Some("段位过滤,缺省全段位"@))))
            .push(("patch"@, text_param(None))),
        None,
    )
}

fn civ_stats_json() -> (r: Json)
    ensures
        r@ == civ_stats_tool(),
{
    tool_json(
        "civ_stats",
        CIV_STATS_ABOUT,
        Fields::new()
            .with("board", choice_json(boards()))
            .with("rank_level", text_json(Some("段位过滤,缺省全段位")))
            .with("patch", text_json(None)),
        None,
    )
}

/// The tool `kb_lookup`.
pub open spec fn kb_lookup_tool() -> Doc {
    tool(
        "kb_lookup"@,
        KB_LOOKUP_ABOUT@,
        json::fields()
            .push(("query"@, text_param(None))),
        Some("query"@),
    )
}

fn kb_lookup_json() -> (r: Json)
    ensures
        r@ == kb_lookup_tool(),
{
    tool_json(
        "kb_lookup",
        KB_LOOKUP_ABOUT,
        Fields::new()
            .with("query", text_json(None)),
        Some("query"),
    )
}

/// The tool `screenshot_stats`.
pub open spec fn screenshot_stats_tool() -> Doc {
    tool(
        "screenshot_stats"@,
        SCREENSHOT_STATS_ABOUT@,
        json::fields()
            .push(("path"@, text_param(Some("站点相对路径,如 stats/rm_solo/matchups"@))))
            .push(("height"@, integer_param(None, None, Some("画布高度,默认 2400;要完整网格取 4000+"@)))),
        Some("path"@),
    )
}

fn screenshot_stats_json() -> (r: Json)
    ensures
        r@ == screenshot_stats_tool(),
{
    tool_json(
        "screenshot_stats",
        SCREENSHOT_STATS_ABOUT,
        Fields::new()
            .with("path", text_json(Some("站点相对路径,如 stats/rm_solo/matchups")))
            .with("height", integer_json(None, None, Some("画布高度,默认 2400;要完整网格取 4000+"))),
        Some("path"),
    )
}

/// The tool `analyze_game_full`.
pub open spec fn analyze_game_full_tool() -> Doc {
    tool(
        "analyze_game_full"@,
        ANALYZE_GAME_FULL_ABOUT@,
        json::fields()
            .push(("share_url"@, text_param(Some("用户分享的对局链接(带 sig 则出深度版)"@))))
            .push(("profile_id"@, integer_param(None, None, Some("或分别传:玩家 id"@))))
            .push(("game_id"@, integer_param(None, None, None)))
            .push(("sig"@, text_param(None))),
        None,
    )
}

fn analyze_game_full_json() -> (r: Json)
    ensures
        r@ == analyze_game_full_tool(),
{
    tool_json(
        "analyze_game_full",
        ANALYZE_GAME_FULL_ABOUT,
        Fields::new()
            .with("share_url", text_json(Some("用户分享的对局链接(带 sig 则出深度版)")))
            .with("profile_id", integer_json(None, None, Some("或分别传:玩家 id")))
            .with("game_id", integer_json(None, None, None))
            .with("sig", text_json(None)),
        None,
    )
}

/// The tool `update_knowledge`.
pub open spec fn update_knowledge_tool() -> Doc {
    tool(
        "update_knowledge"@,
        UPDATE_KNOWLEDGE_ABOUT@,
        json::fields(),
        None,
    )
}

fn update_knowledge_json() -> (r: Json)
    ensures
        r@ == update_knowledge_tool(),
{
    tool_json(
        "update_knowledge",
        UPDATE_KNOWLEDGE_ABOUT,
        Fields::new(),
        None,
    )
}

/// The tools, in the order in which they are listed.
pub open spec fn all_tools() -> Seq<Doc> {
    json::items()
        .push(search_players_tool())
        .push(get_player_tool())
        .push(get_player_games_tool())
        .push(analyze_player_tool())
        .push(get_game_tool())
        .push(analyze_game_tool())
        .push(get_leaderboard_tool())
        .push(analyze_win_rates_tool())
        .push(get_meta_tool())
        .push(civ_stats_tool())
        .push(kb_lookup_tool())
        .push(screenshot_stats_tool())
        .push(analyze_game_full_tool())
        .push(update_knowledge_tool())
}

/// The list of the tools.
pub open spec fn tools_doc() -> Doc {
    Doc::Object(json::fields().push(("tools"@, Doc::Array(all_tools()))))
}

/// The list of the tools.
pub fn tools_list() -> (r: Json)
    ensures
        r@ == tools_doc(),
{
    let all = Items::new()
        .with(search_players_json())
        .with(get_player_json())
        .with(get_player_games_json())
        .with(analyze_player_json())
        .with(get_game_json())
        .with(analyze_game_json())
        .with(get_leaderboard_json())
        .with(analyze_win_rates_json())
        .with(get_meta_json())
        .with(civ_stats_json())
        .with(kb_lookup_json())
        .with(screenshot_stats_json())
        .with(analyze_game_full_json())
        .with(update_knowledge_json());
    Fields::new().with("tools", all.build()).build()
}

/// The names of the tools, in the order in which they are listed.
pub open spec fn tool_names() -> Seq<Seq<char>> {
    Seq::empty()
        .push("search_players"@)
        .push("get_player"@)
        .push("get_player_games"@)
        .push("analyze_player"@)
        .push("get_game"@)
        .push("analyze_game"@)
        .push("get_leaderboard"@)
        .push("analyze_win_rates"@)
        .push("get_meta"@)
        .push("civ_stats"@)
        .push("kb_lookup"@)
        .push("screenshot_stats"@)
        .push("analyze_game_full"@)
        .push("update_knowledge"@)
}

/// What a call asks for.
#[derive(Debug)]
pub enum ToolRequest {
    /// A page of players, at this path.
    Search { path: String },
    /// A player's profile, at this path.
    Player { path: String },
    /// A page of a player's games, at this path.
    PlayerGames { path: String },
    /// A game, at this path.
    Game { path: String },
    /// A report on a game, at this path.
    AnalyzeGame { game: i64, path: String },
    /// A report on a player over so many games.
    AnalyzePlayer { player: i64, limit: usize },
    /// A page of the ladder, at this path.
    Leaderboard { path: String },
    /// How civilizations fare.
    WinRates { board: String, top: usize, per: usize, force: bool },
    /// What was gathered earlier.
    Meta { civ: Option<String> },
    /// The site's statistics, at this path.
    CivStats { board: String, path: String },
    /// The bundled knowledge.
    Lookup { query: String },
    /// A full report on a game.
    FullGame(FullGamePlan),
    /// Newly gathered statistics.
    Update,
}

/// A number within limits.
pub open spec fn within(n: int, least: int, greatest: int) -> int {
    if n < least {
        least
    } else if n > greatest {
        greatest
    } else {
        n
    }
}

fn clamp(n: i64, least: i64, greatest: i64) -> (r: i64)
    ensures
        r == within(n as int, least as int, greatest as int),
{
    if n < least {
        least
    } else if n > greatest {
        greatest
    } else {
        n
    }
}

/// The path of a search.
pub open spec fn search_path(args: Doc) -> Seq<char> {
    "/players/search?query="@ + args.text_or("query"@, ""@) + "&page="@ + text::signed(
        args.integer_or("page"@, 1) as int,
    )
}

/// The path of a page of games.
pub open spec fn games_page_path(id: int, args: Doc) -> Seq<char> {
    let base = player::games_path(id, args.integer_or("page"@, 1) as int);
    let against = match args.integer_at("opponent_profile_id"@) {
        Some(o) => base + ("&opponent_profile_id="@ + text::signed(o as int)),
        None => base,
    };
    match args.text_at("since"@) {
        Some(s) => against + ("&since="@ + s),
        None => against,
    }
}

/// The path of a page of the ladder.
pub open spec fn ladder_page_path(args: Doc) -> Seq<char> {
    "/leaderboards/"@ + args.text_or("board"@, "rm_solo"@) + "?page="@ + text::signed(
        args.integer_or("page"@, 1) as int,
    )
}

/// Whether `r` refuses a call for want of `a`.
pub open spec fn lacks(r: Result<ToolRequest, ToolError>, a: Argument) -> bool {
    r matches Err(ToolError::Missing(b)) && a == b
}

/// The text of the member `key`, if it is one.
fn owned_text(args: &Json, key: &str) -> (r: Option<String>)
    ensures
        text::opt(r) == args@.text_at(key@),
{
    match args.text_at(key) {
        Some(t) => Some(t.to_owned()),
        None => None,
    }
}

fn plan_player_games(args: &Json) -> (r: Result<ToolRequest, ToolError>)
    ensures
        match args@.integer_at("profile_id"@) {
            Some(id) => r matches Ok(ToolRequest::PlayerGames { path }) && path@
                == games_page_path(id as int, args@),
            None => lacks(r, Argument::ProfileId),
        },
{
    match args.integer_at("profile_id") {
        Some(id) => {
            let mut path = player::player_games_path(id, args.integer_or("page", 1));
            match args.integer_at("opponent_profile_id") {
                Some(o) => {
                    path.append(
                        text::cat2(
                            "&opponent_profile_id=",
                            text::signed_text(o as i128).as_str(),
                        ).as_str(),
                    );
                },
                None => {},
            }
            match args.text_at("since") {
                Some(s) => {
                    path.append(text::cat2("&since=", s).as_str());
                },
                None => {},
            }
            Ok(ToolRequest::PlayerGames { path })
        },
        None => Err(ToolError::Missing(Argument::ProfileId)),
    }
}

fn plan_win_rates(args: &Json) -> (r: ToolRequest)
    ensures
        r matches ToolRequest::WinRates { board, top, per, force } && {
            &&& board@ == args@.text_or("board"@, "rm_solo"@)
            &&& top == within(args@.integer_or("top_players"@, 10) as int, 1, 50)
            &&& per == within(args@.integer_or("games_per_player"@, 50) as int, 1, 200)
            &&& force == (args@.truth_at("force"@) == Some(true))
        },
{
    let force = match args.truth_at("force") {
        Some(b) => b,
        None => false,
    };
    ToolRequest::WinRates {
        board: args.text_or("board", "rm_solo").to_owned(),
        top: clamp(args.integer_or("top_players", 10), 1, 50) as usize,
        per: clamp(args.integer_or("games_per_player", 50), 1, 200) as usize,
        force,
    }
}

fn plan_full(args: &Json) -> (r: Result<ToolRequest, ToolError>)
    ensures
        match share::named_game(
            args@.text_at("share_url"@),
            args@.integer_at("profile_id"@),
            args@.integer_at("game_id"@),
            args@.text_at("sig"@),
        ) {
            Some((p, g, Some(s))) => r matches Ok(
                ToolRequest::FullGame(FullGamePlan::Summary { game, path }),
            ) && game == g && path@ == share::summary_path(p, g, s),
            Some((p, g, None)) => r matches Ok(
                ToolRequest::FullGame(FullGamePlan::Entry { game, path }),
            ) && game == g && path@ == share::entry_path(g),
            None => if args@.text_at("share_url"@) is Some {
                r matches Err(ToolError::BadShareLink)
            } else {
                r matches Err(ToolError::NoGameNamed)
            },
        },
{
    match share::plan_full_game(
        args.text_at("share_url"),
        args.integer_at("profile_id"),
        args.integer_at("game_id"),
        args.text_at("sig"),
    ) {
        Ok(p) => Ok(ToolRequest::FullGame(p)),
        Err(e) => Err(e),
    }
}

/// The answer to a call of the tool `name` with `args`.
pub open spec fn call_planned(
    name: Seq<char>,
    args: Doc,
    r: Result<ToolRequest, ToolError>,
) -> bool {
    if name == "search_players"@ {
        r matches Ok(ToolRequest::Search { path }) && path@ == search_path(args)
    } else if name == "get_player"@ {
        match args.integer_at("profile_id"@) {
            Some(id) => r matches Ok(ToolRequest::Player { path }) && path@
                == player::profile_path(id as int),
            None => lacks(r, Argument::ProfileId),
        }
    } else if name == "get_player_games"@ {
        match args.integer_at("profile_id"@) {
            Some(id) => r matches Ok(ToolRequest::PlayerGames { path }) && path@
                == games_page_path(id as int, args),
            None => lacks(r, Argument::ProfileId),
        }
    } else if name == "get_game"@ {
        match args.integer_at("game_id"@) {
            Some(id) => r matches Ok(ToolRequest::Game { path }) && path@ == share::entry_path(
                id as int,
            ),
            None => lacks(r, Argument::GameId),
        }
    } else if name == "analyze_game"@ {
        match args.integer_at("game_id"@) {
            Some(id) => r matches Ok(ToolRequest::AnalyzeGame { game, path }) && game == id && path@
                == share::entry_path(id as int),
            None => lacks(r, Argument::GameId),
        }
    } else if name == "analyze_player"@ {
        match args.integer_at("profile_id"@) {
            Some(id) => r matches Ok(ToolRequest::AnalyzePlayer { player, limit }) && player == id
                && limit == within(args.integer_or("games_limit"@, 50) as int, 1, 200),
            None => lacks(r, Argument::ProfileId),
        }
    } else if name == "get_leaderboard"@ {
        r matches Ok(ToolRequest::Leaderboard { path }) && path@ == ladder_page_path(args)
    } else if name == "analyze_win_rates"@ {
        r matches Ok(ToolRequest::WinRates { board, top, per, force }) && {
            &&& board@ == args.text_or("board"@, "rm_solo"@)
            &&& top == within(args.integer_or("top_players"@, 10) as int, 1, 50)
            &&& per == within(args.integer_or("games_per_player"@, 50) as int, 1, 200)
            &&& force == (args.truth_at("force"@) == Some(true))
        }
    } else if name == "get_meta"@ {
        r matches Ok(ToolRequest::Meta { civ }) && text::opt(civ) == args.text_at("civilization"@)
    } else if name == "civ_stats"@ {
        r matches Ok(ToolRequest::CivStats { board, path }) && {
            &&& board@ == args.text_or("board"@, "rm_solo"@)
            &&& path@ == knowledge::civ_stats_path(
                board@,
                args.text_at("rank_level"@),
                args.text_at("patch"@),
            )
        }
    } else if name == "kb_lookup"@ {
        r matches Ok(ToolRequest::Lookup { query }) && query@ == args.text_or("query"@, ""@)
    } else if name == "analyze_game_full"@ {
        match share::named_game(
            args.text_at("share_url"@),
            args.integer_at("profile_id"@),
            args.integer_at("game_id"@),
            args.text_at("sig"@),
        ) {
            Some((p, g, Some(s))) => r matches Ok(
                ToolRequest::FullGame(FullGamePlan::Summary { game, path }),
            ) && game == g && path@ == share::summary_path(p, g, s),
            Some((p, g, None)) => r matches Ok(
                ToolRequest::FullGame(FullGamePlan::Entry { game, path }),
            ) && game == g && path@ == share::entry_path(g),
            None => if args.text_at("share_url"@) is Some {
                r matches Err(ToolError::BadShareLink)
            } else {
                r matches Err(ToolError::NoGameNamed)
            },
        }
    } else if name == "update_knowledge"@ {
        r matches Ok(ToolRequest::Update)
    } else {
        r matches Err(ToolError::UnknownTool(n)) && n@ == name
    }
}

/// What a call of the tool `name` with `args` asks for.
pub fn call_tool(name: &str, args: &Json) -> (r: Result<ToolRequest, ToolError>)
    ensures
        call_planned(name@, args@, r),
{
    if text::same(name, "search_players") {
        Ok(
            ToolRequest::Search {
                path: text::cat4(
                    "/players/search?query=",
                    args.text_or("query", ""),
                    "&page=",
                    text::signed_text(args.integer_or("page", 1) as i128).as_str(),
                ),
            },
        )
    } else if text::same(name, "get_player") {
        match args.integer_at("profile_id") {
            Some(id) => Ok(ToolRequest::Player { path: player::player_path(id) }),
            None => Err(ToolError::Missing(Argument::ProfileId)),
        }
    } else if text::same(name, "get_player_games") {
        plan_player_games(args)
    } else if text::same(name, "get_game") {
        match args.integer_at("game_id") {
            Some(id) => Ok(ToolRequest::Game { path: share::game_path(id) }),
            None => Err(ToolError::Missing(Argument::GameId)),
        }
    } else if text::same(name, "analyze_game") {
        match args.integer_at("game_id") {
            Some(id) => Ok(ToolRequest::AnalyzeGame { game: id, path: share::game_path(id) }),
            None => Err(ToolError::Missing(Argument::GameId)),
        }
    } else if text::same(name, "analyze_player") {
        match args.integer_at("profile_id") {
            Some(id) => Ok(
                ToolRequest::AnalyzePlayer {
                    player: id,
                    limit: clamp(args.integer_or("games_limit", 50), 1, 200) as usize,
                },
            ),
            None => Err(ToolError::Missing(Argument::ProfileId)),
        }
    } else if text::same(name, "get_leaderboard") {
        Ok(
            ToolRequest::Leaderboard {
                path: text::cat4(
                    "/leaderboards/",
                    args.text_or("board", "rm_solo"),
                    "?page=",
                    text::signed_text(args.integer_or("page", 1) as i128).as_str(),
                ),
            },
        )
    } else if text::same(name, "analyze_win_rates") {
        Ok(plan_win_rates(args))
    } else if text::same(name, "get_meta") {
        Ok(ToolRequest::Meta { civ: owned_text(args, "civilization") })
    } else if text::same(name, "civ_stats") {
        let board = args.text_or("board", "rm_solo");
        Ok(
            ToolRequest::CivStats {
                board: board.to_owned(),
                path: knowledge::civ_statistics_path(
                    board,
                    args.text_at("rank_level"),
                    args.text_at("patch"),
                ),
            },
        )
    } else if text::same(name, "kb_lookup") {
        Ok(ToolRequest::Lookup { query: args.text_or("query", "").to_owned() })
    } else if text::same(name, "analyze_game_full") {
        plan_full(args)
    } else if text::same(name, "update_knowledge") {
        Ok(ToolRequest::Update)
    } else {
        Err(ToolError::UnknownTool(name.to_owned()))
    }
}

proof fn lemma_tool_name(
    name: Seq<char>,
    about: Seq<char>,
    params: Seq<(Seq<char>, Doc)>,
    required: Option<Seq<char>>,
)
    ensures
        tool(name, about, params, required).text_at("name"@) == Some(name),
{
    let ms = tool(name, about, params, required)->Object_0;
    assert(ms[0] == ("name"@, Doc::Text(name)));
    assert(json::member_from(ms, "name"@, 0) == Some(Doc::Text(name)));
}

/// The listed tools bear the names that are given for them, in the same order.
pub proof fn lemma_listed_names(i: int)
    requires
        0 <= i < tool_names().len(),
    ensures
        all_tools().len() == tool_names().len(),
        all_tools()[i].text_at("name"@) == Some(tool_names()[i]),
{
    assert forall|name: Seq<char>, about: Seq<char>, params: Seq<(Seq<char>, Doc)>, required: Option<
        Seq<char>,
    >|
        #[trigger] tool(name, about, params, required).text_at("name"@) == Some(name) by {
        lemma_tool_name(name, about, params, required);
    }
}

/// No two listed tools bear the same name.
pub proof fn lemma_names_are_distinct(i: int, j: int)
    requires
        0 <= i < j < tool_names().len(),
    ensures
        tool_names()[i] != tool_names()[j],
{
    reveal_strlit("search_players");
    reveal_strlit("get_player");
    reveal_strlit("get_player_games");
    reveal_strlit("analyze_player");
    reveal_strlit("get_game");
    reveal_strlit("analyze_game");
    reveal_strlit("get_leaderboard");
    reveal_strlit("analyze_win_rates");
    reveal_strlit("get_meta");
    reveal_strlit("civ_stats");
    reveal_strlit("kb_lookup");
    reveal_strlit("screenshot_stats");
    reveal_strlit("analyze_game_full");
    reveal_strlit("update_knowledge");
    // Names of one length differ in their first letter, or in one that is named here.
    let names = tool_names();
    assert(names[4][4] != names[8][4]);
    assert(names[7][8] != names[12][8]);
    assert(names[i].len() != names[j].len() || names[i][0] != names[j][0] || (i == 4 && j == 8) || (
    i == 7 && j == 12));
}

/// A call of a name is refused as unknown exactly where no tool of that name is listed, but for
/// the tool that takes pictures, which is listed and is refused here: it is called in a way of its
/// own.
pub proof fn lemma_known_names(name: Seq<char>, args: Doc, r: Result<ToolRequest, ToolError>)
    requires
        call_planned(name, args, r),
    ensures
        (r matches Err(ToolError::UnknownTool(_))) <==> !tool_names().contains(name) || name
            == "screenshot_stats"@,
        tool_names().contains("screenshot_stats"@),
{
    let names = tool_names();
    assert(names[0] == "search_players"@);
    assert(names[1] == "get_player"@);
    assert(names[2] == "get_player_games"@);
    assert(names[3] == "analyze_player"@);
    assert(names[4] == "get_game"@);
    assert(names[5] == "analyze_game"@);
    assert(names[6] == "get_leaderboard"@);
    assert(names[7] == "analyze_win_rates"@);
    assert(names[8] == "get_meta"@);
    assert(names[9] == "civ_stats"@);
    assert(names[10] == "kb_lookup"@);
    assert(names[11] == "screenshot_stats"@);
    assert(names[12] == "analyze_game_full"@);
    assert(names[13] == "update_knowledge"@);
    assert forall|i: int| 0 <= i < names.len() && i != 11 implies #[trigger] names[i]
        != "screenshot_stats"@ by {
        if i < 11 {
            lemma_names_are_distinct(i, 11);
        } else {
            lemma_names_are_distinct(11, i);
        }
    }
}

/// A number is kept within its bounds, and is itself where it is within them.
pub proof fn lemma_within(n: int, least: int, greatest: int)
    requires
        least <= greatest,
    ensures
        least <= within(n, least, greatest) <= greatest,
        least <= n <= greatest ==> within(n, least, greatest) == n,
        n < least ==> within(n, least, greatest) == least,
        n > greatest ==> within(n, least, greatest) == greatest,
{
}

/// The path of a page of games asks for an opponent and for a time exactly as they are given.
pub proof fn lemma_games_page_path(id: int, args: Doc)
    ensures
        text::begins(
            games_page_path(id, args),
            "/players/"@ + text::signed(id) + "/games?page="@ + text::signed(
                args.integer_or("page"@, 1) as int,
            ),
        ),
        args.integer_at("opponent_profile_id"@) matches Some(o) ==> text::mentions(
            games_page_path(id, args),
            "&opponent_profile_id="@ + text::signed(o as int),
        ),
        args.text_at("since"@) matches Some(s) ==> text::finishes(
            games_page_path(id, args),
            "&since="@ + s,
        ),
        args.integer_at("opponent_profile_id"@) is None && args.text_at("since"@) is None
            ==> games_page_path(id, args) == player::games_path(
            id,
            args.integer_or("page"@, 1) as int,
        ),
{
    let base = player::games_path(id, args.integer_or("page"@, 1) as int);
    let against = match args.integer_at("opponent_profile_id"@) {
        Some(o) => "&opponent_profile_id="@ + text::signed(o as int),
        None => Seq::empty(),
    };
    let since = match args.text_at("since"@) {
        Some(s) => "&since="@ + s,
        None => Seq::empty(),
    };
    let whole = games_page_path(id, args);
    assert(base + against + since =~= whole);
    text::lemma_mentions_middle(base, against, since);
    assert(whole.subrange(0, base.len() as int) =~= base);
    let from = whole.len() - since.len();
    assert(whole.subrange(from, from + since.len()) =~= since);
}

/// A search asks for what is looked for and for its page, and a ladder for its board and its page;
/// both begin at the first page.
pub proof fn lemma_page_paths(args: Doc)
    ensures
        text::finishes(
            search_path(args),
            "&page="@ + text::signed(args.integer_or("page"@, 1) as int),
        ),
        text::begins(
            search_path(args),
            "/players/search?query="@ + args.text_or("query"@, ""@),
        ),
        text::begins(
            ladder_page_path(args),
            "/leaderboards/"@ + args.text_or("board"@, "rm_solo"@) + "?page="@,
        ),
        text::finishes(
            ladder_page_path(args),
            text::signed(args.integer_or("page"@, 1) as int),
        ),
{
    let n = text::signed(args.integer_or("page"@, 1) as int);
    let s = search_path(args);
    let a = "&page="@ + n;
    let from = s.len() - a.len();
    assert(s.subrange(from, from + a.len()) =~= a);
    let b = "/players/search?query="@ + args.text_or("query"@, ""@);
    assert(s.subrange(0, b.len() as int) =~= b);
    let t = ladder_page_path(args);
    let c = "/leaderboards/"@ + args.text_or("board"@, "rm_solo"@) + "?page="@;
    assert(t.subrange(0, c.len() as int) =~= c);
    let at = t.len() - n.len();
    assert(t.subrange(at, at + n.len()) =~= n);
}

/// A player is looked at over fifty games where no number is asked for, and over one to two hundred
/// as it is; of the ladder one to fifty players are looked at, over one to two hundred games each.
pub proof fn lemma_call_limits(name: &str, args: &Json, r: Result<ToolRequest, ToolError>)
    requires
        call_ensures(call_tool, (name, args), r),
    ensures
        name@ == "analyze_player"@ ==> (r matches Ok(ToolRequest::AnalyzePlayer { player, limit })
            ==> {
            &&& 1 <= limit <= 200
            &&& args@.integer_at("profile_id"@) == Some(player)
            &&& args@.integer_at("games_limit"@) is None ==> limit == 50
            &&& args@.integer_at("games_limit"@) matches Some(n) ==> (1 <= n <= 200 ==> limit == n)
        }),
        name@ == "analyze_win_rates"@ ==> (r matches Ok(
            ToolRequest::WinRates { board, top, per, force },
        ) && {
            &&& 1 <= top <= 50
            &&& 1 <= per <= 200
            &&& args@.integer_at("top_players"@) is None ==> top == 10
            &&& args@.integer_at("games_per_player"@) is None ==> per == 50
            &&& args@.integer_at("top_players"@) matches Some(n) ==> (1 <= n <= 50 ==> top == n)
            &&& args@.integer_at("games_per_player"@) matches Some(n) ==> (1 <= n <= 200 ==> per
                == n)
            &&& force ==> args@.truth_at("force"@) == Some(true)
            &&& args@.truth_at("force"@) == Some(true) ==> force
            &&& args@.text_at("board"@) matches Some(b) ==> board@ == b
            &&& args@.text_at("board"@) is None ==> board@ == "rm_solo"@
        }),
{
    lemma_plain_names(name@);
}

proof fn lemma_plain_names(name: Seq<char>)
    ensures
        name == "analyze_player"@ || name == "analyze_win_rates"@ ==> name != "search_players"@
            && name != "get_player"@ && name != "get_player_games"@ && name != "get_game"@ && name
            != "analyze_game"@,
        name == "analyze_win_rates"@ ==> name != "analyze_player"@ && name != "get_leaderboard"@,
{
    reveal_strlit("search_players");
    reveal_strlit("get_player");
    reveal_strlit("get_player_games");
    reveal_strlit("get_game");
    reveal_strlit("analyze_game");
    reveal_strlit("analyze_player");
    reveal_strlit("analyze_win_rates");
    reveal_strlit("get_leaderboard");
    assert("analyze_player"@.len() == 14 && "analyze_player"@[0] == 'a');
    assert("analyze_win_rates"@.len() == 17);
    assert("search_players"@[0] == 's');
    assert("get_player"@[0] == 'g' && "get_player_games"@[0] == 'g' && "get_game"@[0] == 'g');
    assert("get_leaderboard"@[0] == 'g');
    assert("analyze_game"@.len() == 12);
}

/// A tool that needs a player or a game is refused without it, and what lacks is named.
pub proof fn lemma_missing_arguments(name: &str, args: &Json, r: Result<ToolRequest, ToolError>)
    requires
        call_ensures(call_tool, (name, args), r),
    ensures
        (name@ == "get_player"@ || name@ == "get_player_games"@ || name@ == "analyze_player"@)
            && args@.integer_at("profile_id"@) is None ==> (r matches Err(ToolError::Missing(a))
            && a == Argument::ProfileId),
        (name@ == "get_game"@ || name@ == "analyze_game"@) && args@.integer_at("game_id"@) is None
            ==> (r matches Err(ToolError::Missing(a)) && a == Argument::GameId),
        name@ == "get_player"@ ==> (args@.integer_at("profile_id"@) matches Some(id) ==> (
        r matches Ok(ToolRequest::Player { path }) && path@ == "/players/"@ + text::signed(
            id as int,
        ))),
        name@ == "get_game"@ ==> (args@.integer_at("game_id"@) matches Some(id) ==> (r matches Ok(
            ToolRequest::Game { path },
        ) && path@ == "/games/"@ + text::signed(id as int))),
{
    reveal_strlit("search_players");
    reveal_strlit("get_player");
    reveal_strlit("get_player_games");
    reveal_strlit("get_game");
    reveal_strlit("analyze_game");
    reveal_strlit("analyze_player");
    assert("search_players"@.len() == 14 && "search_players"@[0] == 's');
    assert("get_player"@.len() == 10);
    assert("get_player_games"@.len() == 16);
    assert("get_game"@.len() == 8);
    assert("analyze_game"@.len() == 12);
    assert("analyze_player"@.len() == 14 && "analyze_player"@[0] == 'a');
}

/// What is asked of a tool is what it is called with.
pub proof fn lemma_calls_carry(name: &str, args: &Json, r: Result<ToolRequest, ToolError>)
    requires
        call_ensures(call_tool, (name, args), r),
    ensures
        name@ == "kb_lookup"@ ==> (r matches Ok(ToolRequest::Lookup { query }) && query@
            == args@.text_or("query"@, ""@)),
        name@ == "get_meta"@ ==> (r matches Ok(ToolRequest::Meta { civ }) && text::opt(civ)
            == args@.text_at("civilization"@)),
        name@ == "civ_stats"@ ==> (r matches Ok(ToolRequest::CivStats { board, path }) && board@
            == args@.text_or("board"@, "rm_solo"@) && text::begins(
            path@,
            "/stats/"@ + board@ + "/civilizations?"@,
        )),
        name@ == "update_knowledge"@ ==> (r matches Ok(ToolRequest::Update)),
        name@ == "search_players"@ ==> (r matches Ok(ToolRequest::Search { path }) && path@
            == search_path(args@)),
        name@ == "get_leaderboard"@ ==> (r matches Ok(ToolRequest::Leaderboard { path }) && path@
            == ladder_page_path(args@)),
{
    reveal_strlit("search_players");
    reveal_strlit("get_player");
    reveal_strlit("get_player_games");
    reveal_strlit("get_game");
    reveal_strlit("analyze_game");
    reveal_strlit("analyze_player");
    reveal_strlit("get_leaderboard");
    reveal_strlit("analyze_win_rates");
    reveal_strlit("get_meta");
    reveal_strlit("civ_stats");
    reveal_strlit("kb_lookup");
    reveal_strlit("analyze_game_full");
    reveal_strlit("update_knowledge");
    assert("search_players"@.len() == 14 && "search_players"@[0] == 's');
    assert("get_player"@.len() == 10);
    assert("get_player_games"@.len() == 16 && "get_player_games"@[0] == 'g');
    assert("get_game"@.len() == 8 && "get_game"@[4] == 'g');
    assert("get_meta"@.len() == 8 && "get_meta"@[4] == 'm');
    assert("analyze_game"@.len() == 12);
    assert("analyze_player"@.len() == 14 && "analyze_player"@[0] == 'a');
    assert("get_leaderboard"@.len() == 15);
    assert("analyze_win_rates"@.len() == 17);
    assert("civ_stats"@.len() == 9 && "civ_stats"@[0] == 'c');
    assert("kb_lookup"@.len() == 9 && "kb_lookup"@[0] == 'k');
    assert("analyze_game_full"@.len() == 17);
    assert("update_knowledge"@.len() == 16 && "update_knowledge"@[0] == 'u');
    knowledge::lemma_civ_stats_path(
        args@.text_or("board"@, "rm_solo"@),
        args@.text_at("rank_level"@),
        args@.text_at("patch"@),
    );
}

}
