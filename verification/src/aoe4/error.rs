//! Why a tool call fails.

use crate::text;
use vstd::prelude::*;

verus! {

/// The member that a tool call has to have.
#[derive(Debug, Clone, Copy, PartialEq, Eq, Structural)]
pub enum Argument {
    ProfileId,
    GameId,
}

/// Why a tool call fails.
#[derive(Debug)]
pub enum ToolError {
    /// The shared link does not name a player and a game.
    BadShareLink,
    /// Neither a link nor the two numbers were given.
    NoGameNamed,
    /// The game has no teams.
    NoTeams,
    /// The summary has no players.
    NoPlayers,
    /// The statistics have no rows.
    NoStatistics,
    /// The bundled knowledge has no civilizations.
    NoCivilizations,
    /// The bundled knowledge has no units.
    NoUnits,
    /// There is nothing to look up.
    EmptyQuery,
    /// The ladder has no players.
    EmptyLadder,
    /// The site's own statistics are empty.
    EmptyAggregate,
    /// No statistics have been gathered.
    NoKnowledge,
    /// The gathered statistics cannot be read, for this reason.
    DamagedKnowledge(String),
    /// A member is missing from the call.
    Missing(Argument),
    /// There is no tool of that name.
    UnknownTool(String),
    /// The page's path holds a character that is not allowed.
    PathRefused(String),
    /// The page is not one of the statistics pages.
    PageRefused(String),
    /// There is no picture.
    NoPicture,
    /// The picture, of this many bytes, looks empty.
    BlankPicture(u64),
    /// The picture that came back holds nothing.
    EmptyPicture,
}

impl ToolError {
    /// What is said of the failure.
    pub open spec fn said(self) -> Seq<char> {
        match self {
            ToolError::BadShareLink =>
                "分享链接格式不对,需要 aoe4world.com/players/<id>-/games/<id>?sig=... 完整链接"@,
            ToolError::NoGameNamed => "需要 share_url 或 profile_id+game_id(+sig)"@,
            ToolError::NoTeams => "对局没有队伍数据"@,
            ToolError::NoPlayers => "无玩家"@,
            ToolError::NoStatistics => "stats 无数据"@,
            ToolError::NoCivilizations => "KB civs"@,
            ToolError::NoUnits => "KB units"@,
            ToolError::EmptyQuery => "query 不能为空"@,
            ToolError::EmptyLadder => "leaderboard has no players"@,
            ToolError::EmptyAggregate => "官方聚合端点返回空数据"@,
            ToolError::NoKnowledge => "知识库为空:先调用 analyze_win_rates 生成"@,
            ToolError::DamagedKnowledge(reason) => reason@,
            ToolError::Missing(Argument::ProfileId) => "profile_id 必填"@,
            ToolError::Missing(Argument::GameId) => "game_id 必填"@,
            ToolError::UnknownTool(name) => "unknown tool: "@ + name@,
            ToolError::PathRefused(path) =>
                "path 只允许站点相对路径(字母数字与 =&?/_-.),拒绝: "@ + path@,
            ToolError::PageRefused(path) => "只允许截 stats/ 下的统计页,拒绝: "@ + path@,
            ToolError::NoPicture => "截图未生成(页面超时或被站点挑战拦截)"@,
            ToolError::BlankPicture(size) => "截图疑似空白("@ + text::decimal(size as nat)
                + " bytes,站点挑战或渲染未完成)。降级方案:改用 civ_stats 工具输出文字版胜率数据"@,
            ToolError::EmptyPicture => "回传截图为空"@,
        }
    }

    /// What is said of the failure.
    pub fn message(&self) -> (r: String)
        ensures
            r@ == self.said(),
    {
        match self {
            ToolError::BadShareLink =>
                "分享链接格式不对,需要 aoe4world.com/players/<id>-/games/<id>?sig=... 完整链接".to_owned(),
            ToolError::NoGameNamed => "需要 share_url 或 profile_id+game_id(+sig)".to_owned(),
            ToolError::NoTeams => "对局没有队伍数据".to_owned(),
            ToolError::NoPlayers => "无玩家".to_owned(),
            ToolError::NoStatistics => "stats 无数据".to_owned(),
            ToolError::NoCivilizations => "KB civs".to_owned(),
            ToolError::NoUnits => "KB units".to_owned(),
            ToolError::EmptyQuery => "query 不能为空".to_owned(),
            ToolError::EmptyLadder => "leaderboard has no players".to_owned(),
            ToolError::EmptyAggregate => "官方聚合端点返回空数据".to_owned(),
            ToolError::NoKnowledge => "知识库为空:先调用 analyze_win_rates 生成".to_owned(),
            ToolError::DamagedKnowledge(reason) => reason.clone(),
            ToolError::Missing(Argument::ProfileId) => "profile_id 必填".to_owned(),
            ToolError::Missing(Argument::GameId) => "game_id 必填".to_owned(),
            ToolError::UnknownTool(name) => text::cat2("unknown tool: ", name.as_str()),
            ToolError::PathRefused(path) => text::cat2(
                "path 只允许站点相对路径(字母数字与 =&?/_-.),拒绝: ",
                path.as_str(),
            ),
            ToolError::PageRefused(path) => text::cat2(
                "只允许截 stats/ 下的统计页,拒绝: ",
                path.as_str(),
            ),
            ToolError::NoPicture => "截图未生成(页面超时或被站点挑战拦截)".to_owned(),
            ToolError::BlankPicture(size) => text::cat3(
                "截图疑似空白(",
                text::decimal_text(*size as u128).as_str(),
                " bytes,站点挑战或渲染未完成)。降级方案:改用 civ_stats 工具输出文字版胜率数据",
            ),
            ToolError::EmptyPicture => "回传截图为空".to_owned(),
        }
    }
}

}
