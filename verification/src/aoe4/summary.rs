//! Short reports: players, games and ladders as the site's API gives them.

use super::battle;
use super::error::ToolError;
use crate::json::{self, Doc, Json};
use crate::number;
use crate::text;
use vstd::prelude::*;

verus! {

/// The elements of the member `key`; none where it is no array.
pub fn list_at<'a>(body: &'a Json, key: &str, none: &'a Vec<Json>) -> (r: &'a Vec<Json>)
    requires
        none@.len() == 0,
    ensures
        json::docs(r@) == body@.array_or_none(key@),
{
    match body.array_at(key) {
        Some(v) => v,
        None => {
            assert(json::docs(none@) =~= Seq::<Doc>::empty());
            none
        },
    }
}

/// The smaller of two numbers.
fn smaller(n: usize, limit: usize) -> (r: usize)
    ensures
        r == battle::at_most(n as nat, limit as nat),
        r <= n,
{
    if n < limit {
        n
    } else {
        limit
    }
}

/// The rating on the solo ladder, or a hyphen.
pub open spec fn solo_rating(p: Doc) -> Seq<char> {
    match p.inner("modes"@, "rm_solo"@) {
        Some(m) => m.shown_or("rating"@, "-"@),
        None => "-"@,
    }
}

/// The line on a player who was found.
pub open spec fn found_line(p: Doc) -> Seq<char> {
    "- "@ + p.text_or("name"@, "?"@) + " (id="@ + p.shown_or("profile_id"@, ""@) + ") rating="@
        + solo_rating(p) + " 最近比赛="@ + p.text_or("last_game_at"@, "-"@) + "\n"@
}

/// The lines on the first `n` players who were found.
pub open spec fn found_lines(players: Seq<Doc>, n: nat) -> Seq<char>
    decreases n,
{
    if n == 0 {
        Seq::empty()
    } else {
        found_lines(players, (n - 1) as nat) + found_line(players[n - 1])
    }
}

/// How many players of a search are told.
pub const SEARCH_TOLD: usize = 15;

/// The report on a search for players.
pub open spec fn search_report(body: Doc) -> Seq<char> {
    let players = body.array_or_none("players"@);
    "命中 "@ + text::signed(body.integer_or("total_count"@, 0) as int) + " 名玩家,本页 "@
        + text::decimal(players.len()) + " 名:\n"@ + found_lines(
        players,
        battle::at_most(players.len(), SEARCH_TOLD as nat),
    )
}

/// The report on a search for players.
pub fn summarize_search(body: &Json) -> (r: String)
    ensures
        r@ == search_report(body@),
{
    let none: Vec<Json> = Vec::new();
    let players = list_at(body, "players", &none);
    let n: usize = smaller(players.len(), SEARCH_TOLD);
    let mut lines = String::new();
    let mut i: usize = 0;
    while i < n
        invariant
            i <= n <= players@.len(),
            lines@ == found_lines(json::docs(players@), i as nat),
        decreases n - i,
    {
        let p = &players[i];
        let rating = match p.inner("modes", "rm_solo") {
            Some(m) => m.shown_or("rating", "-"),
            None => "-".to_owned(),
        };
        let mut line = "- ".to_owned();
        line.append(p.text_or("name", "?"));
        line.append(" (id=");
        line.append(p.shown_or("profile_id", "").as_str());
        line.append(") rating=");
        line.append(rating.as_str());
        line.append(" 最近比赛=");
        line.append(p.text_or("last_game_at", "-"));
        line.append("\n");
        lines.append(line.as_str());
        i = i + 1;
    }
    let mut out = text::cat5(
        "命中 ",
        text::signed_text(body.integer_or("total_count", 0) as i128).as_str(),
        " 名玩家,本页 ",
        text::decimal_text(players.len() as u128).as_str(),
        " 名:\n",
    );
    out.append(lines.as_str());
    out
}

/// The line on how a player stands in one mode.
pub open spec fn mode_line(mode: Seq<char>, m: Doc) -> Seq<char> {
    "- "@ + mode + ": rating="@ + m.shown_or("rating"@, "-"@) + " rank="@ + m.shown_or(
        "rank"@,
        "-"@,
    ) + " level="@ + m.text_or("rank_level"@, "-"@) + " 胜"@ + m.shown_or("wins_count"@, "-"@)
        + "/负"@ + m.shown_or("losses_count"@, "-"@) + "\n"@
}

/// The lines on the first `n` modes.
pub open spec fn mode_lines(modes: Seq<(Seq<char>, Doc)>, n: nat) -> Seq<char>
    decreases n,
{
    if n == 0 {
        Seq::empty()
    } else {
        mode_lines(modes, (n - 1) as nat) + mode_line(modes[n - 1].0, modes[n - 1].1)
    }
}

/// The report on a player.
pub open spec fn player_report(body: Doc) -> Seq<char> {
    "玩家 "@ + body.text_or("name"@, "?"@) + " (profile_id="@ + body.shown_or("profile_id"@, ""@)
        + ")\n"@ + match body.object_at("modes"@) {
        Some(modes) => mode_lines(modes, modes.len()),
        None => Seq::empty(),
    }
}

/// The report on a player.
pub fn summarize_player(body: &Json) -> (r: String)
    ensures
        r@ == player_report(body@),
{
    let mut lines = String::new();
    match body.object_at("modes") {
        Some(modes) => {
            let mut i: usize = 0;
            while i < modes.len()
                invariant
                    i <= modes@.len(),
                    lines@ == mode_lines(json::members(modes@), i as nat),
                decreases modes@.len() - i,
            {
                let m = &modes[i].1;
                let mut line = "- ".to_owned();
                line.append(modes[i].0.as_str());
                line.append(": rating=");
                line.append(m.shown_or("rating", "-").as_str());
                line.append(" rank=");
                line.append(m.shown_or("rank", "-").as_str());
                line.append(" level=");
                line.append(m.text_or("rank_level", "-"));
                line.append(" 胜");
                line.append(m.shown_or("wins_count", "-").as_str());
                line.append("/负");
                line.append(m.shown_or("losses_count", "-").as_str());
                line.append("\n");
                lines.append(line.as_str());
                i = i + 1;
            }
        },
        None => {},
    }
    let mut out = text::cat5(
        "玩家 ",
        body.text_or("name", "?"),
        " (profile_id=",
        body.shown_or("profile_id", "").as_str(),
        ")\n",
    );
    out.append(lines.as_str());
    out
}

/// How a player of a listed game is told.
pub open spec fn listed_player(p: Doc) -> Seq<char> {
    p.text_or("name"@, "?"@) + "["@ + p.text_or("civilization"@, "?"@) + "]"@ + match p.text_at(
        "result"@,
    ) {
        Some(r) => "("@ + r + ")"@,
        None => Seq::empty(),
    }
}

/// The players among the first `n` slots of a team.
pub open spec fn slot_players(slots: Seq<Doc>, n: nat) -> Seq<Doc>
    decreases n,
{
    if n == 0 {
        Seq::empty()
    } else {
        let before = slot_players(slots, (n - 1) as nat);
        match slots[n - 1].field("player"@) {
            Some(p) => before.push(p),
            None => before,
        }
    }
}

/// The slots of a team; none where it is no array.
pub open spec fn team_slots(team: Doc) -> Seq<Doc> {
    match team.array() {
        Some(v) => v,
        None => Seq::empty(),
    }
}

/// The players of the first `n` teams, team by team.
pub open spec fn team_players(teams: Seq<Doc>, n: nat) -> Seq<Doc>
    decreases n,
{
    if n == 0 {
        Seq::empty()
    } else {
        team_players(teams, (n - 1) as nat) + slot_players(
            team_slots(teams[n - 1]),
            team_slots(teams[n - 1]).len(),
        )
    }
}

/// The players of a listed game, team by team.
pub open spec fn game_players(game: Doc) -> Seq<Doc> {
    let teams = game.array_or_none("teams"@);
    team_players(teams, teams.len())
}

/// References to values, as values.
pub open spec fn ref_docs(v: Seq<&Json>) -> Seq<Doc> {
    Seq::new(v.len(), |i: int| v[i].doc())
}

/// The players of a listed game, team by team.
pub fn players_of<'a>(game: &'a Json) -> (r: Vec<&'a Json>)
    ensures
        ref_docs(r@) == game_players(game@),
{
    let mut out: Vec<&'a Json> = Vec::new();
    assert(ref_docs(out@) =~= Seq::<Doc>::empty());
    match game.array_at("teams") {
        Some(teams) => {
            let mut i: usize = 0;
            while i < teams.len()
                invariant
                    i <= teams@.len(),
                    ref_docs(out@) == team_players(json::docs(teams@), i as nat),
                decreases teams@.len() - i,
            {
                let ghost before = ref_docs(out@);
                match teams[i].as_array() {
                    Some(slots) => {
                        let mut k: usize = 0;
                        assert(before + Seq::<Doc>::empty() =~= before);
                        while k < slots.len()
                            invariant
                                k <= slots@.len(),
                                ref_docs(out@) == before + slot_players(
                                    json::docs(slots@),
                                    k as nat,
                                ),
                            decreases slots@.len() - k,
                        {
                            match slots[k].get("player") {
                                Some(p) => {
                                    let ghost had = ref_docs(out@);
                                    out.push(p);
                                    assert(ref_docs(out@) =~= had.push(p@));
                                    assert(had.push(p@) =~= before + slot_players(
                                        json::docs(slots@),
                                        (k + 1) as nat,
                                    ));
                                },
                                None => {},
                            }
                            k = k + 1;
                        }
                    },
                    None => {
                        assert(before + Seq::<Doc>::empty() =~= before);
                    },
                }
                i = i + 1;
            }
        },
        None => {},
    }
    out
}

/// How the players of a listed game are told.
pub open spec fn listed_players(players: Seq<Doc>) -> Seq<Seq<char>> {
    players.map_values(|p: Doc| listed_player(p))
}

/// The line on a listed game.
pub open spec fn listed_game(g: Doc) -> Seq<char> {
    "- game="@ + g.shown_or("game_id"@, ""@) + " "@ + g.text_or("kind"@, "-"@) + " "@ + g.text_or(
        "map"@,
        "-"@,
    ) + " "@ + g.text_or("started_at"@, "-"@) + ": "@ + text::joined(
        listed_players(game_players(g)),
        " vs "@,
    ) + "\n"@
}

/// The lines on the first `n` listed games.
pub open spec fn listed_games(games: Seq<Doc>, n: nat) -> Seq<char>
    decreases n,
{
    if n == 0 {
        Seq::empty()
    } else {
        listed_games(games, (n - 1) as nat) + listed_game(games[n - 1])
    }
}

/// How many games of a page are told.
pub const GAMES_TOLD: usize = 20;

/// The report on a page of games.
pub open spec fn games_report(body: Doc) -> Seq<char> {
    let games = body.array_or_none("games"@);
    "共 "@ + text::signed(body.integer_or("total_count"@, 0) as int) + " 场,本页 "@ + text::decimal(
        games.len(),
    ) + " 场:\n"@ + listed_games(games, battle::at_most(games.len(), GAMES_TOLD as nat))
}

fn listed_game_text(g: &Json) -> (r: String)
    ensures
        r@ == listed_game(g@),
{
    let players = players_of(g);
    let ghost ps = ref_docs(players@);
    let mut told: Vec<String> = Vec::new();
    let mut i: usize = 0;
    while i < players.len()
        invariant
            i <= players@.len(),
            ps == ref_docs(players@),
            text::views(told@) == listed_players(ps).take(i as int),
        decreases players@.len() - i,
    {
        let p = players[i];
        let mut t = p.text_or("name", "?").to_owned();
        t.append("[");
        t.append(p.text_or("civilization", "?"));
        t.append("]");
        let result = match p.text_at("result") {
            Some(r) => text::cat3("(", r, ")"),
            None => String::new(),
        };
        t.append(result.as_str());
        proof {
            text::lemma_views_push(told@, t);
            assert(t@ == listed_player(ps[i as int]));
        }
        told.push(t);
        assert(listed_players(ps).take(i + 1) =~= listed_players(ps).take(i as int).push(
            listed_player(ps[i as int]),
        ));
        i = i + 1;
    }
    assert(listed_players(ps).take(ps.len() as int) =~= listed_players(ps));
    let mut line = "- game=".to_owned();
    line.append(g.shown_or("game_id", "").as_str());
    line.append(" ");
    line.append(g.text_or("kind", "-"));
    line.append(" ");
    line.append(g.text_or("map", "-"));
    line.append(" ");
    line.append(g.text_or("started_at", "-"));
    line.append(": ");
    line.append(text::join(&told, " vs ").as_str());
    line.append("\n");
    line
}

/// The report on a page of games.
pub fn summarize_games(body: &Json) -> (r: String)
    ensures
        r@ == games_report(body@),
{
    let none: Vec<Json> = Vec::new();
    let games = list_at(body, "games", &none);
    let n: usize = smaller(games.len(), GAMES_TOLD);
    let mut lines = String::new();
    let mut i: usize = 0;
    while i < n
        invariant
            i <= n <= games@.len(),
            lines@ == listed_games(json::docs(games@), i as nat),
        decreases n - i,
    {
        lines.append(listed_game_text(&games[i]).as_str());
        i = i + 1;
    }
    let mut out = text::cat5(
        "共 ",
        text::signed_text(body.integer_or("total_count", 0) as i128).as_str(),
        " 场,本页 ",
        text::decimal_text(games.len() as u128).as_str(),
        " 场:\n",
    );
    out.append(lines.as_str());
    out
}

/// The line on a player of one game.
pub open spec fn detail_line(team: nat, p: Doc) -> Seq<char> {
    "- 队"@ + text::decimal(team) + " "@ + p.text_or("name"@, "?"@) + " (id="@ + p.shown_or(
        "profile_id"@,
        ""@,
    ) + ") 文明="@ + p.text_or("civilization"@, "?"@) + " rating="@ + p.shown_or("rating"@, "-"@)
        + " mmr="@ + p.shown_or("mmr"@, "-"@) + " 结果="@ + p.text_or("result"@, "进行中"@) + "\n"@
}

/// The lines on the players among the first `n` slots of a team.
pub open spec fn detail_lines(team: nat, slots: Seq<Doc>, n: nat) -> Seq<char>
    decreases n,
{
    if n == 0 {
        Seq::empty()
    } else {
        let before = detail_lines(team, slots, (n - 1) as nat);
        match slots[n - 1].field("player"@) {
            Some(p) => before + detail_line(team, p),
            None => before,
        }
    }
}

/// The lines on the players of the first `n` teams.
pub open spec fn team_details(teams: Seq<Doc>, n: nat) -> Seq<char>
    decreases n,
{
    if n == 0 {
        Seq::empty()
    } else {
        team_details(teams, (n - 1) as nat) + detail_lines(
            n,
            team_slots(teams[n - 1]),
            team_slots(teams[n - 1]).len(),
        )
    }
}

/// A number of seconds that may be missing.
pub open spec fn maybe_seconds(n: Option<i64>) -> Seq<char> {
    match n {
        Some(v) => "Some("@ + text::signed(v as int) + ")"@,
        None => "None"@,
    }
}

/// The report on one game.
pub open spec fn game_report(body: Doc) -> Seq<char> {
    let teams = body.array_or_none("teams"@);
    "对局 "@ + body.shown_or("game_id"@, ""@) + ": "@ + body.text_or("kind"@, "-"@) + " 地图="@
        + body.text_or("map"@, "-"@) + " patch="@ + body.shown_or("patch"@, "-"@) + " 时长="@
        + maybe_seconds(body.integer_at("duration"@)) + "秒\n"@ + team_details(teams, teams.len())
}

fn detail_text(team: usize, slots: &Vec<Json>) -> (r: String)
    ensures
        r@ == detail_lines(team as nat, json::docs(slots@), slots@.len()),
{
    let mut lines = String::new();
    let mut k: usize = 0;
    while k < slots.len()
        invariant
            k <= slots@.len(),
            lines@ == detail_lines(team as nat, json::docs(slots@), k as nat),
        decreases slots@.len() - k,
    {
        match slots[k].get("player") {
            Some(p) => {
                let mut line = "- 队".to_owned();
                line.append(text::decimal_text(team as u128).as_str());
                line.append(" ");
                line.append(p.text_or("name", "?"));
                line.append(" (id=");
                line.append(p.shown_or("profile_id", "").as_str());
                line.append(") 文明=");
                line.append(p.text_or("civilization", "?"));
                line.append(" rating=");
                line.append(p.shown_or("rating", "-").as_str());
                line.append(" mmr=");
                line.append(p.shown_or("mmr", "-").as_str());
                line.append(" 结果=");
                line.append(p.text_or("result", "进行中"));
                line.append("\n");
                lines.append(line.as_str());
            },
            None => {},
        }
        k = k + 1;
    }
    lines
}

/// The report on one game.
pub fn summarize_game(body: &Json) -> (r: String)
    ensures
        r@ == game_report(body@),
{
    let none: Vec<Json> = Vec::new();
    let teams = list_at(body, "teams", &none);
    let mut lines = String::new();
    let mut i: usize = 0;
    while i < teams.len()
        invariant
            i <= teams@.len(),
            none@.len() == 0,
            lines@ == team_details(json::docs(teams@), i as nat),
        decreases teams@.len() - i,
    {
        let slots = match teams[i].as_array() {
            Some(v) => v,
            None => {
                assert(json::docs(none@) =~= Seq::<Doc>::empty());
                &none
            },
        };
        lines.append(detail_text(i + 1, slots).as_str());
        i = i + 1;
    }
    let duration = match body.integer_at("duration") {
        Some(v) => text::cat3("Some(", text::signed_text(v as i128).as_str(), ")"),
        None => "None".to_owned(),
    };
    let mut out = "对局 ".to_owned();
    out.append(body.shown_or("game_id", "").as_str());
    out.append(": ");
    out.append(body.text_or("kind", "-"));
    out.append(" 地图=");
    out.append(body.text_or("map", "-"));
    out.append(" patch=");
    out.append(body.shown_or("patch", "-").as_str());
    out.append(" 时长=");
    out.append(duration.as_str());
    out.append("秒\n");
    out.append(lines.as_str());
    out
}

/// The line on a player of the ladder.
pub open spec fn ladder_line(p: Doc) -> Seq<char> {
    "- #"@ + p.shown_or("rank"@, "-"@) + " "@ + p.text_or("name"@, "?"@) + " rating="@ + p.shown_or(
        "rating"@,
        "-"@,
    ) + " winrate="@ + p.shown_or("win_rate"@, "-"@) + "\n"@
}

/// The lines on the first `n` players of the ladder.
pub open spec fn ladder_lines(players: Seq<Doc>, n: nat) -> Seq<char>
    decreases n,
{
    if n == 0 {
        Seq::empty()
    } else {
        ladder_lines(players, (n - 1) as nat) + ladder_line(players[n - 1])
    }
}

/// How many players of a ladder page are told.
pub const LADDER_TOLD: usize = 20;

/// The report on a page of the ladder.
pub open spec fn ladder_report(body: Doc) -> Seq<char> {
    let players = body.array_or_none("players"@);
    "天梯 "@ + body.text_or("name"@, "-"@) + ",本页 "@ + text::decimal(players.len()) + " 名:\n"@
        + ladder_lines(players, battle::at_most(players.len(), LADDER_TOLD as nat))
}

/// The report on a page of the ladder.
pub fn summarize_leaderboard(body: &Json) -> (r: String)
    ensures
        r@ == ladder_report(body@),
{
    let none: Vec<Json> = Vec::new();
    let players = list_at(body, "players", &none);
    let n: usize = smaller(players.len(), LADDER_TOLD);
    let mut lines = String::new();
    let mut i: usize = 0;
    while i < n
        invariant
            i <= n <= players@.len(),
            lines@ == ladder_lines(json::docs(players@), i as nat),
        decreases n - i,
    {
        let p = &players[i];
        let mut line = "- #".to_owned();
        line.append(p.shown_or("rank", "-").as_str());
        line.append(" ");
        line.append(p.text_or("name", "?"));
        line.append(" rating=");
        line.append(p.shown_or("rating", "-").as_str());
        line.append(" winrate=");
        line.append(p.shown_or("win_rate", "-").as_str());
        line.append("\n");
        lines.append(line.as_str());
        i = i + 1;
    }
    let mut out = text::cat5(
        "天梯 ",
        body.text_or("name", "-"),
        ",本页 ",
        text::decimal_text(players.len() as u128).as_str(),
        " 名:\n",
    );
    out.append(lines.as_str());
    out
}

/// Whether a result decides a game.
pub open spec fn decides(result: Option<Seq<char>>) -> bool {
    result == Some("win"@) || result == Some("loss"@)
}

/// The first result among the slots from `i` on that decides the game.
pub open spec fn decided(slots: Seq<Doc>, i: int) -> Option<Seq<char>>
    decreases slots.len() - i,
{
    if i < 0 || i >= slots.len() {
        None
    } else if decides(slots[i].text_at("result"@)) {
        slots[i].text_at("result"@)
    } else {
        decided(slots, i + 1)
    }
}

/// How a team fared.
pub open spec fn outcome(slots: Seq<Doc>) -> Seq<char> {
    match decided(slots, 0) {
        Some(r) => if r == "win"@ {
            "胜"@
        } else {
            "负"@
        },
        None => "进行中"@,
    }
}

fn outcome_of(slots: &Vec<Json>) -> (r: &'static str)
    ensures
        r@ == outcome(json::docs(slots@)),
{
    let mut i: usize = 0;
    while i < slots.len()
        invariant
            i <= slots@.len(),
            decided(json::docs(slots@), 0) == decided(json::docs(slots@), i as int),
        decreases slots@.len() - i,
    {
        match slots[i].text_at("result") {
            Some(r) => {
                if text::same(r, "win") {
                    return "胜";
                }
                if text::same(r, "loss") {
                    proof {
                        reveal_strlit("win");
                        reveal_strlit("loss");
                        assert("win"@.len() != "loss"@.len());
                    }
                    return "负";
                }
            },
            None => {},
        }
        i = i + 1;
    }
    "进行中"
}

/// A rating with its change.
pub open spec fn rating_change(rating: Option<i64>, diff: Option<i64>) -> Seq<char> {
    match (rating, diff) {
        (Some(r), Some(d)) => text::signed(r as int) + "("@ + text::plus_signed(d as int) + ")"@,
        (Some(r), None) => text::signed(r as int),
        _ => "-"@,
    }
}

/// The line on a player of a reported game.
pub open spec fn slot_line(slot: Doc) -> Seq<char> {
    "- "@ + slot.text_or("name"@, "?"@) + "["@ + slot.text_or("civilization"@, "?"@) + "] rating="@
        + rating_change(slot.integer_at("rating"@), slot.integer_at("rating_diff"@)) + " 国别="@
        + slot.text_or("country"@, ""@) + "\n"@
}

/// The lines on the first `n` players of a team.
pub open spec fn slot_lines(slots: Seq<Doc>, n: nat) -> Seq<char>
    decreases n,
{
    if n == 0 {
        Seq::empty()
    } else {
        slot_lines(slots, (n - 1) as nat) + slot_line(slots[n - 1])
    }
}

/// The lines on the first `n` teams.
pub open spec fn team_lines(teams: Seq<Doc>, n: nat) -> Seq<char>
    decreases n,
{
    if n == 0 {
        Seq::empty()
    } else {
        let slots = team_slots(teams[n - 1]);
        team_lines(teams, (n - 1) as nat) + ("队"@ + text::decimal(n) + "("@ + outcome(slots)
            + "):\n"@ + slot_lines(slots, slots.len()))
    }
}

/// The report on a game by its entry.
pub open spec fn entry_report(game: int, g: Doc, teams: Seq<Doc>) -> Seq<char> {
    let duration = g.integer_or("duration"@, 0) as int;
    "战报 对局"@ + text::signed(game) + ":"@ + g.text_or("kind"@, "-"@) + " 地图="@ + g.text_or(
        "map"@,
        "-"@,
    ) + " patch="@ + g.shown_or("patch"@, "-"@) + " 时长="@ + text::signed(
        number::quotient(duration, 60),
    ) + "分"@ + text::signed(number::remainder(duration, 60)) + "秒 服务器="@ + g.text_or(
        "server"@,
        "-"@,
    ) + " 平均rating="@ + match g.integer_at("average_rating"@) {
        Some(v) => text::signed(v as int),
        None => "-"@,
    } + "\n"@ + team_lines(teams, teams.len())
}

fn slot_section(slots: &Vec<Json>) -> (r: String)
    ensures
        r@ == slot_lines(json::docs(slots@), slots@.len()),
{
    let mut lines = String::new();
    let mut k: usize = 0;
    while k < slots.len()
        invariant
            k <= slots@.len(),
            lines@ == slot_lines(json::docs(slots@), k as nat),
        decreases slots@.len() - k,
    {
        let slot = &slots[k];
        let rating = match (slot.integer_at("rating"), slot.integer_at("rating_diff")) {
            (Some(r), Some(d)) => text::cat4(
                text::signed_text(r as i128).as_str(),
                "(",
                text::plus_signed_text(d as i128).as_str(),
                ")",
            ),
            (Some(r), None) => text::signed_text(r as i128),
            _ => "-".to_owned(),
        };
        let mut line = "- ".to_owned();
        line.append(slot.text_or("name", "?"));
        line.append("[");
        line.append(slot.text_or("civilization", "?"));
        line.append("] rating=");
        line.append(rating.as_str());
        line.append(" 国别=");
        line.append(slot.text_or("country", ""));
        line.append("\n");
        lines.append(line.as_str());
        k = k + 1;
    }
    lines
}

fn team_section(teams: &Vec<Json>) -> (r: String)
    ensures
        r@ == team_lines(json::docs(teams@), teams@.len()),
{
    let none: Vec<Json> = Vec::new();
    let mut lines = String::new();
    let mut i: usize = 0;
    while i < teams.len()
        invariant
            i <= teams@.len(),
            none@.len() == 0,
            lines@ == team_lines(json::docs(teams@), i as nat),
        decreases teams@.len() - i,
    {
        let slots = match teams[i].as_array() {
            Some(v) => v,
            None => {
                assert(json::docs(none@) =~= Seq::<Doc>::empty());
                &none
            },
        };
        let mut part = text::cat5(
            "队",
            text::decimal_text((i + 1) as u128).as_str(),
            "(",
            outcome_of(slots),
            "):\n",
        );
        part.append(slot_section(slots).as_str());
        lines.append(part.as_str());
        i = i + 1;
    }
    lines
}

/// The report on a game by its entry, in which each player's data stand in the slot itself.
pub fn analyze_game(game_id: i64, g: &Json) -> (r: Result<String, ToolError>)
    ensures
        match g@.array_at("teams"@) {
            Some(teams) => r matches Ok(t) && t@ == entry_report(game_id as int, g@, teams),
            None => r matches Err(ToolError::NoTeams),
        },
{
    let teams = match g.array_at("teams") {
        Some(v) => v,
        None => {
            return Err(ToolError::NoTeams);
        },
    };
    let duration: i64 = g.integer_or("duration", 0);
    let average = match g.integer_at("average_rating") {
        Some(v) => text::signed_text(v as i128),
        None => "-".to_owned(),
    };
    let mut t = "战报 对局".to_owned();
    t.append(text::signed_text(game_id as i128).as_str());
    t.append(":");
    t.append(g.text_or("kind", "-"));
    t.append(" 地图=");
    t.append(g.text_or("map", "-"));
    t.append(" patch=");
    t.append(g.shown_or("patch", "-").as_str());
    t.append(" 时长=");
    t.append(text::signed_text(number::div(duration, 60) as i128).as_str());
    t.append("分");
    t.append(text::signed_text(number::modulo(duration, 60) as i128).as_str());
    t.append("秒 服务器=");
    t.append(g.text_or("server", "-"));
    t.append(" 平均rating=");
    t.append(average.as_str());
    t.append("\n");
    t.append(team_section(teams).as_str());
    Ok(t)
}

/// What stands above the report on a game whose link carries no signature.
pub const UNSIGNED_NOTE: &'static str = "对局链接未带 sig(深度时间线需要游戏内分享出的带 sig 链接),已降级为 API 层战报:\n\n";

/// The report on a game whose link carries no signature.
pub fn unsigned_game_report(game_id: i64, g: &Json) -> (r: Result<String, ToolError>)
    ensures
        match g@.array_at("teams"@) {
            Some(teams) => r matches Ok(t) && t@ == UNSIGNED_NOTE@ + entry_report(
                game_id as int,
                g@,
                teams,
            ),
            None => r matches Err(ToolError::NoTeams),
        },
{
    match analyze_game(game_id, g) {
        Ok(t) => Ok(text::cat2(UNSIGNED_NOTE, t.as_str())),
        Err(e) => Err(e),
    }
}

/// A value is a player of a game exactly where a slot of one of its teams holds it as its player.
pub proof fn lemma_game_players(game: Doc, p: Doc)
    ensures
        game_players(game).contains(p) <==> exists|a: int, b: int|
            0 <= a < game.array_or_none("teams"@).len() && game.array_or_none("teams"@)[a].array()
                is Some && 0 <= b < game.array_or_none("teams"@)[a].array()->0.len() && (
            #[trigger] game.array_or_none("teams"@)[a].array()->0[b]).field("player"@) == Some(p),
{
    let teams = game.array_or_none("teams"@);
    lemma_team_players(teams, teams.len(), p);
    if game_players(game).contains(p) {
        let (a, b) = choose|a: int, b: int|
            0 <= a < teams.len() && 0 <= b < team_slots(teams[a]).len() && (
            #[trigger] team_slots(teams[a])[b]).field("player"@) == Some(p);
        assert(teams[a].array()->0[b].field("player"@) == Some(p));
    }
    if exists|a: int, b: int|
        0 <= a < teams.len() && teams[a].array() is Some && 0 <= b < teams[a].array()->0.len() && (
        #[trigger] teams[a].array()->0[b]).field("player"@) == Some(p) {
        let (a, b) = choose|a: int, b: int|
            0 <= a < teams.len() && teams[a].array() is Some && 0 <= b < teams[a].array()->0.len() && (
            #[trigger] teams[a].array()->0[b]).field("player"@) == Some(p);
        assert(team_slots(teams[a])[b].field("player"@) == Some(p));
    }
}

proof fn lemma_slot_players(slots: Seq<Doc>, n: nat, p: Doc)
    requires
        n <= slots.len(),
    ensures
        slot_players(slots, n).contains(p) <==> exists|b: int|
            0 <= b < n && (#[trigger] slots[b]).field("player"@) == Some(p),
    decreases n,
{
    if n > 0 {
        let before = slot_players(slots, (n - 1) as nat);
        let now = slot_players(slots, n);
        lemma_slot_players(slots, (n - 1) as nat, p);
        match slots[n - 1].field("player"@) {
            Some(q) => {
                assert(now == before.push(q));
                assert(now[before.len() as int] == q);
                if before.contains(p) {
                    let i = before.index_of(p);
                    assert(now[i] == p);
                }
                if now.contains(p) {
                    let i = now.index_of(p);
                    if i < before.len() {
                        assert(before[i] == p);
                    }
                }
            },
            None => {},
        }
    }
}

proof fn lemma_team_players(teams: Seq<Doc>, n: nat, p: Doc)
    requires
        n <= teams.len(),
    ensures
        team_players(teams, n).contains(p) <==> exists|a: int, b: int|
            0 <= a < n && 0 <= b < team_slots(teams[a]).len() && (#[trigger] team_slots(
                teams[a],
            )[b]).field("player"@) == Some(p),
    decreases n,
{
    if n > 0 {
        let before = team_players(teams, (n - 1) as nat);
        let slots = team_slots(teams[n - 1]);
        let more = slot_players(slots, slots.len());
        let now = team_players(teams, n);
        lemma_team_players(teams, (n - 1) as nat, p);
        lemma_slot_players(slots, slots.len(), p);
        assert(now == before + more);
        if before.contains(p) {
            let i = before.index_of(p);
            assert(now[i] == p);
        }
        if more.contains(p) {
            let i = more.index_of(p);
            assert(now[before.len() + i] == p);
            let b = choose|b: int| 0 <= b < slots.len() && (#[trigger] slots[b]).field("player"@)
                == Some(p);
            assert(team_slots(teams[n - 1])[b].field("player"@) == Some(p));
        }
        if now.contains(p) {
            let i = now.index_of(p);
            if i < before.len() {
                assert(before[i] == p);
            } else {
                assert(more[i - before.len()] == p);
            }
        }
    }
}

/// The players of two stretches of teams are those of the first and then those of the second.
pub proof fn lemma_team_players_join(a: Seq<Doc>, b: Seq<Doc>)
    ensures
        team_players(a + b, (a + b).len()) == team_players(a, a.len()) + team_players(b, b.len()),
    decreases b.len(),
{
    if b.len() == 0 {
        assert(a + b =~= a);
        assert(team_players(b, 0) =~= Seq::empty());
    } else {
        let c = b.drop_last();
        lemma_team_players_join(a, c);
        lemma_team_players_take(a + b, ((a + b).len() - 1) as nat);
        lemma_team_players_take(b, (b.len() - 1) as nat);
        assert((a + b).take((a + b).len() - 1) =~= a + c);
        assert(b.take(b.len() - 1) =~= c);
        assert(team_players(a + b, (a + b).len()) =~= team_players(a, a.len()) + team_players(
            b,
            b.len(),
        ));
    }
}

proof fn lemma_team_players_take(teams: Seq<Doc>, n: nat)
    requires
        n <= teams.len(),
    ensures
        team_players(teams, n) == team_players(teams.take(n as int), n),
    decreases n,
{
    if n > 0 {
        lemma_team_players_take(teams, (n - 1) as nat);
        lemma_team_players_take(teams.take(n as int), (n - 1) as nat);
        assert(teams.take(n as int).take(n - 1) =~= teams.take(n - 1));
    }
}

/// The players of two stretches of slots are those of the first and then those of the second.
pub proof fn lemma_slot_players_join(a: Seq<Doc>, b: Seq<Doc>)
    ensures
        slot_players(a + b, (a + b).len()) == slot_players(a, a.len()) + slot_players(b, b.len()),
    decreases b.len(),
{
    if b.len() == 0 {
        assert(a + b =~= a);
        assert(slot_players(b, 0) =~= Seq::empty());
    } else {
        let c = b.drop_last();
        lemma_slot_players_join(a, c);
        lemma_slot_players_take(a + b, ((a + b).len() - 1) as nat);
        lemma_slot_players_take(b, (b.len() - 1) as nat);
        assert((a + b).take((a + b).len() - 1) =~= a + c);
        assert(b.take(b.len() - 1) =~= c);
        assert(slot_players(a + b, (a + b).len()) =~= slot_players(a, a.len()) + slot_players(
            b,
            b.len(),
        ));
    }
}

proof fn lemma_slot_players_take(slots: Seq<Doc>, n: nat)
    requires
        n <= slots.len(),
    ensures
        slot_players(slots, n) == slot_players(slots.take(n as int), n),
    decreases n,
{
    if n > 0 {
        lemma_slot_players_take(slots, (n - 1) as nat);
        lemma_slot_players_take(slots.take(n as int), (n - 1) as nat);
        assert(slots.take(n as int).take(n - 1) =~= slots.take(n - 1));
    }
}

/// A team's players alone are those of a game with no other team.
pub proof fn lemma_one_team(team: Doc)
    ensures
        team_players(seq![team], 1) == slot_players(team_slots(team), team_slots(team).len()),
{
    reveal_with_fuel(team_players, 2);
    assert(team_players(seq![team], 1) =~= slot_players(
        team_slots(team),
        team_slots(team).len(),
    ));
}

/// A team has won where the first slot with a win or a loss has a win, lost where it has a loss,
/// and is still playing where there is none.
pub proof fn lemma_outcome(slots: Seq<Doc>, i: int)
    requires
        0 <= i <= slots.len(),
        forall|k: int|
            0 <= k < i ==> (#[trigger] slots[k]).text_at("result"@) != Some("win"@)
                && slots[k].text_at("result"@) != Some("loss"@),
    ensures
        i == slots.len() ==> outcome(slots) == "进行中"@,
        i < slots.len() && slots[i].text_at("result"@) == Some("win"@) ==> outcome(slots) == "胜"@,
        i < slots.len() && slots[i].text_at("result"@) == Some("loss"@) ==> outcome(slots)
            == "负"@,
{
    reveal_strlit("win");
    reveal_strlit("loss");
    assert("win"@.len() == 3);
    assert("loss"@.len() == 4);
    lemma_decided(slots, 0, i);
}

proof fn lemma_decided(slots: Seq<Doc>, from: int, i: int)
    requires
        0 <= from <= i <= slots.len(),
        forall|k: int|
            from <= k < i ==> (#[trigger] slots[k]).text_at("result"@) != Some("win"@)
                && slots[k].text_at("result"@) != Some("loss"@),
    ensures
        decided(slots, from) == decided(slots, i),
    decreases i - from,
{
    if from < i {
        assert(slots[from].text_at("result"@) != Some("win"@));
        lemma_decided(slots, from + 1, i);
    }
}

/// A rating is shown with its change where both are known, alone where only it is, and not at all
/// without it.
pub proof fn lemma_rating_change(rating: Option<i64>, diff: Option<i64>)
    ensures
        rating is None ==> rating_change(rating, diff) == "-"@,
        rating matches Some(r) ==> text::begins(rating_change(rating, diff), text::signed(r as int)),
        rating matches Some(r) ==> (diff is None ==> rating_change(rating, diff) == text::signed(
            r as int,
        )),
        rating matches Some(r) ==> (diff matches Some(d) ==> text::mentions(
            rating_change(rating, diff),
            text::plus_signed(d as int),
        )),
{
    match (rating, diff) {
        (Some(r), Some(d)) => {
            let s = text::signed(r as int);
            let t = text::plus_signed(d as int);
            assert((s + "("@ + t + ")"@).subrange(0, s.len() as int) =~= s);
            text::lemma_mentions_middle(s + "("@, t, ")"@);
        },
        (Some(r), None) => {
            let s = text::signed(r as int);
            assert(s.subrange(0, s.len() as int) =~= s);
        },
        _ => {},
    }
}

/// A game is told of exactly where it lists its teams, with the outcome of each of them.
pub proof fn lemma_analyze_game(game: i64, g: &Json, r: Result<String, ToolError>)
    requires
        call_ensures(analyze_game, (game, g), r),
    ensures
        r is Ok <==> g@.array_at("teams"@) is Some,
        r matches Ok(t) ==> forall|i: int|
            0 <= i < g@.array_at("teams"@)->0.len() ==> text::mentions(
                t@,
                "队"@ + text::decimal((i + 1) as nat) + "("@ + outcome(
                    team_slots(#[trigger] g@.array_at("teams"@)->0[i]),
                ) + "):\n"@,
            ),
{
    match r {
        Ok(t) => {
            let teams = g@.array_at("teams"@)->0;
            let lines = team_lines(teams, teams.len());
            let whole = entry_report(game as int, g@, teams);
            let head = whole.take(whole.len() - lines.len());
            assert(whole =~= head + lines + Seq::empty());
            assert forall|i: int| 0 <= i < teams.len() implies text::mentions(
                t@,
                "队"@ + text::decimal((i + 1) as nat) + "("@ + outcome(
                    team_slots(#[trigger] teams[i]),
                ) + "):\n"@,
            ) by {
                lemma_team_is_told(teams, i, teams.len());
                text::lemma_mentions_within(
                    head,
                    lines,
                    Seq::empty(),
                    "队"@ + text::decimal((i + 1) as nat) + "("@ + outcome(team_slots(teams[i]))
                        + "):\n"@,
                );
            }
        },
        Err(_) => {},
    }
}

proof fn lemma_team_is_told(teams: Seq<Doc>, i: int, n: nat)
    requires
        0 <= i < n <= teams.len(),
    ensures
        text::mentions(
            team_lines(teams, n),
            "队"@ + text::decimal((i + 1) as nat) + "("@ + outcome(team_slots(teams[i])) + "):\n"@,
        ),
    decreases n,
{
    let before = team_lines(teams, (n - 1) as nat);
    let slots = team_slots(teams[n - 1]);
    let head = "队"@ + text::decimal(n) + "("@ + outcome(slots) + "):\n"@;
    let rest = slot_lines(slots, slots.len());
    let now = team_lines(teams, n);
    assert(now =~= before + head + rest);
    if i == n - 1 {
        text::lemma_mentions_middle(before, head, rest);
    } else {
        lemma_team_is_told(teams, i, (n - 1) as nat);
        let p = "队"@ + text::decimal((i + 1) as nat) + "("@ + outcome(team_slots(teams[i]))
            + "):\n"@;
        text::lemma_mentions_within(Seq::empty(), before, head + rest, p);
        assert(Seq::empty() + before + (head + rest) =~= now);
    }
}

/// The minutes and the seconds of a report on a game make up its duration.
pub proof fn lemma_entry_duration(game: int, g: Doc, teams: Seq<Doc>)
    ensures
        ({
            let d = g.integer_or("duration"@, 0) as int;
            let m = number::quotient(d, 60);
            let s = number::remainder(d, 60);
            &&& 60 * m + s == d
            &&& text::mentions(
                entry_report(game, g, teams),
                " 时长="@ + text::signed(m) + "分"@ + text::signed(s) + "秒"@,
            )
        }),
{
    let d = g.integer_or("duration"@, 0) as int;
    let m = number::quotient(d, 60);
    let s = number::remainder(d, 60);
    number::lemma_quotient_remainder(d, 60);
    reveal_strlit("秒 服务器=");
    reveal_strlit("秒");
    reveal_strlit(" 服务器=");
    assert("秒 服务器="@ =~= "秒"@ + " 服务器="@);
    lemma_duration_within(
        "战报 对局"@ + text::signed(game) + ":"@ + g.text_or("kind"@, "-"@) + " 地图="@ + g.text_or(
            "map"@,
            "-"@,
        ) + " patch="@ + g.shown_or("patch"@, "-"@),
        " 时长="@,
        text::signed(m),
        "分"@,
        text::signed(s),
        "秒"@,
        " 服务器="@,
        g.text_or("server"@, "-"@),
        " 平均rating="@,
        match g.integer_at("average_rating"@) {
            Some(v) => text::signed(v as int),
            None => "-"@,
        },
        "\n"@,
        team_lines(teams, teams.len()),
    );
}

proof fn lemma_duration_within(
    a: Seq<char>,
    b: Seq<char>,
    c: Seq<char>,
    d: Seq<char>,
    e: Seq<char>,
    f: Seq<char>,
    g: Seq<char>,
    h: Seq<char>,
    i: Seq<char>,
    j: Seq<char>,
    k: Seq<char>,
    l: Seq<char>,
)
    ensures
        text::mentions(a + b + c + d + e + (f + g) + h + i + j + k + l, b + c + d + e + f),
{
    let whole = a + b + c + d + e + (f + g) + h + i + j + k + l;
    let mid = b + c + d + e + f;
    assert(whole.subrange(a.len() as int, a.len() as int + mid.len()) =~= mid);
    assert(text::occurs_at(whole, mid, a.len() as int));
}

}
