//! Gathering how civilizations fare, and telling what has been gathered.

use super::battle;
use super::error::ToolError;
use super::knowledge;
use super::summary;
use crate::json::{self, Doc, Fields, Items, Json};
use crate::order;
use crate::report::{self, Part, Report};
use crate::tally::{self, Count, Tally};
use crate::text;
use vstd::prelude::*;

verus! {

/// How two civilizations that met are named.
pub open spec fn matchup(a: Seq<char>, b: Seq<char>) -> Seq<char> {
    a + "_vs_"@ + b
}

/// The counts after the first `n` rows of the site's statistics of civilizations.
pub open spec fn civ_counts(rows: Seq<Doc>, n: nat) -> Seq<Count>
    decreases n,
{
    if n == 0 {
        Seq::empty()
    } else {
        let before = civ_counts(rows, (n - 1) as nat);
        match rows[n - 1].text_at("civilization"@) {
            Some(c) => tally::assigned(
                before,
                c,
                natural_or_zero(rows[n - 1], "games_count"@),
                natural_or_zero(rows[n - 1], "win_count"@),
            ),
            None => before,
        }
    }
}

/// The natural number of the member `key`, or zero.
pub open spec fn natural_or_zero(d: Doc, key: Seq<char>) -> nat {
    match d.natural_at(key) {
        Some(n) => n as nat,
        None => 0,
    }
}

fn natural(d: &Json, key: &str) -> (r: u64)
    ensures
        r == natural_or_zero(d@, key@),
{
    match d.natural_at(key) {
        Some(n) => n,
        None => 0,
    }
}

/// The counts after the first `n` rows of the site's statistics of encounters.
pub open spec fn matchup_counts(rows: Seq<Doc>, n: nat) -> Seq<Count>
    decreases n,
{
    if n == 0 {
        Seq::empty()
    } else {
        let before = matchup_counts(rows, (n - 1) as nat);
        match (
            rows[n - 1].text_at("civilization"@),
            rows[n - 1].text_at("other_civilization"@),
        ) {
            (Some(a), Some(b)) => tally::assigned(
                before,
                matchup(a, b),
                natural_or_zero(rows[n - 1], "games_count"@),
                natural_or_zero(rows[n - 1], "win_count"@),
            ),
            _ => before,
        }
    }
}

/// No civilization stands twice in the counts.
pub proof fn lemma_civ_counts_distinct(rows: Seq<Doc>, n: nat)
    ensures
        tally::distinct(civ_counts(rows, n)),
    decreases n,
{
    if n > 0 {
        lemma_civ_counts_distinct(rows, (n - 1) as nat);
        match rows[n - 1].text_at("civilization"@) {
            Some(c) => {
                tally::lemma_assigned_distinct(
                    civ_counts(rows, (n - 1) as nat),
                    c,
                    natural_or_zero(rows[n - 1], "games_count"@),
                    natural_or_zero(rows[n - 1], "win_count"@),
                );
            },
            None => {},
        }
    }
}

/// What has been gathered.
#[derive(Debug)]
pub struct Gathered {
    pub patch: String,
    pub civs: Tally,
    pub matchups: Tally,
}

/// The path of the statistics that are gathered from the site.
pub open spec fn aggregate_path(board: Seq<char>, what: Seq<char>) -> Seq<char> {
    "/stats/"@ + board + "/"@ + what
}

/// The paths of the two pages that are gathered from the site.
pub fn aggregate_paths(board: &str) -> (r: (String, String))
    ensures
        r.0@ == aggregate_path(board@, "civilizations"@),
        r.1@ == aggregate_path(board@, "matchups"@),
{
    (
        text::cat4("/stats/", board, "/", "civilizations"),
        text::cat4("/stats/", board, "/", "matchups"),
    )
}

/// Gathers the site's own statistics. They must not be empty.
pub fn gather_aggregate(civs: &Json, matchups: &Json) -> (r: Result<Gathered, ToolError>)
    ensures
        ({
            let cs = civs@.array_or_none("data"@);
            let ms = matchups@.array_or_none("data"@);
            if civ_counts(cs, cs.len()).len() == 0 {
                r matches Err(ToolError::EmptyAggregate)
            } else {
                r matches Ok(g) && g.patch@ == civs@.text_or("patch"@, "-"@) && g.civs@
                    == civ_counts(cs, cs.len()) && g.matchups@ == matchup_counts(ms, ms.len())
            }
        }),
{
    let none: Vec<Json> = Vec::new();
    let cs = summary::list_at(civs, "data", &none);
    let ms = summary::list_at(matchups, "data", &none);
    let mut civ_tally = Tally::new();
    let mut i: usize = 0;
    while i < cs.len()
        invariant
            i <= cs@.len(),
            civ_tally@ == civ_counts(json::docs(cs@), i as nat),
        decreases cs@.len() - i,
    {
        assert(json::docs(cs@)[i as int] == cs@[i as int]@);
        match cs[i].text_at("civilization") {
            Some(c) => {
                civ_tally.assign(c, natural(&cs[i], "games_count"), natural(&cs[i], "win_count"));
            },
            None => {},
        }
        i = i + 1;
    }
    let mut matchup_tally = Tally::new();
    let mut k: usize = 0;
    while k < ms.len()
        invariant
            k <= ms@.len(),
            matchup_tally@ == matchup_counts(json::docs(ms@), k as nat),
        decreases ms@.len() - k,
    {
        assert(json::docs(ms@)[k as int] == ms@[k as int]@);
        match (ms[k].text_at("civilization"), ms[k].text_at("other_civilization")) {
            (Some(a), Some(b)) => {
                matchup_tally.assign(
                    text::cat3(a, "_vs_", b).as_str(),
                    natural(&ms[k], "games_count"),
                    natural(&ms[k], "win_count"),
                );
            },
            _ => {},
        }
        k = k + 1;
    }
    if civ_tally.rows.len() == 0 {
        return Err(ToolError::EmptyAggregate);
    }
    let patch = civs.text_or("patch", "-").to_owned();
    Ok(Gathered { patch, civs: civ_tally, matchups: matchup_tally })
}

/// A player of the ladder whose games are gathered.
#[derive(Debug)]
pub struct Target {
    pub id: i64,
    pub name: String,
}

/// The players with a number among the first `n`.
pub open spec fn targets(players: Seq<Doc>, n: nat) -> Seq<(i64, Seq<char>)>
    decreases n,
{
    if n == 0 {
        Seq::empty()
    } else {
        let before = targets(players, (n - 1) as nat);
        match players[n - 1].integer_at("profile_id"@) {
            Some(id) => before.push((id, players[n - 1].text_or("name"@, "?"@))),
            None => before,
        }
    }
}

/// The views of the players whose games are gathered.
pub open spec fn target_views(v: Seq<Target>) -> Seq<(i64, Seq<char>)> {
    v.map_values(|t: Target| (t.id, t.name@))
}

/// The path of the ladder's first page.
pub fn ladder_path(board: &str) -> (r: String)
    ensures
        r@ == "/leaderboards/"@ + board@ + "?page=1"@,
{
    text::cat3("/leaderboards/", board, "?page=1")
}

/// The players among the first `top` of the ladder whose games are gathered.
pub fn ladder_targets(ladder: &Json, top: usize) -> (r: Result<Vec<Target>, ToolError>)
    ensures
        match ladder@.array_at("players"@) {
            Some(players) => r matches Ok(ts) && target_views(ts@) == targets(
                players,
                battle::at_most(players.len(), top as nat),
            ),
            None => r matches Err(ToolError::EmptyLadder),
        },
{
    let players = match ladder.array_at("players") {
        Some(v) => v,
        None => {
            return Err(ToolError::EmptyLadder);
        },
    };
    let n: usize = if players.len() < top {
        players.len()
    } else {
        top
    };
    let mut out: Vec<Target> = Vec::new();
    assert(target_views(out@) =~= Seq::<(i64, Seq<char>)>::empty());
    let mut i: usize = 0;
    while i < n
        invariant
            i <= n <= players@.len(),
            target_views(out@) == targets(json::docs(players@), i as nat),
        decreases n - i,
    {
        assert(json::docs(players@)[i as int] == players@[i as int]@);
        match players[i].integer_at("profile_id") {
            Some(id) => {
                let ghost had = target_views(out@);
                let t = Target { id, name: players[i].text_or("name", "?").to_owned() };
                out.push(t);
                assert(target_views(out@) =~= had.push((t.id, t.name@)));
            },
            None => {},
        }
        i = i + 1;
    }
    Ok(out)
}

/// The civilizations of the first `n` players.
pub open spec fn played(players: Seq<Doc>, n: nat) -> Seq<Seq<char>>
    decreases n,
{
    if n == 0 {
        Seq::empty()
    } else {
        let before = played(players, (n - 1) as nat);
        match players[n - 1].text_at("civilization"@) {
            Some(c) => before.push(c),
            None => before,
        }
    }
}

/// The last result among the first `n` players.
pub open spec fn last_result(players: Seq<Doc>, n: nat) -> Option<Seq<char>>
    decreases n,
{
    if n == 0 {
        None
    } else {
        match players[n - 1].text_at("result"@) {
            Some(r) => Some(r),
            None => last_result(players, (n - 1) as nat),
        }
    }
}

/// The players of the first team.
pub open spec fn first_team_players(game: Doc) -> Seq<Doc> {
    let teams = game.array_or_none("teams"@);
    if teams.len() == 0 {
        Seq::empty()
    } else {
        summary::slot_players(
            summary::team_slots(teams[0]),
            summary::team_slots(teams[0]).len(),
        )
    }
}

/// The two civilizations that met in a game, and whether the first team won; nothing where there
/// were not two, or the game has no result.
pub open spec fn encounter(game: Doc) -> Option<(Seq<char>, Seq<char>, bool)> {
    let players = summary::game_players(game);
    let civs = played(players, players.len());
    let first = first_team_players(game);
    if civs.len() < 2 || last_result(players, players.len()) is None {
        None
    } else {
        Some((civs[0], civs[1], last_result(first, first.len()) == Some("win"@)))
    }
}

fn last_result_of<'a>(players: &Vec<&'a Json>) -> (r: Option<&'a str>)
    ensures
        text::opt_str(r) == last_result(summary::ref_docs(players@), players@.len()),
{
    let ghost ps = summary::ref_docs(players@);
    let mut found: Option<&'a str> = None;
    let mut i: usize = 0;
    while i < players.len()
        invariant
            i <= players@.len(),
            ps == summary::ref_docs(players@),
            text::opt_str(found) == last_result(ps, i as nat),
        decreases players@.len() - i,
    {
        assert(ps[i as int] == players@[i as int]@);
        match players[i].text_at("result") {
            Some(r) => {
                found = Some(r);
            },
            None => {},
        }
        i = i + 1;
    }
    found
}

fn first_team_of<'a>(game: &'a Json) -> (r: Vec<&'a Json>)
    ensures
        summary::ref_docs(r@) == first_team_players(game@),
{
    let mut out: Vec<&'a Json> = Vec::new();
    assert(summary::ref_docs(out@) =~= Seq::<Doc>::empty());
    let teams = match game.array_at("teams") {
        Some(v) => v,
        None => {
            return out;
        },
    };
    if teams.len() == 0 {
        return out;
    }
    assert(json::docs(teams@)[0] == teams@[0]@);
    match teams[0].as_array() {
        Some(slots) => {
            let mut k: usize = 0;
            while k < slots.len()
                invariant
                    k <= slots@.len(),
                    summary::ref_docs(out@) == summary::slot_players(
                        json::docs(slots@),
                        k as nat,
                    ),
                decreases slots@.len() - k,
            {
                assert(json::docs(slots@)[k as int] == slots@[k as int]@);
                match slots[k].get("player") {
                    Some(p) => {
                        let ghost had = summary::ref_docs(out@);
                        out.push(p);
                        assert(summary::ref_docs(out@) =~= had.push(p@));
                    },
                    None => {},
                }
                k = k + 1;
            }
        },
        None => {},
    }
    out
}

fn read_encounter(game: &Json) -> (r: Option<(String, String, bool)>)
    ensures
        match r {
            Some((a, b, w)) => encounter(game@) == Some((a@, b@, w)),
            None => encounter(game@) is None,
        },
{
    let players = summary::players_of(game);
    let ghost ps = summary::ref_docs(players@);
    let mut civs: Vec<String> = Vec::new();
    assert(text::views(civs@) =~= Seq::<Seq<char>>::empty());
    let mut i: usize = 0;
    while i < players.len()
        invariant
            i <= players@.len(),
            ps == summary::ref_docs(players@),
            text::views(civs@) == played(ps, i as nat),
        decreases players@.len() - i,
    {
        assert(ps[i as int] == players@[i as int]@);
        match players[i].text_at("civilization") {
            Some(c) => {
                let t = c.to_owned();
                proof {
                    text::lemma_views_push(civs@, t);
                }
                civs.push(t);
            },
            None => {},
        }
        i = i + 1;
    }
    let ghost all = text::views(civs@);
    assert(all.len() == civs@.len());
    if civs.len() < 2 || last_result_of(&players).is_none() {
        return None;
    }
    let won = match last_result_of(&first_team_of(game)) {
        Some(r) => text::same(r, "win"),
        None => false,
    };
    assert(all[0] == civs@[0]@);
    assert(all[1] == civs@[1]@);
    Some((civs[0].clone(), civs[1].clone(), won))
}

/// What is known of the games that have been gathered from players.
pub struct CrawlModel {
    pub civs: Seq<Count>,
    pub matchups: Seq<Count>,
    pub games: nat,
    pub progress: Seq<char>,
}

/// The counts after one more game. Where a civilization met itself, it won.
pub open spec fn with_encounter(m: CrawlModel, game: Doc) -> CrawlModel {
    match encounter(game) {
        Some((a, b, first_won)) => CrawlModel {
            civs: tally::counted(
                tally::counted(m.civs, a, first_won || a == b),
                b,
                !first_won || a == b,
            ),
            matchups: tally::counted(m.matchups, matchup(a, b), first_won),
            games: m.games + 1,
            progress: m.progress,
        },
        None => m,
    }
}

/// The counts after the first `n` games.
pub open spec fn with_encounters(m: CrawlModel, games: Seq<Doc>, n: nat) -> CrawlModel
    decreases n,
{
    if n == 0 {
        m
    } else {
        with_encounter(with_encounters(m, games, (n - 1) as nat), games[n - 1])
    }
}

/// What is known after a page of a player's games.
pub open spec fn with_page(m: CrawlModel, name: Seq<char>, body: Doc, limit: nat) -> CrawlModel {
    let games = body.array_or_none("games"@);
    let counted = with_encounters(m, games, battle::at_most(games.len(), limit));
    CrawlModel { progress: counted.progress + ("已统计 "@ + name + " 的比赛\n"@), ..counted }
}

/// Whether the counts agree: each game has two civilizations and one encounter.
pub open spec fn crawl_consistent(m: CrawlModel) -> bool {
    &&& tally::total_games(m.civs, m.civs.len()) == 2 * m.games
    &&& tally::total_games(m.matchups, m.matchups.len()) == m.games
    &&& tally::distinct(m.civs)
    &&& tally::distinct(m.matchups)
}

/// Taking in a game keeps the counts in agreement.
pub proof fn lemma_encounter_consistent(m: CrawlModel, game: Doc)
    requires
        crawl_consistent(m),
    ensures
        crawl_consistent(with_encounter(m, game)),
{
    match encounter(game) {
        Some((a, b, first_won)) => {
            let one = tally::counted(m.civs, a, first_won || a == b);
            tally::lemma_counted_total(m.civs, a, first_won || a == b);
            tally::lemma_counted_total(one, b, !first_won || a == b);
            tally::lemma_counted_distinct(m.civs, a, first_won || a == b);
            tally::lemma_counted_distinct(one, b, !first_won || a == b);
            tally::lemma_counted_total(m.matchups, matchup(a, b), first_won);
            tally::lemma_counted_distinct(m.matchups, matchup(a, b), first_won);
        },
        None => {},
    }
}

proof fn lemma_encounters_consistent(m: CrawlModel, games: Seq<Doc>, n: nat)
    requires
        crawl_consistent(m),
    ensures
        crawl_consistent(with_encounters(m, games, n)),
    decreases n,
{
    if n > 0 {
        lemma_encounters_consistent(m, games, (n - 1) as nat);
        lemma_encounter_consistent(with_encounters(m, games, (n - 1) as nat), games[n - 1]);
    }
}

/// Taking in a page keeps the counts in agreement: every game that is counted has two
/// civilizations and one encounter.
pub proof fn lemma_page_consistent(m: CrawlModel, name: Seq<char>, body: Doc, limit: nat)
    requires
        crawl_consistent(m),
    ensures
        crawl_consistent(with_page(m, name, body, limit)),
{
    let games = body.array_or_none("games"@);
    lemma_encounters_consistent(m, games, battle::at_most(games.len(), limit));
}

/// The games that have been gathered from players.
#[derive(Debug)]
pub struct Crawl {
    pub civs: Tally,
    pub matchups: Tally,
    pub games: u64,
    pub progress: String,
}

impl View for Crawl {
    type V = CrawlModel;

    open spec fn view(&self) -> CrawlModel {
        CrawlModel {
            civs: self.civs@,
            matchups: self.matchups@,
            games: self.games as nat,
            progress: self.progress@,
        }
    }
}

/// Whether no count can run over within `room` more games.
pub open spec fn crawl_bounded(m: CrawlModel, n: nat) -> bool {
    tally::bounded(m.civs, 2 * n) && tally::bounded(m.matchups, n) && m.games <= n
}

proof fn lemma_encounter_bounded(m: CrawlModel, game: Doc, n: nat)
    requires
        crawl_bounded(m, n),
    ensures
        crawl_bounded(with_encounter(m, game), n + 1),
{
    match encounter(game) {
        Some((a, b, first_won)) => {
            let one = tally::counted(m.civs, a, first_won || a == b);
            tally::lemma_counted_bounded(m.civs, a, first_won || a == b, 2 * n);
            tally::lemma_counted_bounded(one, b, !first_won || a == b, 2 * n + 1);
            tally::lemma_counted_bounded(m.matchups, matchup(a, b), first_won, n);
        },
        None => {},
    }
}

impl Crawl {
    /// Nothing gathered.
    pub fn new() -> (r: Crawl)
        ensures
            r@ == (CrawlModel {
                civs: Seq::empty(),
                matchups: Seq::empty(),
                games: 0,
                progress: ""@,
            }),
            crawl_consistent(r@),
            crawl_bounded(r@, 0),
    {
        Crawl { civs: Tally::new(), matchups: Tally::new(), games: 0, progress: "".to_owned() }
    }

    fn add_game(&mut self, game: &Json)
        requires
            crawl_bounded(old(self)@, (u64::MAX / 2 - 1) as nat),
        ensures
            final(self)@ == with_encounter(old(self)@, game@),
    {
        match read_encounter(game) {
            Some((a, b, first_won)) => {
                let mirror = text::same(a.as_str(), b.as_str());
                proof {
                    tally::lemma_counted_bounded(
                        self.civs@,
                        a@,
                        first_won || a@ == b@,
                        (u64::MAX - 3) as nat,
                    );
                }
                self.civs.count(a.as_str(), first_won || mirror);
                self.civs.count(b.as_str(), !first_won || mirror);
                self.matchups.count(
                    text::cat3(a.as_str(), "_vs_", b.as_str()).as_str(),
                    first_won,
                );
                self.games = self.games + 1;
            },
            None => {},
        }
    }

    /// Takes in a page of a player's games, `limit` of them at most. `room` is how many games
    /// the counts have taken in at most.
    pub fn add_page(&mut self, name: &str, body: &Json, limit: usize, room: u64)
        requires
            crawl_bounded(old(self)@, room as nat),
            room + limit < u64::MAX / 2,
        ensures
            final(self)@ == with_page(old(self)@, name@, body@, limit as nat),
            crawl_bounded(final(self)@, (room + limit) as nat),
    {
        let none: Vec<Json> = Vec::new();
        let games = summary::list_at(body, "games", &none);
        let n: usize = if games.len() < limit {
            games.len()
        } else {
            limit
        };
        let ghost start = self@;
        let ghost all = json::docs(games@);
        let mut i: usize = 0;
        while i < n
            invariant
                i <= n <= games@.len(),
                n <= limit,
                room + limit < u64::MAX / 2,
                all == json::docs(games@),
                self@ == with_encounters(start, all, i as nat),
                crawl_bounded(self@, (room + i) as nat),
            decreases n - i,
        {
            assert(all[i as int] == games@[i as int]@);
            proof {
                lemma_encounter_bounded(self@, all[i as int], (room + i) as nat);
            }
            self.add_game(&games[i]);
            i = i + 1;
        }
        self.progress.append(text::cat3("已统计 ", name, " 的比赛\n").as_str());
    }
}

/// The games of each count.
pub open spec fn games_of(t: Seq<Count>) -> Seq<int> {
    t.map_values(|c: Count| c.games as int)
}

/// The parts on how a civilization fares, where `all` games were played.
pub open spec fn civ_rate_parts(c: Count, all: nat) -> Seq<Part> {
    seq![
        Part::Text("- "@ + c.name + ": "@),
        report::rate(c.wins as int, c.games as int, 1),
        Part::Text("% ("@ + text::decimal(c.wins) + "/"@ + text::decimal(c.games) + ") 登场率 "@),
        report::rate(c.games as int, all as int, 1),
        Part::Text("%\n"@),
    ]
}

/// The parts on the first `n` civilizations in the given order.
pub open spec fn civ_rates_told(t: Seq<Count>, places: Seq<int>, all: nat, n: nat) -> Seq<Part>
    decreases n,
{
    if n == 0 {
        Seq::empty()
    } else {
        civ_rates_told(t, places, all, (n - 1) as nat) + civ_rate_parts(t[places[n - 1]], all)
    }
}

/// The parts on how an encounter goes.
pub open spec fn matchup_parts(c: Count) -> Seq<Part> {
    seq![
        Part::Text("- "@ + c.name + ": "@),
        report::rate(c.wins as int, c.games as int, 2),
        Part::Text("% ("@ + text::decimal(c.wins) + "/"@ + text::decimal(c.games) + ")\n"@),
    ]
}

/// The parts on the first `n` encounters in the given order.
pub open spec fn matchups_told(t: Seq<Count>, places: Seq<int>, n: nat) -> Seq<Part>
    decreases n,
{
    if n == 0 {
        Seq::empty()
    } else {
        matchups_told(t, places, (n - 1) as nat) + matchup_parts(t[places[n - 1]])
    }
}

/// How many civilizations and how many encounters are told.
pub const RATES_TOLD: usize = 20;

/// The heading above the encounters.
pub const MATCHUPS_HEADING: &'static str = "\n文明对阵胜率(前 20):\n";

/// Half the games of the civilizations: each game has two of them.
pub open spec fn civ_sample(civs: Seq<Count>) -> nat {
    tally::total_games(civs, civs.len()) / 2
}

/// The report on what has been gathered, the most played first.
pub open spec fn gathered_report(
    source: Seq<char>,
    patch: Seq<char>,
    games: nat,
    civs: Seq<Count>,
    matchups: Seq<Count>,
    dir: Seq<char>,
    progress: Seq<char>,
) -> Seq<Part> {
    seq![
        Part::Text(
            "胜率分析完成("@ + source + ",patch "@ + patch + "):统计 "@ + text::decimal(games)
                + " 场(文明样本 "@ + text::decimal(civ_sample(civs))
                + " 场)\n\n文明登场/胜率:\n"@,
        ),
    ] + civ_rates_told(
        civs,
        order::descending(games_of(civs)),
        civ_sample(civs),
        battle::at_most(civs.len(), RATES_TOLD as nat),
    ) + seq![Part::Text(MATCHUPS_HEADING@)] + matchups_told(
        matchups,
        order::descending(games_of(matchups)),
        battle::at_most(matchups.len(), RATES_TOLD as nat),
    ) + seq![
        Part::Text("\n知识库已更新:"@ + dir + "/knowledge.json\n"@),
        Part::Text(progress),
    ]
}

fn order_by_games(t: &Tally) -> (r: Vec<usize>)
    ensures
        order::places(r@) == order::descending(games_of(t@)),
        r@.len() == t.rows@.len(),
        forall|i: int| 0 <= i < r@.len() ==> (#[trigger] r@[i]) < t.rows@.len(),
{
    let mut keys: Vec<i128> = Vec::new();
    let mut i: usize = 0;
    while i < t.rows.len()
        invariant
            i <= t.rows@.len(),
            keys@.len() == i,
            forall|k: int| 0 <= k < i ==> (#[trigger] keys@[k]) == t.rows@[k].games,
        decreases t.rows@.len() - i,
    {
        keys.push(t.rows[i].games as i128);
        i = i + 1;
    }
    assert(order::key_values(keys@) =~= games_of(t@));
    order::order_descending(&keys)
}

fn rates_text(row: &tally::Row, tail: &str) -> (r: String)
    ensures
        r@ == "% ("@ + text::decimal(row.wins as nat) + "/"@ + text::decimal(row.games as nat)
            + tail@,
{
    text::cat5(
        "% (",
        text::decimal_text(row.wins as u128).as_str(),
        "/",
        text::decimal_text(row.games as u128).as_str(),
        tail,
    )
}

fn tell_civ_rates(t: &Tally, all: u128) -> (r: Report)
    requires
        all == civ_sample(t@),
        all <= i128::MAX,
    ensures
        r@ == civ_rates_told(
            t@,
            order::descending(games_of(t@)),
            all as nat,
            battle::at_most(t@.len(), RATES_TOLD as nat),
        ),
{
    let places = order_by_games(t);
    let ghost sorted = order::descending(games_of(t@));
    let n: usize = if t.rows.len() < RATES_TOLD {
        t.rows.len()
    } else {
        RATES_TOLD
    };
    let mut out = Report::new();
    let mut k: usize = 0;
    while k < n
        invariant
            k <= n <= places@.len(),
            all <= i128::MAX,
            places@.len() == t.rows@.len(),
            sorted == order::places(places@),
            forall|j: int| 0 <= j < places@.len() ==> (#[trigger] places@[j]) < t.rows@.len(),
            out@ == civ_rates_told(t@, sorted, all as nat, k as nat),
        decreases n - k,
    {
        let p: usize = places[k];
        let row = &t.rows[p];
        let ghost had = out@;
        assert(sorted[k as int] == p as int);
        assert(t@[p as int] == row@);
        out.text(text::cat3("- ", row.name.as_str(), ": ").as_str());
        out.rate(row.wins as i128, row.games as i128, 1);
        out.text(rates_text(row, ") 登场率 ").as_str());
        out.rate(row.games as i128, all as i128, 1);
        out.text("%\n");
        assert(out@ =~= had + civ_rate_parts(row@, all as nat));
        k = k + 1;
    }
    out
}

fn tell_matchups(t: &Tally) -> (r: Report)
    ensures
        r@ == matchups_told(
            t@,
            order::descending(games_of(t@)),
            battle::at_most(t@.len(), RATES_TOLD as nat),
        ),
{
    let places = order_by_games(t);
    let ghost sorted = order::descending(games_of(t@));
    let n: usize = if t.rows.len() < RATES_TOLD {
        t.rows.len()
    } else {
        RATES_TOLD
    };
    let mut out = Report::new();
    let mut k: usize = 0;
    while k < n
        invariant
            k <= n <= places@.len(),
            places@.len() == t.rows@.len(),
            sorted == order::places(places@),
            forall|j: int| 0 <= j < places@.len() ==> (#[trigger] places@[j]) < t.rows@.len(),
            out@ == matchups_told(t@, sorted, k as nat),
        decreases n - k,
    {
        let p: usize = places[k];
        let row = &t.rows[p];
        let ghost had = out@;
        assert(sorted[k as int] == p as int);
        assert(t@[p as int] == row@);
        out.text(text::cat3("- ", row.name.as_str(), ": ").as_str());
        out.rate(row.wins as i128, row.games as i128, 2);
        out.text(rates_text(row, ")\n").as_str());
        assert(out@ =~= had + matchup_parts(row@));
        k = k + 1;
    }
    out
}

/// The report on what has been gathered.
pub fn report_gathered(
    source: &str,
    patch: &str,
    games: u64,
    civs: &Tally,
    matchups: &Tally,
    dir: &str,
    progress: &str,
) -> (r: Report)
    ensures
        r@ == gathered_report(
            source@,
            patch@,
            games as nat,
            civs@,
            matchups@,
            dir@,
            progress@,
        ),
{
    let all: u128 = civs.games() / 2;
    let mut head = text::cat5("胜率分析完成(", source, ",patch ", patch, "):统计 ");
    head.append(text::decimal_text(games as u128).as_str());
    head.append(" 场(文明样本 ");
    head.append(text::decimal_text(all).as_str());
    head.append(" 场)\n\n文明登场/胜率:\n");
    let mut out = Report::new();
    out.text(head.as_str());
    out.extend(tell_civ_rates(civs, all));
    let mut middle = Report::new();
    middle.text(MATCHUPS_HEADING);
    out.extend(middle);
    out.extend(tell_matchups(matchups));
    let mut tail = Report::new();
    tail.text(text::cat3("\n知识库已更新:", dir, "/knowledge.json\n").as_str());
    tail.text(progress);
    out.extend(tail);
    out
}

/// A count as a JSON object, in which the name is called `key`.
pub open spec fn count_doc(key: Seq<char>, c: Count) -> Doc {
    Doc::Object(
        json::fields().push((key, Doc::Text(c.name))).push(
            ("games"@, Doc::Unsigned(c.games as u64)),
        ).push(("wins"@, Doc::Unsigned(c.wins as u64))),
    )
}

/// The counts as a JSON array.
pub open spec fn counts_doc(key: Seq<char>, t: Seq<Count>) -> Doc {
    Doc::Array(t.map_values(|c: Count| count_doc(key, c)))
}

fn counts_json(key: &str, t: &Tally) -> (r: Json)
    ensures
        r@ == counts_doc(key@, t@),
{
    let mut items = Items::new();
    let ghost all = t@.map_values(|c: Count| count_doc(key@, c));
    let mut i: usize = 0;
    assert(all.take(0) =~= Seq::<Doc>::empty());
    while i < t.rows.len()
        invariant
            i <= t.rows@.len(),
            all == t@.map_values(|c: Count| count_doc(key@, c)),
            items@ == all.take(i as int),
        decreases t.rows@.len() - i,
    {
        let row = &t.rows[i];
        let v = Fields::new().with(key, json::string(row.name.as_str())).with(
            "games",
            Json::Unsigned(row.games),
        ).with("wins", Json::Unsigned(row.wins)).build();
        assert(t@[i as int] == row@);
        assert(v@ == all[i as int]);
        items = items.with(v);
        assert(all.take(i + 1) =~= all.take(i as int).push(all[i as int]));
        i = i + 1;
    }
    assert(all.take(all.len() as int) =~= all);
    items.build()
}

/// What is kept of what has been gathered.
pub open spec fn knowledge_doc(
    now: u64,
    board: Seq<char>,
    source: Seq<char>,
    patch: Seq<char>,
    games: u64,
    civs: Seq<Count>,
    matchups: Seq<Count>,
) -> Doc {
    Doc::Object(
        json::fields().push(("updated_at"@, Doc::Unsigned(now))).push(
            ("board"@, Doc::Text(board)),
        ).push(("source"@, Doc::Text(source))).push(("patch"@, Doc::Text(patch))).push(
            ("games"@, Doc::Unsigned(games)),
        ).push(("civilizations"@, counts_doc("civ"@, civs))).push(
            ("matchups"@, counts_doc("matchup"@, matchups)),
        ),
    )
}

/// What is kept of what has been gathered.
pub fn knowledge_json(
    now: u64,
    board: &str,
    source: &str,
    patch: &str,
    games: u64,
    civs: &Tally,
    matchups: &Tally,
) -> (r: Json)
    ensures
        r@ == knowledge_doc(now, board@, source@, patch@, games, civs@, matchups@),
{
    Fields::new().with("updated_at", Json::Unsigned(now)).with("board", json::string(board)).with(
        "source",
        json::string(source),
    ).with("patch", json::string(patch)).with("games", Json::Unsigned(games)).with(
        "civilizations",
        counts_json("civ", civs),
    ).with("matchups", counts_json("matchup", matchups)).build()
}

/// Where statistics come from that are the site's own.
pub const AGGREGATE: &'static str = "官方聚合";

/// Where statistics come from that are gathered from the ladder's players.
pub const CRAWL: &'static str = "天梯抓取";

/// What is kept of the site's own statistics, and the report on them. As many games are told as
/// the encounters have.
pub fn analyze_via_stats(found: &Gathered, board: &str, now: u64, dir: &str) -> (r: (Json, Report))
    requires
        tally::total_games(found.matchups@, found.matchups@.len()) <= u64::MAX,
    ensures
        ({
            let games = tally::total_games(found.matchups@, found.matchups@.len());
            &&& r.0@ == knowledge_doc(
                now,
                board@,
                AGGREGATE@,
                found.patch@,
                games as u64,
                found.civs@,
                found.matchups@,
            )
            &&& r.1@ == gathered_report(
                AGGREGATE@,
                found.patch@,
                games,
                found.civs@,
                found.matchups@,
                dir@,
                ""@,
            )
        }),
{
    let games: u64 = found.matchups.games() as u64;
    let patch = found.patch.as_str();
    (
        knowledge_json(now, board, AGGREGATE, patch, games, &found.civs, &found.matchups),
        report_gathered(AGGREGATE, patch, games, &found.civs, &found.matchups, dir, ""),
    )
}

/// What is kept of the statistics that were gathered from players, and the report on them. They
/// are of no one patch.
pub fn analyze_via_crawl(crawl: &Crawl, board: &str, now: u64, dir: &str) -> (r: (Json, Report))
    ensures
        r.0@ == knowledge_doc(
            now,
            board@,
            CRAWL@,
            "-"@,
            crawl.games,
            crawl@.civs,
            crawl@.matchups,
        ),
        r.1@ == gathered_report(
            CRAWL@,
            "-"@,
            crawl@.games,
            crawl@.civs,
            crawl@.matchups,
            dir@,
            crawl@.progress,
        ),
{
    let progress = crawl.progress.as_str();
    (
        knowledge_json(now, board, CRAWL, "-", crawl.games, &crawl.civs, &crawl.matchups),
        report_gathered(CRAWL, "-", crawl.games, &crawl.civs, &crawl.matchups, dir, progress),
    )
}

/// The first civilization of an encounter is that of the first player who has one, and the second
/// that of the next such player. A game without two of them, or without any result, is none.
pub proof fn lemma_encounter(game: Doc)
    ensures
        ({
            let players = summary::game_players(game);
            match encounter(game) {
                Some((a, b, _)) => {
                    &&& exists|i: int, j: int|
                        0 <= i < j < players.len() && #[trigger] players[i].text_at(
                            "civilization"@,
                        ) == Some(a) && #[trigger] players[j].text_at("civilization"@) == Some(b)
                            && forall|k: int|
                            0 <= k < j && k != i ==> (#[trigger] players[k]).text_at(
                                "civilization"@,
                            ) is None
                    &&& exists|i: int|
                        0 <= i < players.len() && (#[trigger] players[i]).text_at("result"@) is Some
                },
                None => {
                    ||| forall|i: int|
                        0 <= i < players.len() ==> (#[trigger] players[i]).text_at("result"@) is None
                    ||| forall|i: int, j: int|
                        0 <= i < j < players.len() ==> (#[trigger] players[i]).text_at(
                            "civilization"@,
                        ) is None || (#[trigger] players[j]).text_at("civilization"@) is None
                },
            }
        }),
{
    let players = summary::game_players(game);
    lemma_played(players, players.len());
    lemma_last_result(players, players.len());
}

proof fn lemma_played(players: Seq<Doc>, n: nat)
    requires
        n <= players.len(),
    ensures
        played(players, n).len() == 0 ==> forall|i: int|
            0 <= i < n ==> (#[trigger] players[i]).text_at("civilization"@) is None,
        played(players, n).len() == 1 ==> exists|i: int|
            0 <= i < n && (#[trigger] players[i]).text_at("civilization"@) == Some(
                played(players, n)[0],
            ) && forall|k: int|
                0 <= k < n && k != i ==> (#[trigger] players[k]).text_at("civilization"@) is None,
        played(players, n).len() >= 2 ==> exists|i: int, j: int|
            0 <= i < j < n && #[trigger] players[i].text_at("civilization"@) == Some(
                played(players, n)[0],
            ) && #[trigger] players[j].text_at("civilization"@) == Some(played(players, n)[1])
                && forall|k: int|
                0 <= k < j && k != i ==> (#[trigger] players[k]).text_at("civilization"@) is None,
    decreases n,
{
    if n > 0 {
        let before = played(players, (n - 1) as nat);
        let now = played(players, n);
        lemma_played(players, (n - 1) as nat);
        match players[n - 1].text_at("civilization"@) {
            Some(c) => {
                assert(now == before.push(c));
                if before.len() == 0 {
                    assert(players[n - 1].text_at("civilization"@) == Some(now[0]));
                } else if before.len() == 1 {
                    let i = choose|i: int|
                        0 <= i < n - 1 && (#[trigger] players[i]).text_at("civilization"@) == Some(
                            before[0],
                        ) && forall|k: int|
                            0 <= k < n - 1 && k != i ==> (#[trigger] players[k]).text_at(
                                "civilization"@,
                            ) is None;
                    assert(players[i].text_at("civilization"@) == Some(now[0]));
                    assert(players[n - 1].text_at("civilization"@) == Some(now[1]));
                } else {
                    assert(now[0] == before[0] && now[1] == before[1]);
                }
            },
            None => {},
        }
    }
}

proof fn lemma_last_result(players: Seq<Doc>, n: nat)
    requires
        n <= players.len(),
    ensures
        match last_result(players, n) {
            Some(r) => exists|i: int|
                0 <= i < n && (#[trigger] players[i]).text_at("result"@) == Some(r) && forall|k: int|
                    i < k < n ==> (#[trigger] players[k]).text_at("result"@) is None,
            None => forall|i: int|
                0 <= i < n ==> (#[trigger] players[i]).text_at("result"@) is None,
        },
    decreases n,
{
    if n > 0 {
        lemma_last_result(players, (n - 1) as nat);
        if players[n - 1].text_at("result"@) is None && last_result(players, (n - 1) as nat)
            is Some {
            let r = last_result(players, (n - 1) as nat)->0;
            let i = choose|i: int|
                0 <= i < n - 1 && (#[trigger] players[i]).text_at("result"@) == Some(r)
                    && forall|k: int|
                    i < k < n - 1 ==> (#[trigger] players[k]).text_at("result"@) is None;
            assert(players[i].text_at("result"@) == Some(r));
        }
    }
}

/// The first team has won where its players have won, and has not where none of them has.
pub proof fn lemma_first_team_decides(game: Doc)
    requires
        encounter(game) is Some,
    ensures
        ({
            let first = first_team_players(game);
            let (_, _, won) = encounter(game)->0;
            &&& (exists|i: int|
                0 <= i < first.len() && (#[trigger] first[i]).text_at("result"@) is Some) && (forall|
                i: int,
            |
                0 <= i < first.len() && (#[trigger] first[i]).text_at("result"@) is Some
                    ==> first[i].text_at("result"@) == Some("win"@)) ==> won
            &&& (forall|i: int|
                0 <= i < first.len() ==> (#[trigger] first[i]).text_at("result"@) != Some("win"@))
                ==> !won
        }),
{
    let first = first_team_players(game);
    lemma_last_result(first, first.len());
}

/// Whether a civilization meets itself in a game.
pub open spec fn is_mirror(game: Doc) -> bool {
    match encounter(game) {
        Some((a, b, _)) => a == b,
        None => false,
    }
}

/// A counted game gives each of its two civilizations a game, and exactly one of them a win: the
/// first if its team has won, and the second if it has not. No other civilization's counts change,
/// and the encounter is counted with it.
pub proof fn lemma_one_of_two_wins(m: CrawlModel, game: Doc, other: Seq<char>)
    requires
        crawl_consistent(m),
        encounter(game) is Some,
        !is_mirror(game),
    ensures
        ({
            let (a, b, first_won) = encounter(game)->0;
            let next = with_encounter(m, game);
            let met = a + "_vs_"@ + b;
            &&& tally::games_of(next.civs, a) == tally::games_of(m.civs, a) + 1
            &&& tally::games_of(next.civs, b) == tally::games_of(m.civs, b) + 1
            &&& first_won ==> tally::wins_of(next.civs, a) == tally::wins_of(m.civs, a) + 1
                && tally::wins_of(next.civs, b) == tally::wins_of(m.civs, b)
            &&& !first_won ==> tally::wins_of(next.civs, a) == tally::wins_of(m.civs, a)
                && tally::wins_of(next.civs, b) == tally::wins_of(m.civs, b) + 1
            &&& other != a && other != b ==> tally::games_of(next.civs, other) == tally::games_of(
                m.civs,
                other,
            ) && tally::wins_of(next.civs, other) == tally::wins_of(m.civs, other)
            &&& tally::total_wins(next.civs, next.civs.len()) == tally::total_wins(
                m.civs,
                m.civs.len(),
            ) + 1
            &&& tally::games_of(next.matchups, met) == tally::games_of(m.matchups, met) + 1
            &&& first_won ==> tally::wins_of(next.matchups, met) == tally::wins_of(m.matchups, met)
                + 1
            &&& !first_won ==> tally::wins_of(next.matchups, met) == tally::wins_of(m.matchups, met)
            &&& other != met ==> tally::games_of(next.matchups, other) == tally::games_of(
                m.matchups,
                other,
            ) && tally::wins_of(next.matchups, other) == tally::wins_of(m.matchups, other)
            &&& next.games == m.games + 1
            &&& next.progress == m.progress
        }),
{
    let (a, b, first_won) = encounter(game)->0;
    let one = tally::counted(m.civs, a, first_won);
    tally::lemma_counted_distinct(m.civs, a, first_won);
    tally::lemma_counted_names(m.civs, a, first_won, b);
    tally::lemma_counted_names(m.civs, a, first_won, other);
    tally::lemma_counted_names(one, b, !first_won, a);
    tally::lemma_counted_names(one, b, !first_won, other);
    tally::lemma_counted_total(m.civs, a, first_won);
    tally::lemma_counted_total(one, b, !first_won);
    tally::lemma_counted_names(m.matchups, matchup(a, b), first_won, other);
}

/// A civilization that met itself gains two games and two wins.
pub proof fn lemma_mirror_counts_twice(m: CrawlModel, game: Doc)
    requires
        crawl_consistent(m),
        encounter(game) is Some,
        is_mirror(game),
    ensures
        ({
            let (a, _, _) = encounter(game)->0;
            let next = with_encounter(m, game);
            &&& tally::games_of(next.civs, a) == tally::games_of(m.civs, a) + 2
            &&& tally::wins_of(next.civs, a) == tally::wins_of(m.civs, a) + 2
            &&& next.games == m.games + 1
        }),
{
    let (a, b, first_won) = encounter(game)->0;
    let one = tally::counted(m.civs, a, true);
    tally::lemma_counted_distinct(m.civs, a, true);
    tally::lemma_counted_names(m.civs, a, true, b);
    tally::lemma_counted_names(one, b, true, a);
}

/// A game that is no encounter is not counted at all.
pub proof fn lemma_other_games_do_not_count(m: CrawlModel, game: Doc)
    requires
        encounter(game) is None,
    ensures
        with_encounter(m, game) == m,
{
}

/// Over games in which no civilization meets itself, as many wins are counted as games.
pub proof fn lemma_wins_match_games(m: CrawlModel, games: Seq<Doc>, n: nat)
    requires
        crawl_consistent(m),
        n <= games.len(),
        forall|i: int|
            0 <= i < n ==> !is_mirror(#[trigger] games[i]),
    ensures
        ({
            let next = with_encounters(m, games, n);
            tally::total_wins(next.civs, next.civs.len()) - tally::total_wins(m.civs, m.civs.len())
                == next.games - m.games
        }),
    decreases n,
{
    if n > 0 {
        let before = with_encounters(m, games, (n - 1) as nat);
        lemma_wins_match_games(m, games, (n - 1) as nat);
        lemma_encounters_consistent(m, games, (n - 1) as nat);
        if encounter(games[n - 1]) is Some {
            lemma_one_of_two_wins(before, games[n - 1], Seq::empty());
        }
    }
}

/// What comes of two stretches of games is what comes of the second after the first.
pub proof fn lemma_encounters_join(m: CrawlModel, a: Seq<Doc>, b: Seq<Doc>)
    ensures
        with_encounters(m, a + b, (a + b).len()) == with_encounters(
            with_encounters(m, a, a.len()),
            b,
            b.len(),
        ),
    decreases b.len(),
{
    if b.len() == 0 {
        assert(a + b =~= a);
    } else {
        let c = b.drop_last();
        lemma_encounters_join(m, a, c);
        lemma_encounters_take(m, a + b, ((a + b).len() - 1) as nat);
        lemma_encounters_take(with_encounters(m, a, a.len()), b, (b.len() - 1) as nat);
        assert((a + b).take((a + b).len() - 1) =~= a + c);
        assert(b.take(b.len() - 1) =~= c);
    }
}

proof fn lemma_encounters_take(m: CrawlModel, games: Seq<Doc>, n: nat)
    requires
        n <= games.len(),
    ensures
        with_encounters(m, games, n) == with_encounters(m, games.take(n as int), n),
    decreases n,
{
    if n > 0 {
        lemma_encounters_take(m, games, (n - 1) as nat);
        lemma_encounters_take(m, games.take(n as int), (n - 1) as nat);
        assert(games.take(n as int).take(n - 1) =~= games.take(n - 1));
    }
}

/// What the site says of a civilization in a row that is the last on it is what is gathered.
pub proof fn lemma_last_row_counts(rows: Seq<Doc>, i: int, n: nat)
    requires
        0 <= i < n <= rows.len(),
        rows[i].text_at("civilization"@) is Some,
        forall|k: int|
            i < k < n ==> (#[trigger] rows[k]).text_at("civilization"@) != rows[i].text_at(
                "civilization"@,
            ),
    ensures
        ({
            let civ = rows[i].text_at("civilization"@)->0;
            &&& rows[i].natural_at("games_count"@) matches Some(g) ==> tally::games_of(
                civ_counts(rows, n),
                civ,
            ) == g
            &&& rows[i].natural_at("win_count"@) matches Some(w) ==> tally::wins_of(
                civ_counts(rows, n),
                civ,
            ) == w
        }),
    decreases n,
{
    let civ = rows[i].text_at("civilization"@)->0;
    let before = civ_counts(rows, (n - 1) as nat);
    lemma_civ_counts_distinct(rows, (n - 1) as nat);
    match rows[n - 1].text_at("civilization"@) {
        Some(c) => {
            tally::lemma_assigned_names(
                before,
                c,
                natural_or_zero(rows[n - 1], "games_count"@),
                natural_or_zero(rows[n - 1], "win_count"@),
                civ,
            );
        },
        None => {},
    }
    if i < n - 1 {
        lemma_last_row_counts(rows, i, (n - 1) as nat);
    }
}

/// Encounters never stand twice in what the site says of them.
pub proof fn lemma_matchup_counts_distinct(rows: Seq<Doc>, n: nat)
    ensures
        tally::distinct(matchup_counts(rows, n)),
    decreases n,
{
    if n > 0 {
        lemma_matchup_counts_distinct(rows, (n - 1) as nat);
        match (rows[n - 1].text_at("civilization"@), rows[n - 1].text_at("other_civilization"@)) {
            (Some(a), Some(b)) => {
                tally::lemma_assigned_distinct(
                    matchup_counts(rows, (n - 1) as nat),
                    matchup(a, b),
                    natural_or_zero(rows[n - 1], "games_count"@),
                    natural_or_zero(rows[n - 1], "win_count"@),
                );
            },
            _ => {},
        }
    }
}

/// What the site says of an encounter in its last row is what is gathered, under the two names in
/// their order.
pub proof fn lemma_last_encounter_counts(rows: Seq<Doc>, n: nat)
    requires
        0 < n <= rows.len(),
        rows[n - 1].text_at("civilization"@) is Some,
        rows[n - 1].text_at("other_civilization"@) is Some,
    ensures
        ({
            let row = rows[n - 1];
            let met = row.text_at("civilization"@)->0 + "_vs_"@ + row.text_at(
                "other_civilization"@,
            )->0;
            &&& row.natural_at("games_count"@) matches Some(g) ==> tally::games_of(
                matchup_counts(rows, n),
                met,
            ) == g
            &&& row.natural_at("win_count"@) matches Some(w) ==> tally::wins_of(
                matchup_counts(rows, n),
                met,
            ) == w
        }),
{
    let row = rows[n - 1];
    let met = matchup(row.text_at("civilization"@)->0, row.text_at("other_civilization"@)->0);
    lemma_matchup_counts_distinct(rows, (n - 1) as nat);
    tally::lemma_assigned_names(
        matchup_counts(rows, (n - 1) as nat),
        met,
        natural_or_zero(row, "games_count"@),
        natural_or_zero(row, "win_count"@),
        met,
    );
}

/// The first team's players come out of the first team's slots alone.
pub proof fn lemma_first_team(game: Doc, p: Doc)
    ensures
        first_team_players(game).contains(p) <==> game.array_or_none("teams"@).len() > 0
            && game.array_or_none("teams"@)[0].array() is Some && exists|b: int|
            0 <= b < game.array_or_none("teams"@)[0].array()->0.len() && (
            #[trigger] game.array_or_none("teams"@)[0].array()->0[b]).field("player"@) == Some(p),
{
    let teams = game.array_or_none("teams"@);
    if teams.len() > 0 {
        let slots = summary::team_slots(teams[0]);
        let one = Doc::Object(seq![("teams"@, Doc::Array(seq![teams[0]]))]);
        assert(one.array_or_none("teams"@) =~= seq![teams[0]]);
        summary::lemma_one_team(teams[0]);
        assert(summary::game_players(one) == first_team_players(game));
        summary::lemma_game_players(one, p);
        if first_team_players(game).contains(p) {
            let (a, b) = choose|a: int, b: int|
                0 <= a < one.array_or_none("teams"@).len() && one.array_or_none(
                    "teams"@,
                )[a].array() is Some && 0 <= b < one.array_or_none("teams"@)[a].array()->0.len()
                    && (#[trigger] one.array_or_none("teams"@)[a].array()->0[b]).field("player"@)
                    == Some(p);
            assert(a == 0);
            assert(teams[0].array()->0[b].field("player"@) == Some(p));
        }
        if teams[0].array() is Some && exists|b: int|
            0 <= b < teams[0].array()->0.len() && (#[trigger] teams[0].array()->0[b]).field(
                "player"@,
            ) == Some(p) {
            let b = choose|b: int|
                0 <= b < teams[0].array()->0.len() && (#[trigger] teams[0].array()->0[b]).field(
                    "player"@,
                ) == Some(p);
            assert(one.array_or_none("teams"@)[0].array()->0[b].field("player"@) == Some(p));
        }
    }
}

/// A ladder's targets are its players that have a number, with their names.
pub proof fn lemma_targets(players: Seq<Doc>, n: nat, id: i64, name: Seq<char>)
    requires
        n <= players.len(),
    ensures
        targets(players, n).contains((id, name)) <==> exists|i: int|
            0 <= i < n && (#[trigger] players[i]).integer_at("profile_id"@) == Some(id)
                && players[i].text_or("name"@, "?"@) == name,
        targets(players, n).len() <= n,
    decreases n,
{
    if n > 0 {
        let before = targets(players, (n - 1) as nat);
        let now = targets(players, n);
        lemma_targets(players, (n - 1) as nat, id, name);
        match players[n - 1].integer_at("profile_id"@) {
            Some(i) => {
                let t = (i, players[n - 1].text_or("name"@, "?"@));
                assert(now == before.push(t));
                assert(now[before.len() as int] == t);
                if before.contains((id, name)) {
                    let k = before.index_of((id, name));
                    assert(now[k] == (id, name));
                }
                if now.contains((id, name)) {
                    let k = now.index_of((id, name));
                    if k < before.len() {
                        assert(before[k] == (id, name));
                    }
                }
            },
            None => {},
        }
    }
}

/// Of a page no more games are counted than the limit says, and all up to it.
pub proof fn lemma_page_is_limited(m: CrawlModel, name: Seq<char>, body: Doc, limit: nat)
    ensures
        ({
            let games = body.array_or_none("games"@);
            let next = with_page(m, name, body, limit);
            &&& games.len() <= limit ==> next.civs == with_encounters(m, games, games.len()).civs
                && next.games == with_encounters(m, games, games.len()).games
            &&& games.len() > limit ==> {
                let some = games.take(limit as int);
                next.civs == with_encounters(m, some, some.len()).civs && next.games
                    == with_encounters(m, some, some.len()).games
            }
            &&& next.games <= m.games + limit
        }),
{
    let games = body.array_or_none("games"@);
    if games.len() > limit {
        lemma_encounters_take(m, games, limit);
        lemma_encounters_few(m, games, limit);
    } else {
        lemma_encounters_few(m, games, games.len());
    }
}

proof fn lemma_encounters_few(m: CrawlModel, games: Seq<Doc>, n: nat)
    ensures
        m.games <= with_encounters(m, games, n).games <= m.games + n,
    decreases n,
{
    if n > 0 {
        lemma_encounters_few(m, games, (n - 1) as nat);
    }
}

/// The site's statistics are refused exactly where no row of theirs names a civilization, and else
/// the last row on a civilization counts.
pub proof fn lemma_gathered(
    civs: &Json,
    matchups: &Json,
    r: Result<Gathered, ToolError>,
    i: int,
)
    requires
        call_ensures(gather_aggregate, (civs, matchups), r),
    ensures
        r is Err <==> forall|k: int|
            0 <= k < civs@.array_or_none("data"@).len() ==> (#[trigger] civs@.array_or_none(
                "data"@,
            )[k]).text_at("civilization"@) is None,
        ({
            let rows = civs@.array_or_none("data"@);
            0 <= i < rows.len() && rows[i].text_at("civilization"@) is Some && (forall|k: int|
                i < k < rows.len() ==> (#[trigger] rows[k]).text_at("civilization"@)
                    != rows[i].text_at("civilization"@)) ==> {
                &&& r is Ok
                &&& rows[i].natural_at("games_count"@) matches Some(g) ==> tally::games_of(
                    r->Ok_0.civs@,
                    rows[i].text_at("civilization"@)->0,
                ) == g
                &&& rows[i].natural_at("win_count"@) matches Some(w) ==> tally::wins_of(
                    r->Ok_0.civs@,
                    rows[i].text_at("civilization"@)->0,
                ) == w
            }
        }),
{
    let rows = civs@.array_or_none("data"@);
    lemma_some_civ(rows, rows.len());
    if 0 <= i < rows.len() && rows[i].text_at("civilization"@) is Some && (forall|k: int|
        i < k < rows.len() ==> (#[trigger] rows[k]).text_at("civilization"@) != rows[i].text_at(
            "civilization"@,
        )) {
        lemma_last_row_counts(rows, i, rows.len());
    }
}

proof fn lemma_some_civ(rows: Seq<Doc>, n: nat)
    requires
        n <= rows.len(),
    ensures
        civ_counts(rows, n).len() == 0 <==> forall|k: int|
            0 <= k < n ==> (#[trigger] rows[k]).text_at("civilization"@) is None,
    decreases n,
{
    if n > 0 {
        lemma_some_civ(rows, (n - 1) as nat);
        let before = civ_counts(rows, (n - 1) as nat);
        if rows[n - 1].text_at("civilization"@) is Some {
            tally::lemma_place(before, rows[n - 1].text_at("civilization"@)->0, 0);
        }
    }
}

/// The players whose games are counted are the first ones of the ladder that have a number.
pub proof fn lemma_ladder_targets(
    ladder: &Json,
    top: usize,
    r: Result<Vec<Target>, ToolError>,
    id: i64,
    name: Seq<char>,
)
    requires
        call_ensures(ladder_targets, (ladder, top), r),
    ensures
        r is Err <==> ladder@.array_at("players"@) is None,
        r matches Ok(ts) ==> ts@.len() <= top,
        r matches Ok(ts) ==> (target_views(ts@).contains((id, name)) <==> exists|i: int|
            0 <= i < ladder@.array_at("players"@)->0.len() && i < top && (
            #[trigger] ladder@.array_at("players"@)->0[i]).integer_at("profile_id"@) == Some(id)
                && ladder@.array_at("players"@)->0[i].text_or("name"@, "?"@) == name),
{
    match ladder@.array_at("players"@) {
        Some(players) => {
            let n = battle::at_most(players.len(), top as nat);
            lemma_targets(players, n, id, name);
            assert(r->Ok_0@.len() == target_views(r->Ok_0@).len());
        },
        None => {},
    }
}

/// A page of games in which no civilization meets itself adds as many wins of civilizations as
/// games, and no more of either than its limit; what was told before is continued, and names the
/// player.
pub proof fn lemma_page_adds(c: &mut Crawl, name: &str, body: &Json, limit: usize, room: u64)
    requires
        call_ensures(Crawl::add_page, (c, name, body, limit, room), ()),
        crawl_consistent(old(c)@),
        forall|i: int|
            0 <= i < body@.array_or_none("games"@).len() ==> !is_mirror(
                #[trigger] body@.array_or_none("games"@)[i],
            ),
    ensures
        tally::total_wins(final(c)@.civs, final(c)@.civs.len()) - tally::total_wins(
            old(c)@.civs,
            old(c)@.civs.len(),
        ) == final(c).games - old(c).games,
        old(c).games <= final(c).games <= old(c).games + limit,
        text::begins(final(c).progress@, old(c).progress@),
        text::mentions(final(c).progress@, name@),
{
    let m = old(c)@;
    let games = body@.array_or_none("games"@);
    let n = battle::at_most(games.len(), limit as nat);
    lemma_wins_match_games(m, games, n);
    lemma_encounters_few(m, games, n);
    lemma_encounters_progress(m, games, n);
    let before = m.progress;
    let line = "已统计 "@ + name@ + " 的比赛\n"@;
    let after = final(c).progress@;
    assert(after == before + line);
    assert(after.subrange(0, before.len() as int) =~= before);
    text::lemma_mentions_middle(before + "已统计 "@, name@, " 的比赛\n"@);
    assert(before + "已统计 "@ + name@ + " 的比赛\n"@ =~= after);
}

proof fn lemma_encounters_progress(m: CrawlModel, games: Seq<Doc>, n: nat)
    ensures
        with_encounters(m, games, n).progress == m.progress,
    decreases n,
{
    if n > 0 {
        lemma_encounters_progress(m, games, (n - 1) as nat);
    }
}

/// A page with one game between two civilizations gives each of them a game, and the win to the
/// second exactly where the first team has not won.
pub proof fn lemma_one_game_page(
    c: &mut Crawl,
    name: &str,
    body: &Json,
    limit: usize,
    room: u64,
    game: Doc,
)
    requires
        call_ensures(Crawl::add_page, (c, name, body, limit, room), ()),
        crawl_consistent(old(c)@),
        limit >= 1,
        body@.array_at("games"@) == Some(seq![game]),
        encounter(game) is Some,
        !is_mirror(game),
    ensures
        ({
            let (a, b, first_won) = encounter(game)->0;
            &&& final(c).games == old(c).games + 1
            &&& tally::games_of(final(c)@.civs, a) == tally::games_of(old(c)@.civs, a) + 1
            &&& tally::games_of(final(c)@.civs, b) == tally::games_of(old(c)@.civs, b) + 1
            &&& tally::wins_of(final(c)@.civs, a) - tally::wins_of(old(c)@.civs, a)
                == if first_won {
                1int
            } else {
                0
            }
            &&& tally::wins_of(final(c)@.civs, b) - tally::wins_of(old(c)@.civs, b)
                == if first_won {
                0int
            } else {
                1
            }
        }),
{
    let m = old(c)@;
    let games = body@.array_or_none("games"@);
    reveal_with_fuel(with_encounters, 2);
    assert(games[0] == game);
    assert(with_encounters(m, games, 1) == with_encounter(m, game));
    lemma_one_of_two_wins(m, game, Seq::empty());
}

/// The sample of civilizations that were counted game by game is as large as the games.
pub proof fn lemma_sample(m: CrawlModel)
    requires
        crawl_consistent(m),
    ensures
        civ_sample(m.civs) == m.games,
{
}

/// A civilization is told with its share of wins in its games and with its share of games in all, to
/// one place, and an encounter with its share of wins, to two.
pub proof fn lemma_rates(c: Count, all: nat)
    ensures
        civ_rate_parts(c, all)[1] == report::rate(c.wins as int, c.games as int, 1),
        civ_rate_parts(c, all)[3] == report::rate(c.games as int, all as int, 1),
        matchup_parts(c)[1] == report::rate(c.wins as int, c.games as int, 2),
{
}

}
