//! The full report on one game, from its signed summary.

use super::error::ToolError;
use crate::json::{self, Doc, Json};
use crate::number;
use crate::order;
use crate::text;
use vstd::prelude::*;

verus! {

/// The name of a civilization in the bundled knowledge, or a hyphen.
pub open spec fn civ_name(kb: Doc, id: Seq<char>) -> Seq<char> {
    match kb.inner("civs"@, id) {
        Some(v) => v.text_or("cn"@, "-"@),
        None => "-"@,
    }
}

/// The name of a civilization in the bundled knowledge, or a hyphen.
pub fn name_civ<'a>(kb: &'a Json, id: &str) -> (r: &'a str)
    ensures
        r@ == civ_name(kb@, id@),
{
    match kb.inner("civs", id) {
        Some(v) => v.text_or("cn", "-"),
        None => "-",
    }
}

/// What the report says of a player.
pub struct PlayerFacts {
    pub name: Seq<char>,
    pub civ: Seq<char>,
    pub team: i64,
    pub result: Seq<char>,
    pub apm: i64,
    pub kills: i64,
    pub losses: i64,
    pub produced: i64,
    pub gathered: i64,
    pub score: i64,
    pub military: i64,
    pub inactive: i64,
    pub feudal: Option<i64>,
    pub castle: Option<i64>,
    pub imperial: Option<i64>,
}

/// What the report says of a player, as it is kept.
#[derive(Debug)]
pub struct PlayerRow {
    pub name: String,
    pub civ: String,
    pub team: i64,
    pub result: String,
    pub apm: i64,
    pub kills: i64,
    pub losses: i64,
    pub produced: i64,
    pub gathered: i64,
    pub score: i64,
    pub military: i64,
    pub inactive: i64,
    pub feudal: Option<i64>,
    pub castle: Option<i64>,
    pub imperial: Option<i64>,
}

impl View for PlayerRow {
    type V = PlayerFacts;

    open spec fn view(&self) -> PlayerFacts {
        PlayerFacts {
            name: self.name@,
            civ: self.civ@,
            team: self.team,
            result: self.result@,
            apm: self.apm,
            kills: self.kills,
            losses: self.losses,
            produced: self.produced,
            gathered: self.gathered,
            score: self.score,
            military: self.military,
            inactive: self.inactive,
            feudal: self.feudal,
            castle: self.castle,
            imperial: self.imperial,
        }
    }
}

/// The facts of a list of rows.
pub open spec fn facts_of(rows: Seq<PlayerRow>) -> Seq<PlayerFacts> {
    rows.map_values(|r: PlayerRow| r@)
}

/// What the summary says of one player.
pub open spec fn player_facts(p: Doc, kb: Doc) -> PlayerFacts {
    PlayerFacts {
        name: p.text_or("name"@, "?"@),
        civ: civ_name(kb, p.text_or("civilization"@, "?"@)),
        team: p.integer_or("team"@, 0),
        result: p.text_or("result"@, "?"@),
        apm: p.integer_or("apm"@, 0),
        kills: p.inner_integer("_stats"@, "sqkill"@),
        losses: p.inner_integer("_stats"@, "sqlost"@),
        produced: p.inner_integer("_stats"@, "sqprod"@),
        gathered: p.inner_integer("totalResourcesGathered"@, "total"@),
        score: p.inner_integer("scores"@, "total"@),
        military: p.inner_integer("scores"@, "military"@),
        inactive: p.inner_integer("_stats"@, "inactperiod"@),
        feudal: p.inner_first("actions"@, "feudalAge"@),
        castle: p.inner_first("actions"@, "castleAge"@),
        imperial: p.inner_first("actions"@, "imperialAge"@),
    }
}

/// What the summary says of each player.
pub open spec fn all_facts(players: Seq<Doc>, kb: Doc) -> Seq<PlayerFacts> {
    players.map_values(|p: Doc| player_facts(p, kb))
}

/// What the summary says of one player.
fn read_player(p: &Json, kb: &Json) -> (r: PlayerRow)
    ensures
        r@ == player_facts(p@, kb@),
{
    PlayerRow {
        name: p.text_or("name", "?").to_owned(),
        civ: name_civ(kb, p.text_or("civilization", "?")).to_owned(),
        team: p.integer_or("team", 0),
        result: p.text_or("result", "?").to_owned(),
        apm: p.integer_or("apm", 0),
        kills: p.inner_integer("_stats", "sqkill"),
        losses: p.inner_integer("_stats", "sqlost"),
        produced: p.inner_integer("_stats", "sqprod"),
        gathered: p.inner_integer("totalResourcesGathered", "total"),
        score: p.inner_integer("scores", "total"),
        military: p.inner_integer("scores", "military"),
        inactive: p.inner_integer("_stats", "inactperiod"),
        feudal: p.inner_first("actions", "feudalAge"),
        castle: p.inner_first("actions", "castleAge"),
        imperial: p.inner_first("actions", "imperialAge"),
    }
}

/// What the summary says of each player.
fn read_players(players: &Vec<Json>, kb: &Json) -> (r: Vec<PlayerRow>)
    ensures
        facts_of(r@) == all_facts(json::docs(players@), kb@),
        r@.len() == players@.len(),
{
    let mut rows: Vec<PlayerRow> = Vec::new();
    let mut i: usize = 0;
    while i < players.len()
        invariant
            i <= players@.len(),
            rows@.len() == i,
            forall|k: int|
                0 <= k < i ==> (#[trigger] rows@[k])@ == player_facts(players@[k]@, kb@),
        decreases players@.len() - i,
    {
        rows.push(read_player(&players[i], kb));
        i = i + 1;
    }
    assert(facts_of(rows@) =~= all_facts(json::docs(players@), kb@));
    rows
}

/// When an age was reached, or a hyphen.
pub open spec fn age(t: Option<i64>) -> Seq<char> {
    match t {
        Some(v) => number::clock(number::unsigned_bits(v as int)),
        None => "-"@,
    }
}

fn age_text(t: Option<i64>) -> (r: String)
    ensures
        r@ == age(t),
{
    match t {
        Some(v) => number::fmt_secs(number::to_unsigned(v)),
        None => "-".to_owned(),
    }
}

/// The line on one player.
pub open spec fn player_line(r: PlayerFacts) -> Seq<char> {
    "- "@ + r.name + "["@ + r.civ + "](队"@ + text::signed(r.team as int) + ") "@ + r.result
        + " | APM"@ + text::signed(r.apm as int) + " 击杀"@ + text::signed(r.kills as int)
        + " 战损"@ + text::signed(r.losses as int) + " 生产"@ + text::signed(r.produced as int)
        + " | 采集"@ + text::signed(r.gathered as int) + " 总分"@ + text::signed(r.score as int)
        + "(军"@ + text::signed(r.military as int) + ") | 挂机"@ + text::signed(r.inactive as int)
        + "s | 时代 封建"@ + age(r.feudal) + " 城堡"@ + age(r.castle) + " 帝王"@ + age(r.imperial)
        + "\n"@
}

/// Appends a text and then a number.
fn append_number(out: &mut String, label: &str, n: i64)
    ensures
        final(out)@ == old(out)@ + label@ + text::signed(n as int),
{
    out.append(label);
    out.append(text::signed_text(n as i128).as_str());
}

fn player_text(r: &PlayerRow) -> (t: String)
    ensures
        t@ == player_line(r@),
{
    let mut t = "- ".to_owned();
    t.append(r.name.as_str());
    t.append("[");
    t.append(r.civ.as_str());
    append_number(&mut t, "](队", r.team);
    t.append(") ");
    t.append(r.result.as_str());
    append_number(&mut t, " | APM", r.apm);
    append_number(&mut t, " 击杀", r.kills);
    append_number(&mut t, " 战损", r.losses);
    append_number(&mut t, " 生产", r.produced);
    append_number(&mut t, " | 采集", r.gathered);
    append_number(&mut t, " 总分", r.score);
    append_number(&mut t, "(军", r.military);
    append_number(&mut t, ") | 挂机", r.inactive);
    t.append("s | 时代 封建");
    t.append(age_text(r.feudal).as_str());
    t.append(" 城堡");
    t.append(age_text(r.castle).as_str());
    t.append(" 帝王");
    t.append(age_text(r.imperial).as_str());
    t.append("\n");
    t
}

/// The lines on the first `n` players.
pub open spec fn player_lines(rows: Seq<PlayerFacts>, n: nat) -> Seq<char>
    decreases n,
{
    if n == 0 {
        Seq::empty()
    } else {
        player_lines(rows, (n - 1) as nat) + player_line(rows[n - 1])
    }
}

fn player_section(rows: &Vec<PlayerRow>) -> (t: String)
    ensures
        t@ == player_lines(facts_of(rows@), rows@.len()),
{
    let mut t = String::new();
    let mut i: usize = 0;
    while i < rows.len()
        invariant
            i <= rows@.len(),
            t@ == player_lines(facts_of(rows@), i as nat),
        decreases rows@.len() - i,
    {
        t.append(player_text(&rows[i]).as_str());
        i = i + 1;
    }
    t
}

/// The line that sets one player's scores and resources against the others'.
pub open spec fn comparison_line(p: Doc) -> Seq<char> {
    "- "@ + p.text_or("name"@, "?"@) + " 总"@ + text::signed(
        p.inner_integer("scores"@, "total"@) as int,
    ) + " 经济"@ + text::signed(p.inner_integer("scores"@, "economy"@) as int) + " 军事"@
        + text::signed(p.inner_integer("scores"@, "military"@) as int) + " 科技"@ + text::signed(
        p.inner_integer("scores"@, "technology"@) as int,
    ) + " 社会"@ + text::signed(p.inner_integer("scores"@, "society"@) as int) + " | 资源 食"@
        + text::signed(p.inner_integer("totalResourcesGathered"@, "food"@) as int) + " 木"@
        + text::signed(p.inner_integer("totalResourcesGathered"@, "wood"@) as int) + " 金"@
        + text::signed(p.inner_integer("totalResourcesGathered"@, "gold"@) as int) + " 石"@
        + text::signed(p.inner_integer("totalResourcesGathered"@, "stone"@) as int) + "\n"@
}

fn comparison_text(p: &Json) -> (t: String)
    ensures
        t@ == comparison_line(p@),
{
    let mut t = "- ".to_owned();
    t.append(p.text_or("name", "?"));
    append_number(&mut t, " 总", p.inner_integer("scores", "total"));
    append_number(&mut t, " 经济", p.inner_integer("scores", "economy"));
    append_number(&mut t, " 军事", p.inner_integer("scores", "military"));
    append_number(&mut t, " 科技", p.inner_integer("scores", "technology"));
    append_number(&mut t, " 社会", p.inner_integer("scores", "society"));
    append_number(&mut t, " | 资源 食", p.inner_integer("totalResourcesGathered", "food"));
    append_number(&mut t, " 木", p.inner_integer("totalResourcesGathered", "wood"));
    append_number(&mut t, " 金", p.inner_integer("totalResourcesGathered", "gold"));
    append_number(&mut t, " 石", p.inner_integer("totalResourcesGathered", "stone"));
    t.append("\n");
    t
}

/// The comparison lines of the first `n` players.
pub open spec fn comparison_lines(players: Seq<Doc>, n: nat) -> Seq<char>
    decreases n,
{
    if n == 0 {
        Seq::empty()
    } else {
        comparison_lines(players, (n - 1) as nat) + comparison_line(players[n - 1])
    }
}

fn comparison_section(players: &Vec<Json>) -> (t: String)
    ensures
        t@ == comparison_lines(json::docs(players@), players@.len()),
{
    let mut t = String::new();
    let mut i: usize = 0;
    while i < players.len()
        invariant
            i <= players@.len(),
            t@ == comparison_lines(json::docs(players@), i as nat),
        decreases players@.len() - i,
    {
        t.append(comparison_text(&players[i]).as_str());
        i = i + 1;
    }
    t
}

/// When something was first built, and how it is told; animals do not count.
pub open spec fn event(e: Doc) -> Option<(int, Seq<char>)> {
    let kind = e.text_or("type"@, ""@);
    let label = text::last_piece(e.text_or("icon"@, ""@), '/');
    if kind == "Animal"@ || kind == "Herdable"@ {
        None
    } else {
        match e.array_at("finished"@) {
            Some(f) => if f.len() > 0 && f[0].integer() is Some {
                let tag = if kind == "Unit"@ {
                    label + "×"@ + text::decimal(f.len()) + "(损"@ + text::decimal(
                        e.array_or_none("destroyed"@).len(),
                    ) + ")"@
                } else {
                    label
                };
                Some((f[0].integer()->0 as int, tag))
            } else {
                None
            },
            None => None,
        }
    }
}

fn read_event(e: &Json) -> (r: Option<(i64, String)>)
    ensures
        match r {
            Some(v) => event(e@) == Some((v.0 as int, v.1@)),
            None => event(e@) is None,
        },
{
    let kind = e.text_or("type", "");
    if text::same(kind, "Animal") || text::same(kind, "Herdable") {
        return None;
    }
    let label = text::after_last(e.text_or("icon", ""), '/');
    match e.array_at("finished") {
        Some(f) => {
            if f.len() == 0 {
                return None;
            }
            assert(json::docs(f@)[0] == f@[0]@);
            match f[0].as_i64() {
                Some(t0) => {
                    if text::same(kind, "Unit") {
                        let destroyed: usize = match e.array_at("destroyed") {
                            Some(d) => d.len(),
                            None => 0,
                        };
                        let head = text::cat3(
                            label.as_str(),
                            "×",
                            text::decimal_text(f.len() as u128).as_str(),
                        );
                        let tag = text::cat4(
                            head.as_str(),
                            "(损",
                            text::decimal_text(destroyed as u128).as_str(),
                            ")",
                        );
                        Some((t0, tag))
                    } else {
                        Some((t0, label))
                    }
                },
                None => None,
            }
        },
        None => None,
    }
}

/// The events of the first `n` entries of a build order.
pub open spec fn events(entries: Seq<Doc>, n: nat) -> Seq<(int, Seq<char>)>
    decreases n,
{
    if n == 0 {
        Seq::empty()
    } else {
        let before = events(entries, (n - 1) as nat);
        match event(entries[n - 1]) {
            Some(e) => before.push(e),
            None => before,
        }
    }
}

/// When the events are.
pub open spec fn times(es: Seq<(int, Seq<char>)>) -> Seq<int> {
    es.map_values(|e: (int, Seq<char>)| e.0)
}

/// The first `n` events in the given order.
pub open spec fn told_events(es: Seq<(int, Seq<char>)>, places: Seq<int>, n: nat) -> Seq<char>
    decreases n,
{
    if n == 0 {
        Seq::empty()
    } else {
        let e = es[places[n - 1]];
        told_events(es, places, (n - 1) as nat) + number::clock(number::unsigned_bits(e.0)) + ":"@
            + e.1 + " "@
    }
}

/// How many events are told of each player.
pub const EVENTS_TOLD: usize = 12;

/// The smaller of two numbers.
pub open spec fn at_most(n: nat, limit: nat) -> nat {
    if n < limit {
        n
    } else {
        limit
    }
}

/// The line on one player's build order: the earliest events, in the order of their times. A
/// player without a build order has no line.
pub open spec fn build_line(p: Doc) -> Seq<char> {
    match p.array_at("buildOrder"@) {
        Some(entries) => {
            let es = events(entries, entries.len());
            "- "@ + p.text_or("name"@, "?"@) + ": "@ + told_events(
                es,
                order::ascending(times(es)),
                at_most(es.len(), EVENTS_TOLD as nat),
            ) + "\n"@
        },
        None => Seq::empty(),
    }
}

fn build_text(p: &Json) -> (t: String)
    ensures
        t@ == build_line(p@),
{
    let entries = match p.array_at("buildOrder") {
        Some(v) => v,
        None => {
            return String::new();
        },
    };
    let ghost all = json::docs(entries@);
    let mut tags: Vec<String> = Vec::new();
    let mut at: Vec<i64> = Vec::new();
    let mut keys: Vec<i128> = Vec::new();
    let mut i: usize = 0;
    let ghost mut es: Seq<(int, Seq<char>)> = Seq::empty();
    while i < entries.len()
        invariant
            i <= entries@.len(),
            all == json::docs(entries@),
            es == events(all, i as nat),
            es.len() == tags@.len() == at@.len() == keys@.len(),
            forall|k: int|
                0 <= k < es.len() ==> {
                    &&& (#[trigger] es[k]).0 == at@[k]
                    &&& es[k].0 == keys@[k]
                    &&& es[k].1 == tags@[k]@
                },
        decreases entries@.len() - i,
    {
        match read_event(&entries[i]) {
            Some((t, tag)) => {
                proof {
                    es = es.push((t as int, tag@));
                }
                tags.push(tag);
                at.push(t);
                keys.push(t as i128);
            },
            None => {},
        }
        i = i + 1;
    }
    let places = order::order_ascending(&keys);
    proof {
        assert(order::key_values(keys@) =~= times(es));
    }
    let ghost sorted = order::ascending(times(es));
    let n: usize = if tags.len() < EVENTS_TOLD {
        tags.len()
    } else {
        EVENTS_TOLD
    };
    let mut told = String::new();
    let mut k: usize = 0;
    while k < n
        invariant
            k <= n <= places@.len(),
            es.len() == tags@.len() == at@.len() == places@.len(),
            sorted == order::places(places@),
            forall|j: int| 0 <= j < places@.len() ==> (#[trigger] places@[j]) < es.len(),
            forall|j: int|
                0 <= j < es.len() ==> {
                    &&& (#[trigger] es[j]).0 == at@[j]
                    &&& es[j].1 == tags@[j]@
                },
            told@ == told_events(es, sorted, k as nat),
        decreases n - k,
    {
        let p: usize = places[k];
        assert(sorted[k as int] == p as int);
        assert(es[p as int].0 == at@[p as int]);
        told.append(number::fmt_secs(number::to_unsigned(at[p])).as_str());
        told.append(":");
        told.append(tags[p].as_str());
        told.append(" ");
        k = k + 1;
    }
    text::cat5("- ", p.text_or("name", "?"), ": ", told.as_str(), "\n")
}

/// The build orders of the first `n` players.
pub open spec fn build_lines(players: Seq<Doc>, n: nat) -> Seq<char>
    decreases n,
{
    if n == 0 {
        Seq::empty()
    } else {
        build_lines(players, (n - 1) as nat) + build_line(players[n - 1])
    }
}

fn build_section(players: &Vec<Json>) -> (t: String)
    ensures
        t@ == build_lines(json::docs(players@), players@.len()),
{
    let mut t = String::new();
    let mut i: usize = 0;
    while i < players.len()
        invariant
            i <= players@.len(),
            t@ == build_lines(json::docs(players@), i as nat),
        decreases players@.len() - i,
    {
        t.append(build_text(&players[i]).as_str());
        i = i + 1;
    }
    t
}

/// How many of the first `n` players are in the first player's team.
pub open spec fn first_team(rows: Seq<PlayerFacts>, n: nat) -> nat
    decreases n,
{
    if n == 0 {
        0
    } else {
        first_team(rows, (n - 1) as nat) + if rows[n - 1].team == rows[0].team {
            1nat
        } else {
            0nat
        }
    }
}

/// Whether this is a game of teams: at least two play together, and at least four play.
pub open spec fn team_game(rows: Seq<PlayerFacts>) -> bool {
    first_team(rows, rows.len()) >= 2 && rows.len() >= 4
}

fn is_team_game(rows: &Vec<PlayerRow>) -> (r: bool)
    ensures
        r == team_game(facts_of(rows@)),
{
    let mut count: usize = 0;
    let mut i: usize = 0;
    while i < rows.len()
        invariant
            i <= rows@.len(),
            count <= i,
            count == first_team(facts_of(rows@), i as nat),
        decreases rows@.len() - i,
    {
        if rows[i].team == rows[0].team {
            count = count + 1;
        }
        i = i + 1;
    }
    count >= 2 && rows.len() >= 4
}

/// How much a winner has done.
pub open spec fn merit(r: PlayerFacts) -> int {
    r.kills * 2 + r.produced - r.losses + number::quotient(r.gathered as int, 2000)
}

/// How much a loser has done.
pub open spec fn effort(r: PlayerFacts) -> int {
    r.kills * 2 - r.losses * 2 + number::quotient(r.gathered as int, 2000)
}

/// The last of the first `n` players among the winners of the greatest merit.
pub open spec fn best_winner(rows: Seq<PlayerFacts>, n: nat) -> Option<int>
    decreases n,
{
    if n == 0 {
        None
    } else {
        let before = best_winner(rows, (n - 1) as nat);
        if rows[n - 1].result == "win"@ && (before is None || merit(rows[before->0]) <= merit(
            rows[n - 1],
        )) {
            Some(n - 1)
        } else {
            before
        }
    }
}

/// The first of the first `n` players among the losers of the least effort.
pub open spec fn worst_loser(rows: Seq<PlayerFacts>, n: nat) -> Option<int>
    decreases n,
{
    if n == 0 {
        None
    } else {
        let before = worst_loser(rows, (n - 1) as nat);
        if rows[n - 1].result == "loss"@ && (before is None || effort(rows[n - 1]) < effort(
            rows[before->0],
        )) {
            Some(n - 1)
        } else {
            before
        }
    }
}

/// No winner has done more than the best one, and nobody is best unless there is no winner.
pub proof fn lemma_best_winner(rows: Seq<PlayerFacts>, n: nat)
    requires
        n <= rows.len(),
    ensures
        match best_winner(rows, n) {
            Some(b) => 0 <= b < n && rows[b].result == "win"@ && forall|i: int|
                0 <= i < n && (#[trigger] rows[i]).result == "win"@ ==> merit(rows[i]) <= merit(
                    rows[b],
                ) && (i > b ==> merit(rows[i]) < merit(rows[b])),
            None => forall|i: int| 0 <= i < n ==> (#[trigger] rows[i]).result != "win"@,
        },
    decreases n,
{
    if n > 0 {
        lemma_best_winner(rows, (n - 1) as nat);
    }
}

/// No loser has done less than the worst one, and nobody is worst unless there is no loser.
pub proof fn lemma_worst_loser(rows: Seq<PlayerFacts>, n: nat)
    requires
        n <= rows.len(),
    ensures
        match worst_loser(rows, n) {
            Some(b) => 0 <= b < n && rows[b].result == "loss"@ && forall|i: int|
                0 <= i < n && (#[trigger] rows[i]).result == "loss"@ ==> effort(rows[b]) <= effort(
                    rows[i],
                ) && (i < b ==> effort(rows[b]) < effort(rows[i])),
            None => forall|i: int| 0 <= i < n ==> (#[trigger] rows[i]).result != "loss"@,
        },
    decreases n,
{
    if n > 0 {
        lemma_worst_loser(rows, (n - 1) as nat);
    }
}

fn merit_of(r: &PlayerRow) -> (m: i128)
    ensures
        m == merit(r@),
{
    r.kills as i128 * 2 + r.produced as i128 - r.losses as i128 + number::div(
        r.gathered,
        2000,
    ) as i128
}

fn effort_of(r: &PlayerRow) -> (m: i128)
    ensures
        m == effort(r@),
{
    r.kills as i128 * 2 - r.losses as i128 * 2 + number::div(r.gathered, 2000) as i128
}

fn find_best(rows: &Vec<PlayerRow>) -> (r: Option<usize>)
    ensures
        match r {
            Some(b) => b < rows@.len() && best_winner(facts_of(rows@), rows@.len()) == Some(
                b as int,
            ),
            None => best_winner(facts_of(rows@), rows@.len()) is None,
        },
{
    let mut best: Option<usize> = None;
    let mut i: usize = 0;
    while i < rows.len()
        invariant
            i <= rows@.len(),
            match best {
                Some(b) => b < i && best_winner(facts_of(rows@), i as nat) == Some(b as int),
                None => best_winner(facts_of(rows@), i as nat) is None,
            },
        decreases rows@.len() - i,
    {
        assert(facts_of(rows@)[i as int] == rows@[i as int]@);
        if text::same(rows[i].result.as_str(), "win") {
            let better = match best {
                Some(b) => merit_of(&rows[b]) <= merit_of(&rows[i]),
                None => true,
            };
            if better {
                best = Some(i);
            }
        }
        i = i + 1;
    }
    best
}

fn find_worst(rows: &Vec<PlayerRow>) -> (r: Option<usize>)
    ensures
        match r {
            Some(b) => b < rows@.len() && worst_loser(facts_of(rows@), rows@.len()) == Some(
                b as int,
            ),
            None => worst_loser(facts_of(rows@), rows@.len()) is None,
        },
{
    let mut worst: Option<usize> = None;
    let mut i: usize = 0;
    while i < rows.len()
        invariant
            i <= rows@.len(),
            match worst {
                Some(b) => b < i && worst_loser(facts_of(rows@), i as nat) == Some(b as int),
                None => worst_loser(facts_of(rows@), i as nat) is None,
            },
        decreases rows@.len() - i,
    {
        assert(facts_of(rows@)[i as int] == rows@[i as int]@);
        if text::same(rows[i].result.as_str(), "loss") {
            let worse = match worst {
                Some(b) => effort_of(&rows[i]) < effort_of(&rows[b]),
                None => true,
            };
            if worse {
                worst = Some(i);
            }
        }
        i = i + 1;
    }
    worst
}

/// The line that names a player, after `label`.
pub open spec fn verdict_line(label: Seq<char>, r: PlayerFacts) -> Seq<char> {
    label + r.name + "["@ + r.civ + "](击杀"@ + text::signed(r.kills as int) + " 战损"@
        + text::signed(r.losses as int) + " 采集"@ + text::signed(r.gathered as int) + ")\n"@
}

fn verdict_text(label: &str, r: &PlayerRow) -> (t: String)
    ensures
        t@ == verdict_line(label@, r@),
{
    let mut t = label.to_owned();
    t.append(r.name.as_str());
    t.append("[");
    t.append(r.civ.as_str());
    append_number(&mut t, "](击杀", r.kills);
    append_number(&mut t, " 战损", r.losses);
    append_number(&mut t, " 采集", r.gathered);
    t.append(")\n");
    t
}

/// Who did best and who did worst, in a game of teams.
pub open spec fn verdicts(rows: Seq<PlayerFacts>) -> Seq<char> {
    if team_game(rows) {
        let best = match best_winner(rows, rows.len()) {
            Some(b) => verdict_line("\nMVP 候选:"@, rows[b]),
            None => Seq::empty(),
        };
        let worst = match worst_loser(rows, rows.len()) {
            Some(b) => verdict_line("战犯候选:"@, rows[b]),
            None => Seq::empty(),
        };
        best + worst
    } else {
        Seq::empty()
    }
}

fn verdict_section(rows: &Vec<PlayerRow>) -> (t: String)
    ensures
        t@ == verdicts(facts_of(rows@)),
{
    if is_team_game(rows) {
        let best = match find_best(rows) {
            Some(b) => verdict_text("\nMVP 候选:", &rows[b]),
            None => String::new(),
        };
        let worst = match find_worst(rows) {
            Some(b) => verdict_text("战犯候选:", &rows[b]),
            None => String::new(),
        };
        text::cat2(best.as_str(), worst.as_str())
    } else {
        String::new()
    }
}

/// What the reader is asked to do with the report, apart from the last point.
pub const REQUEST: &'static str = "\n【输出要求】现在直接输出完整深度复盘,不要反问用户是否需要深挖。回复必须包含以下层次,每层都要引用上面的具体数据:\n1.胜负归因:赢了赢在哪、输了输在哪——结合兵种组合、Comparison 四维分差、关键团战的击杀战损比\n2.timing复盘:对照双方封建/城堡/帝王时间与 Build Order 节点,指出决定胜负的关键 timing 窗口(谁的什么兵在什么时间点成型/被压制)\n";

/// The last point, for a game of teams.
pub const TEAM_REQUEST: &'static str = "3.改进清单:给每位玩家1-2条具体可执行的改进(兵种组合/上城时机/集结习惯),战犯要点名说透\n";

/// The last point, for a game of two.
pub const DUEL_REQUEST: &'static str = "3.改进清单:给双方玩家各1-2条具体可执行的改进(兵种组合/上城时机/运营细节)。1v1 没有 MVP/战犯概念,不要使用这类标签,聚焦对局内容本身\n";

/// The heading of the comparison.
pub const COMPARISON_HEADING: &'static str = "\n【Comparison 四维分数】\n";

/// The heading of the build orders.
pub const BUILD_HEADING: &'static str = "\n【Build Order 关键节点】(前 12 条,完整序列过长省略中后段)\n";

/// The first line of the report.
pub open spec fn full_heading(game: int, body: Doc) -> Seq<char> {
    let duration = body.integer_or("duration"@, 0) as int;
    "深度战报 对局"@ + text::signed(game) + ":"@ + body.text_or("leaderboard"@, "-"@) + " 地图="@
        + body.text_or("mapName"@, "-"@) + " 时长="@ + text::signed(number::quotient(duration, 60))
        + "分"@ + text::signed(number::remainder(duration, 60)) + "秒 结束原因="@ + body.text_or(
        "winReason"@,
        "-"@,
    ) + "\n"@
}

fn heading_text(game: i64, body: &Json) -> (t: String)
    ensures
        t@ == full_heading(game as int, body@),
{
    let duration: i64 = body.integer_or("duration", 0);
    let mut t = "深度战报 对局".to_owned();
    t.append(text::signed_text(game as i128).as_str());
    t.append(":");
    t.append(body.text_or("leaderboard", "-"));
    t.append(" 地图=");
    t.append(body.text_or("mapName", "-"));
    append_number(&mut t, " 时长=", number::div(duration, 60));
    append_number(&mut t, "分", number::modulo(duration, 60));
    t.append("秒 结束原因=");
    t.append(body.text_or("winReason", "-"));
    t.append("\n");
    t
}

/// The full report on a game.
pub open spec fn full_report(game: int, body: Doc, kb: Doc, players: Seq<Doc>) -> Seq<char> {
    let rows = all_facts(players, kb);
    full_heading(game, body) + player_lines(rows, rows.len()) + COMPARISON_HEADING@
        + comparison_lines(players, players.len()) + BUILD_HEADING@ + build_lines(
        players,
        players.len(),
    ) + verdicts(rows) + REQUEST@ + if team_game(rows) {
        TEAM_REQUEST@
    } else {
        DUEL_REQUEST@
    }
}

/// The full report on a game, from its signed summary.
pub fn full_game_report(game: i64, body: &Json, kb: &Json) -> (r: Result<String, ToolError>)
    ensures
        if kb@.object_at("civs"@) is None {
            r matches Err(ToolError::NoCivilizations)
        } else {
            match body@.array_at("players"@) {
                Some(players) => r matches Ok(t) && t@ == full_report(
                    game as int,
                    body@,
                    kb@,
                    players,
                ),
                None => r matches Err(ToolError::NoPlayers),
            }
        },
{
    if kb.object_at("civs").is_none() {
        return Err(ToolError::NoCivilizations);
    }
    let players = match body.array_at("players") {
        Some(v) => v,
        None => {
            return Err(ToolError::NoPlayers);
        },
    };
    let rows = read_players(players, kb);
    let mut t = heading_text(game, body);
    t.append(player_section(&rows).as_str());
    t.append(COMPARISON_HEADING);
    t.append(comparison_section(players).as_str());
    t.append(BUILD_HEADING);
    t.append(build_section(players).as_str());
    t.append(verdict_section(&rows).as_str());
    t.append(REQUEST);
    if is_team_game(&rows) {
        t.append(TEAM_REQUEST);
    } else {
        t.append(DUEL_REQUEST);
    }
    Ok(t)
}

/// A team game has four players or more, and one of the others is on the first one's team.
pub proof fn lemma_team_game(players: Seq<Doc>, kb: Doc)
    ensures
        team_game(all_facts(players, kb)) <==> players.len() >= 4 && exists|k: int|
            0 < k < players.len() && (#[trigger] players[k]).integer_or("team"@, 0)
                == players[0].integer_or("team"@, 0),
{
    let rows = all_facts(players, kb);
    lemma_first_team(rows, rows.len());
    if exists|k: int| 0 < k < rows.len() && (#[trigger] rows[k]).team == rows[0].team {
        let k = choose|k: int| 0 < k < rows.len() && (#[trigger] rows[k]).team == rows[0].team;
        assert(players[k].integer_or("team"@, 0) == players[0].integer_or("team"@, 0));
    }
    if exists|k: int|
        0 < k < players.len() && (#[trigger] players[k]).integer_or("team"@, 0)
            == players[0].integer_or("team"@, 0) {
        let k = choose|k: int|
            0 < k < players.len() && (#[trigger] players[k]).integer_or("team"@, 0)
                == players[0].integer_or("team"@, 0);
        assert(rows[k].team == rows[0].team);
    }
}

proof fn lemma_first_team(rows: Seq<PlayerFacts>, n: nat)
    requires
        n <= rows.len(),
    ensures
        n >= 1 ==> first_team(rows, n) >= 1,
        first_team(rows, n) >= 2 <==> exists|k: int|
            0 < k < n && (#[trigger] rows[k]).team == rows[0].team,
    decreases n,
{
    if n > 0 {
        lemma_first_team(rows, (n - 1) as nat);
        if n == 1 {
            assert(first_team(rows, 0) == 0);
        } else if rows[n - 1].team == rows[0].team {
            assert(first_team(rows, (n - 1) as nat) >= 1);
        }
    }
}

/// In a team game with a winner the report names a winner as its most valuable player, and no
/// winner has a greater score, which is twice the kills and what was produced, less what was lost,
/// and a two-thousandth of what was gathered. Among those with the greatest score it is the last.
pub proof fn lemma_mvp(game: int, body: Doc, kb: Doc, players: Seq<Doc>) -> (b: int)
    requires
        team_game(all_facts(players, kb)),
        exists|k: int|
            0 <= k < players.len() && (#[trigger] players[k]).text_at("result"@) == Some("win"@),
    ensures
        0 <= b < players.len(),
        players[b].text_at("result"@) == Some("win"@),
        text::mentions(
            full_report(game, body, kb, players),
            "\nMVP 候选:"@ + players[b].text_or("name"@, "?"@) + "["@ + civ_name(
                kb,
                players[b].text_or("civilization"@, "?"@),
            ) + "](击杀"@ + text::signed(players[b].inner_integer("_stats"@, "sqkill"@) as int)
                + " 战损"@ + text::signed(players[b].inner_integer("_stats"@, "sqlost"@) as int)
                + " 采集"@ + text::signed(
                players[b].inner_integer("totalResourcesGathered"@, "total"@) as int,
            ) + ")\n"@,
        ),
        forall|i: int|
            0 <= i < players.len() && (#[trigger] players[i]).text_at("result"@) == Some("win"@)
                ==> 2 * players[i].inner_integer("_stats"@, "sqkill"@) + players[i].inner_integer("_stats"@, "sqprod"@)
                - players[i].inner_integer("_stats"@, "sqlost"@) + number::quotient(
                players[i].inner_integer("totalResourcesGathered"@, "total"@) as int,
                2000,
            )
                <= 2 * players[b].inner_integer("_stats"@, "sqkill"@) + players[b].inner_integer("_stats"@, "sqprod"@)
                - players[b].inner_integer("_stats"@, "sqlost"@) + number::quotient(
                players[b].inner_integer("totalResourcesGathered"@, "total"@) as int,
                2000,
            ),
        forall|i: int|
            b < i < players.len() && (#[trigger] players[i]).text_at("result"@) == Some("win"@)
                ==> 2 * players[i].inner_integer("_stats"@, "sqkill"@) + players[i].inner_integer("_stats"@, "sqprod"@)
                - players[i].inner_integer("_stats"@, "sqlost"@) + number::quotient(
                players[i].inner_integer("totalResourcesGathered"@, "total"@) as int,
                2000,
            )
                < 2 * players[b].inner_integer("_stats"@, "sqkill"@) + players[b].inner_integer("_stats"@, "sqprod"@)
                - players[b].inner_integer("_stats"@, "sqlost"@) + number::quotient(
                players[b].inner_integer("totalResourcesGathered"@, "total"@) as int,
                2000,
            ),
{
    let rows = all_facts(players, kb);
    lemma_best_winner(rows, rows.len());
    lemma_results(players, kb);
    let k = choose|k: int|
        0 <= k < players.len() && (#[trigger] players[k]).text_at("result"@) == Some("win"@);
    assert(rows[k].result == "win"@);
    let b = best_winner(rows, rows.len())->0;
    let told = verdict_line("\nMVP 候选:"@, rows[b]);
    lemma_verdicts_are_told(game, body, kb, players);
    let rest = match worst_loser(rows, rows.len()) {
        Some(w) => verdict_line("战犯候选:"@, rows[w]),
        None => Seq::empty(),
    };
    text::lemma_mentions_middle(Seq::empty(), told, rest);
    assert(Seq::empty() + told + rest =~= verdicts(rows));
    lemma_mentions_through(full_report(game, body, kb, players), verdicts(rows), told);
    assert forall|i: int|
        0 <= i < players.len() && (#[trigger] players[i]).text_at("result"@) == Some(
            "win"@,
        ) implies merit(rows[i]) <= merit(rows[b]) && (i > b ==> merit(rows[i]) < merit(
        rows[b],
    )) by {
        assert(rows[i].result == "win"@);
    }
    b
}

/// Of two winners with the same kills, production and gathering, the one who lost more is never
/// the most valuable player; nor is one who did no better in anything and worse in one of kills,
/// production and losses.
pub proof fn lemma_mvp_is_not_outdone(players: Seq<Doc>, kb: Doc, a: int, b: int)
    requires
        0 <= a < players.len(),
        0 <= b < players.len(),
        players[b].text_at("result"@) == Some("win"@),
        players[a].inner_integer("_stats"@, "sqkill"@) <= players[b].inner_integer(
            "_stats"@,
            "sqkill"@,
        ),
        players[a].inner_integer("_stats"@, "sqprod"@) <= players[b].inner_integer(
            "_stats"@,
            "sqprod"@,
        ),
        players[a].inner_integer("_stats"@, "sqlost"@) >= players[b].inner_integer(
            "_stats"@,
            "sqlost"@,
        ),
        players[a].inner_integer("totalResourcesGathered"@, "total"@) <= players[b].inner_integer(
            "totalResourcesGathered"@,
            "total"@,
        ),
        players[a].inner_integer("_stats"@, "sqkill"@) < players[b].inner_integer(
            "_stats"@,
            "sqkill"@,
        ) || players[a].inner_integer("_stats"@, "sqprod"@) < players[b].inner_integer(
            "_stats"@,
            "sqprod"@,
        ) || players[a].inner_integer("_stats"@, "sqlost"@) > players[b].inner_integer(
            "_stats"@,
            "sqlost"@,
        ),
    ensures
        best_winner(all_facts(players, kb), players.len()) != Some(a),
{
    let rows = all_facts(players, kb);
    lemma_best_winner(rows, rows.len());
    lemma_results(players, kb);
    number::lemma_quotient_grows(rows[a].gathered as int, rows[b].gathered as int, 2000);
    assert(rows[b].result == "win"@);
    assert(merit(rows[a]) < merit(rows[b]));
}

/// In a team game with a loser the report names a loser as the one to blame, and no loser has a
/// smaller score, which is twice the kills less twice what was lost, and a two-thousandth of what
/// was gathered. Among those with the smallest score it is the first.
pub proof fn lemma_blamed(game: int, body: Doc, kb: Doc, players: Seq<Doc>) -> (b: int)
    requires
        team_game(all_facts(players, kb)),
        exists|k: int|
            0 <= k < players.len() && (#[trigger] players[k]).text_at("result"@) == Some("loss"@),
    ensures
        0 <= b < players.len(),
        players[b].text_at("result"@) == Some("loss"@),
        text::mentions(
            full_report(game, body, kb, players),
            "战犯候选:"@ + players[b].text_or("name"@, "?"@) + "["@ + civ_name(
                kb,
                players[b].text_or("civilization"@, "?"@),
            ) + "](击杀"@ + text::signed(players[b].inner_integer("_stats"@, "sqkill"@) as int)
                + " 战损"@ + text::signed(players[b].inner_integer("_stats"@, "sqlost"@) as int)
                + " 采集"@ + text::signed(
                players[b].inner_integer("totalResourcesGathered"@, "total"@) as int,
            ) + ")\n"@,
        ),
        forall|i: int|
            0 <= i < players.len() && (#[trigger] players[i]).text_at("result"@) == Some("loss"@)
                ==> 2 * players[b].inner_integer("_stats"@, "sqkill"@) - 2 * players[b].inner_integer("_stats"@, "sqlost"@)
                + number::quotient(
                players[b].inner_integer("totalResourcesGathered"@, "total"@) as int,
                2000,
            )
                <= 2 * players[i].inner_integer("_stats"@, "sqkill"@) - 2 * players[i].inner_integer("_stats"@, "sqlost"@)
                + number::quotient(
                players[i].inner_integer("totalResourcesGathered"@, "total"@) as int,
                2000,
            ),
        forall|i: int|
            0 <= i < b && (#[trigger] players[i]).text_at("result"@) == Some("loss"@)
                ==> 2 * players[b].inner_integer("_stats"@, "sqkill"@) - 2 * players[b].inner_integer("_stats"@, "sqlost"@)
                + number::quotient(
                players[b].inner_integer("totalResourcesGathered"@, "total"@) as int,
                2000,
            )
                < 2 * players[i].inner_integer("_stats"@, "sqkill"@) - 2 * players[i].inner_integer("_stats"@, "sqlost"@)
                + number::quotient(
                players[i].inner_integer("totalResourcesGathered"@, "total"@) as int,
                2000,
            ),
{
    let rows = all_facts(players, kb);
    lemma_worst_loser(rows, rows.len());
    lemma_results(players, kb);
    let k = choose|k: int|
        0 <= k < players.len() && (#[trigger] players[k]).text_at("result"@) == Some("loss"@);
    assert(rows[k].result == "loss"@);
    let b = worst_loser(rows, rows.len())->0;
    let told = verdict_line("战犯候选:"@, rows[b]);
    lemma_verdicts_are_told(game, body, kb, players);
    let head = match best_winner(rows, rows.len()) {
        Some(w) => verdict_line("\nMVP 候选:"@, rows[w]),
        None => Seq::empty(),
    };
    text::lemma_mentions_middle(head, told, Seq::empty());
    assert(head + told + Seq::empty() =~= verdicts(rows));
    lemma_mentions_through(full_report(game, body, kb, players), verdicts(rows), told);
    assert forall|i: int|
        0 <= i < players.len() && (#[trigger] players[i]).text_at("result"@) == Some(
            "loss"@,
        ) implies effort(rows[b]) <= effort(rows[i]) && (i < b ==> effort(rows[b]) < effort(
        rows[i],
    )) by {
        assert(rows[i].result == "loss"@);
    }
    b
}

/// Where there is no team game, or nobody has won or lost, nobody is praised or blamed.
pub proof fn lemma_no_verdict(players: Seq<Doc>, kb: Doc)
    requires
        !team_game(all_facts(players, kb)) || forall|k: int|
            0 <= k < players.len() ==> (#[trigger] players[k]).text_at("result"@) != Some("win"@)
                && players[k].text_at("result"@) != Some("loss"@),
    ensures
        verdicts(all_facts(players, kb)).len() == 0,
{
    let rows = all_facts(players, kb);
    lemma_best_winner(rows, rows.len());
    lemma_worst_loser(rows, rows.len());
    lemma_results(players, kb);
    match best_winner(rows, rows.len()) {
        Some(b) => {
            assert(rows[b].result == "win"@);
            assert(players[b].text_at("result"@) == Some("win"@));
        },
        None => {},
    }
    match worst_loser(rows, rows.len()) {
        Some(b) => {
            assert(rows[b].result == "loss"@);
            assert(players[b].text_at("result"@) == Some("loss"@));
        },
        None => {},
    }
}

proof fn lemma_results(players: Seq<Doc>, kb: Doc)
    ensures
        forall|i: int|
            0 <= i < players.len() ==> {
                let said = (#[trigger] all_facts(players, kb)[i]).result;
                &&& said == "win"@ <==> players[i].text_at("result"@) == Some("win"@)
                &&& said == "loss"@ <==> players[i].text_at("result"@) == Some("loss"@)
            },
{
    reveal_strlit("?");
    reveal_strlit("win");
    reveal_strlit("loss");
    assert("?"@.len() == 1);
    assert("win"@.len() == 3);
    assert("loss"@.len() == 4);
}

proof fn lemma_verdicts_are_told(game: int, body: Doc, kb: Doc, players: Seq<Doc>)
    ensures
        text::mentions(full_report(game, body, kb, players), verdicts(all_facts(players, kb))),
{
    let rows = all_facts(players, kb);
    let head = full_heading(game, body) + player_lines(rows, rows.len()) + COMPARISON_HEADING@
        + comparison_lines(players, players.len()) + BUILD_HEADING@ + build_lines(
        players,
        players.len(),
    );
    let tail = REQUEST@ + if team_game(rows) {
        TEAM_REQUEST@
    } else {
        DUEL_REQUEST@
    };
    text::lemma_mentions_middle(head, verdicts(rows), tail);
    assert(head + verdicts(rows) + tail =~= full_report(game, body, kb, players));
}

proof fn lemma_mentions_through(whole: Seq<char>, part: Seq<char>, p: Seq<char>)
    requires
        text::mentions(whole, part),
        text::mentions(part, p),
    ensures
        text::mentions(whole, p),
{
    let i = choose|i: int| text::occurs_at(whole, part, i);
    let a = whole.take(i);
    let c = whole.skip(i + part.len());
    text::lemma_mentions_within(a, part, c, p);
    assert(a + part + c =~= whole);
}

/// Of the players every one has their line, with the figures of the summary.
pub proof fn lemma_every_player_is_told(game: int, body: Doc, kb: Doc, players: Seq<Doc>, i: int)
    requires
        0 <= i < players.len(),
    ensures
        text::mentions(
            full_report(game, body, kb, players),
            player_line(player_facts(players[i], kb)),
        ),
        text::mentions(full_report(game, body, kb, players), comparison_line(players[i])),
        text::mentions(full_report(game, body, kb, players), build_line(players[i])),
{
    let rows = all_facts(players, kb);
    lemma_lines(players, kb, i, players.len());
    lemma_within_seven(
        full_heading(game, body),
        player_lines(rows, rows.len()),
        COMPARISON_HEADING@,
        comparison_lines(players, players.len()),
        BUILD_HEADING@,
        build_lines(players, players.len()),
        verdicts(rows) + REQUEST@ + if team_game(rows) {
            TEAM_REQUEST@
        } else {
            DUEL_REQUEST@
        },
        player_line(rows[i]),
        comparison_line(players[i]),
        build_line(players[i]),
    );
    lemma_last_three(
        full_heading(game, body) + player_lines(rows, rows.len()) + COMPARISON_HEADING@
            + comparison_lines(players, players.len()) + BUILD_HEADING@ + build_lines(
            players,
            players.len(),
        ),
        verdicts(rows),
        REQUEST@,
        if team_game(rows) {
            TEAM_REQUEST@
        } else {
            DUEL_REQUEST@
        },
    );
}

proof fn lemma_last_three(a: Seq<char>, b: Seq<char>, c: Seq<char>, d: Seq<char>)
    ensures
        a + (b + c + d) == a + b + c + d,
{
    assert(a + (b + c + d) =~= a + b + c + d);
}

proof fn lemma_within_seven(
    a: Seq<char>,
    b: Seq<char>,
    c: Seq<char>,
    d: Seq<char>,
    e: Seq<char>,
    f: Seq<char>,
    g: Seq<char>,
    x: Seq<char>,
    y: Seq<char>,
    z: Seq<char>,
)
    requires
        text::mentions(b, x),
        text::mentions(d, y),
        text::mentions(f, z),
    ensures
        text::mentions(a + b + c + d + e + f + g, x),
        text::mentions(a + b + c + d + e + f + g, y),
        text::mentions(a + b + c + d + e + f + g, z),
{
    text::lemma_mentions_within(a, b, c + d + e + f + g, x);
    assert(a + b + (c + d + e + f + g) =~= a + b + c + d + e + f + g);
    text::lemma_mentions_within(a + b + c, d, e + f + g, y);
    assert((a + b + c) + d + (e + f + g) =~= a + b + c + d + e + f + g);
    text::lemma_mentions_within(a + b + c + d + e, f, g, z);
}

proof fn lemma_lines(players: Seq<Doc>, kb: Doc, i: int, n: nat)
    requires
        0 <= i < n <= players.len(),
    ensures
        text::mentions(
            player_lines(all_facts(players, kb), n),
            player_line(player_facts(players[i], kb)),
        ),
        text::mentions(comparison_lines(players, n), comparison_line(players[i])),
        text::mentions(build_lines(players, n), build_line(players[i])),
    decreases n,
{
    let rows = all_facts(players, kb);
    let m = (n - 1) as nat;
    if i == n - 1 {
        text::lemma_mentions_middle(player_lines(rows, m), player_line(rows[i]), Seq::empty());
        assert(player_lines(rows, m) + player_line(rows[i]) + Seq::empty() =~= player_lines(
            rows,
            n,
        ));
        text::lemma_mentions_middle(
            comparison_lines(players, m),
            comparison_line(players[i]),
            Seq::empty(),
        );
        assert(comparison_lines(players, m) + comparison_line(players[i]) + Seq::empty()
            =~= comparison_lines(players, n));
        text::lemma_mentions_middle(build_lines(players, m), build_line(players[i]), Seq::empty());
        assert(build_lines(players, m) + build_line(players[i]) + Seq::empty() =~= build_lines(
            players,
            n,
        ));
    } else {
        lemma_lines(players, kb, i, m);
        text::lemma_mentions_within(
            Seq::empty(),
            player_lines(rows, m),
            player_line(rows[n - 1]),
            player_line(rows[i]),
        );
        assert(Seq::empty() + player_lines(rows, m) + player_line(rows[n - 1]) =~= player_lines(
            rows,
            n,
        ));
        text::lemma_mentions_within(
            Seq::empty(),
            comparison_lines(players, m),
            comparison_line(players[n - 1]),
            comparison_line(players[i]),
        );
        assert(Seq::empty() + comparison_lines(players, m) + comparison_line(players[n - 1])
            =~= comparison_lines(players, n));
        text::lemma_mentions_within(
            Seq::empty(),
            build_lines(players, m),
            build_line(players[n - 1]),
            build_line(players[i]),
        );
        assert(Seq::empty() + build_lines(players, m) + build_line(players[n - 1])
            =~= build_lines(players, n));
    }
}

/// An entry of the build order is told exactly where it is no animal and its first end is a number,
/// and then with that time; a unit is told with how many were made and how many were lost.
pub proof fn lemma_event(e: Doc)
    ensures
        e.text_at("type"@) == Some("Animal"@) || e.text_at("type"@) == Some("Herdable"@) ==> event(
            e,
        ) is None,
        e.array_or_none("finished"@).len() == 0 ==> event(e) is None,
        ({
            let made = e.array_or_none("finished"@);
            let icon = text::last_piece(e.text_or("icon"@, ""@), '/');
            made.len() > 0 && made[0].integer() is Some && e.text_at("type"@) != Some("Animal"@)
                && e.text_at("type"@) != Some("Herdable"@) ==> {
                &&& event(e) matches Some((at, _)) && at == made[0].integer()->0
                &&& e.text_at("type"@) == Some("Unit"@) ==> event(e) == Some(
                    (
                        made[0].integer()->0 as int,
                        icon + "×"@ + text::decimal(made.len()) + "(损"@ + text::decimal(
                            e.array_or_none("destroyed"@).len(),
                        ) + ")"@,
                    ),
                )
                &&& e.text_at("type"@) != Some("Unit"@) ==> event(e) == Some(
                    (made[0].integer()->0 as int, icon),
                )
            }
        }),
{
    reveal_strlit("");
    reveal_strlit("Animal");
    reveal_strlit("Herdable");
    reveal_strlit("Unit");
    assert(""@.len() == 0);
    assert("Animal"@.len() == 6);
    assert("Herdable"@.len() == 8);
    assert("Unit"@.len() == 4);
}

/// What is told of a build order comes out of its entries, and every entry that can be told does.
pub proof fn lemma_events(entries: Seq<Doc>, n: nat, told: (int, Seq<char>))
    requires
        n <= entries.len(),
    ensures
        events(entries, n).contains(told) <==> exists|i: int|
            0 <= i < n && event(#[trigger] entries[i]) == Some(told),
        events(entries, n).len() <= n,
    decreases n,
{
    if n > 0 {
        let before = events(entries, (n - 1) as nat);
        let now = events(entries, n);
        lemma_events(entries, (n - 1) as nat, told);
        match event(entries[n - 1]) {
            Some(e) => {
                assert(now == before.push(e));
                assert(now[before.len() as int] == e);
                if before.contains(told) {
                    let i = before.index_of(told);
                    assert(now[i] == told);
                }
                if now.contains(told) {
                    let i = now.index_of(told);
                    if i < before.len() {
                        assert(before[i] == told);
                    }
                }
            },
            None => {},
        }
    }
}

proof fn lemma_line_begins(
    a: Seq<char>,
    b: Seq<char>,
    c: Seq<char>,
    d: Seq<char>,
    e: Seq<char>,
    f: Seq<char>,
    g: Seq<char>,
    h: Seq<char>,
    i: Seq<char>,
)
    ensures
        text::mentions(a + b + c + d + e + f + g + h + i, a),
{
    let whole = a + b + c + d + e + f + g + h + i;
    assert(whole.subrange(0, 0 + a.len() as int) =~= a);
    assert(text::occurs_at(whole, a, 0));
}

/// A full report is written exactly where the summary lists players and the knowledge lists
/// civilizations. Of a team game it names a winner with the greatest score, in which losses count
/// against a player.
pub proof fn lemma_full_game_report(
    game: i64,
    body: &Json,
    kb: &Json,
    r: Result<String, ToolError>,
) -> (b: int)
    requires
        call_ensures(full_game_report, (game, body, kb), r),
    ensures
        r is Ok <==> kb@.object_at("civs"@) is Some && body@.array_at("players"@) is Some,
        ({
            let players = body@.array_or_none("players"@);
            r is Ok && players.len() >= 4 && (exists|k: int|
                0 < k < players.len() && (#[trigger] players[k]).integer_or("team"@, 0)
                    == players[0].integer_or("team"@, 0)) && (exists|k: int|
                0 <= k < players.len() && (#[trigger] players[k]).text_at("result"@) == Some(
                    "win"@,
                )) ==> {
                &&& 0 <= b < players.len()
                &&& players[b].text_at("result"@) == Some("win"@)
                &&& text::mentions(
                    r->Ok_0@,
                    "\nMVP 候选:"@ + players[b].text_or("name"@, "?"@) + "["@,
                )
                &&& forall|i: int|
                    0 <= i < players.len() && (#[trigger] players[i]).text_at("result"@) == Some(
                        "win"@,
                    ) ==> 2 * players[i].inner_integer("_stats"@, "sqkill"@)
                        + players[i].inner_integer("_stats"@, "sqprod"@)
                        - players[i].inner_integer("_stats"@, "sqlost"@) + number::quotient(
                        players[i].inner_integer("totalResourcesGathered"@, "total"@) as int,
                        2000,
                    ) <= 2 * players[b].inner_integer("_stats"@, "sqkill"@)
                        + players[b].inner_integer("_stats"@, "sqprod"@)
                        - players[b].inner_integer("_stats"@, "sqlost"@) + number::quotient(
                        players[b].inner_integer("totalResourcesGathered"@, "total"@) as int,
                        2000,
                    )
            }
        }),
{
    let players = body@.array_or_none("players"@);
    lemma_team_game(players, kb@);
    if r is Ok && team_game(all_facts(players, kb@)) && (exists|k: int|
        0 <= k < players.len() && (#[trigger] players[k]).text_at("result"@) == Some("win"@)) {
        let b = lemma_mvp(game as int, body@, kb@, players);
        let short = "\nMVP 候选:"@ + players[b].text_or("name"@, "?"@) + "["@;
        let told = short + civ_name(kb@, players[b].text_or("civilization"@, "?"@)) + "](击杀"@
            + text::signed(players[b].inner_integer("_stats"@, "sqkill"@) as int) + " 战损"@
            + text::signed(players[b].inner_integer("_stats"@, "sqlost"@) as int) + " 采集"@
            + text::signed(
            players[b].inner_integer("totalResourcesGathered"@, "total"@) as int,
        ) + ")\n"@;
        lemma_line_begins(
            short,
            civ_name(kb@, players[b].text_or("civilization"@, "?"@)),
            "](击杀"@,
            text::signed(players[b].inner_integer("_stats"@, "sqkill"@) as int),
            " 战损"@,
            text::signed(players[b].inner_integer("_stats"@, "sqlost"@) as int),
            " 采集"@,
            text::signed(players[b].inner_integer("totalResourcesGathered"@, "total"@) as int),
            ")\n"@,
        );
        lemma_mentions_through(r->Ok_0@, told, short);
        b
    } else {
        0
    }
}

/// The minutes and the seconds of a report's heading make up the game's duration.
pub proof fn lemma_heading_duration(game: int, body: Doc)
    ensures
        ({
            let d = body.integer_or("duration"@, 0) as int;
            let m = number::quotient(d, 60);
            let s = number::remainder(d, 60);
            &&& 60 * m + s == d
            &&& text::mentions(
                full_heading(game, body),
                " 时长="@ + text::signed(m) + "分"@ + text::signed(s) + "秒"@,
            )
            &&& text::mentions(full_heading(game, body), " 地图="@ + body.text_or("mapName"@, "-"@))
        }),
{
    let d = body.integer_or("duration"@, 0) as int;
    let m = number::quotient(d, 60);
    let s = number::remainder(d, 60);
    number::lemma_quotient_remainder(d, 60);
    reveal_strlit("秒 结束原因=");
    reveal_strlit("秒");
    reveal_strlit(" 结束原因=");
    assert("秒 结束原因="@ =~= "秒"@ + " 结束原因="@);
    let a = "深度战报 对局"@ + text::signed(game) + ":"@ + body.text_or("leaderboard"@, "-"@);
    let b = " 地图="@ + body.text_or("mapName"@, "-"@);
    let c = " 时长="@ + text::signed(m) + "分"@ + text::signed(s) + "秒"@;
    let e = " 结束原因="@ + body.text_or("winReason"@, "-"@) + "\n"@;
    let whole = full_heading(game, body);
    assert(whole =~= a + b + c + e);
    text::lemma_mentions_middle(a + b, c, e);
    text::lemma_mentions_middle(a, b, c + e);
    assert(a + b + (c + e) =~= whole);
}

/// No more is taken than there is and than the limit allows, and all up to that.
pub proof fn lemma_at_most(n: nat, limit: nat)
    ensures
        at_most(n, limit) <= n,
        at_most(n, limit) <= limit,
        at_most(n, limit) == n || at_most(n, limit) == limit,
{
}

/// What is told of a build order is told from the earliest event on, of twelve events at most.
pub proof fn lemma_told_in_order(p: Doc, entries: Seq<Doc>, a: int, b: int)
    requires
        p.array_at("buildOrder"@) == Some(entries),
        0 <= a < b < events(entries, entries.len()).len(),
    ensures
        ({
            let es = events(entries, entries.len());
            let places = order::ascending(times(es));
            &&& places.len() == es.len()
            &&& 0 <= places[a] < es.len() && 0 <= places[b] < es.len()
            &&& es[places[a]].0 <= es[places[b]].0
            &&& build_line(p) == "- "@ + p.text_or("name"@, "?"@) + ": "@ + told_events(
                es,
                places,
                if es.len() < 12 {
                    es.len()
                } else {
                    12
                },
            ) + "\n"@
        }),
{
    let es = events(entries, entries.len());
    order::lemma_ascending(times(es));
    let places = order::ascending(times(es));
    assert(times(es).len() == es.len());
    assert(times(es)[places[a]] == es[places[a]].0);
    assert(times(es)[places[b]] == es[places[b]].0);
}

}
