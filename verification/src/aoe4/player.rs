//! How a player has fared over their last games.

use super::battle;
use super::summary;
use crate::json::{self, Doc, Json};
use crate::order;
use crate::report::{self, Part, Report};
use crate::tally::{self, Count, Tally};
use crate::text;
use vstd::prelude::*;

verus! {

/// How many games a page of the site holds.
pub const PAGE_SIZE: usize = 50;

/// How many pages are read for `limit` games: as many as hold them, and one at least.
pub open spec fn pages_for(limit: nat) -> nat {
    if limit == 0 {
        1
    } else {
        (limit + PAGE_SIZE - 1) as nat / PAGE_SIZE as nat
    }
}

/// The path of a player's profile.
pub open spec fn profile_path(player: int) -> Seq<char> {
    "/players/"@ + text::signed(player)
}

/// The path of a page of a player's games.
pub open spec fn games_path(player: int, page: int) -> Seq<char> {
    "/players/"@ + text::signed(player) + "/games?page="@ + text::signed(page)
}

/// The path of a player's profile.
pub fn player_path(player: i64) -> (r: String)
    ensures
        r@ == profile_path(player as int),
{
    text::cat2("/players/", text::signed_text(player as i128).as_str())
}

/// The path of a page of a player's games.
pub fn player_games_path(player: i64, page: i64) -> (r: String)
    ensures
        r@ == games_path(player as int, page as int),
{
    text::cat4(
        "/players/",
        text::signed_text(player as i128).as_str(),
        "/games?page=",
        text::signed_text(page as i128).as_str(),
    )
}

/// Reading a player's games page by page.
#[derive(Debug)]
pub struct GameReader {
    /// The pages that are read at most.
    pub pages: usize,
    /// The pages that have been read.
    pub read: usize,
    /// Whether another page is to be read.
    pub open: bool,
    /// The games, newest first.
    pub games: Vec<Json>,
}

impl GameReader {
    /// Whether the reader is in a state that reading leads to.
    pub open spec fn well_formed(self) -> bool {
        &&& self.read <= self.pages
        &&& self.open ==> self.read < self.pages && self.games@.len() >= PAGE_SIZE * self.read
    }

    /// A reader for `limit` games that has read nothing.
    pub fn new(limit: usize) -> (r: GameReader)
        ensures
            r.well_formed(),
            r.pages == pages_for(limit as nat),
            r.read == 0,
            r.open,
            r.games@.len() == 0,
    {
        let pages: usize = if limit == 0 {
            1
        } else if limit % PAGE_SIZE == 0 {
            limit / PAGE_SIZE
        } else {
            limit / PAGE_SIZE + 1
        };
        GameReader { pages, read: 0, open: true, games: Vec::new() }
    }

    /// Takes in the next page. Reading goes on only after a full page, and only up to the number
    /// of pages.
    pub fn take_page(&mut self, body: &Json)
        requires
            old(self).well_formed(),
            old(self).open,
        ensures
            final(self).well_formed(),
            final(self).pages == old(self).pages,
            final(self).read == old(self).read + 1,
            match body@.array_at("games"@) {
                Some(games) => {
                    &&& json::docs(final(self).games@) == json::docs(old(self).games@) + games
                    &&& final(self).open == (games.len() >= PAGE_SIZE && old(self).read + 1 < old(
                        self,
                    ).pages)
                    &&& games.len() >= PAGE_SIZE ==> final(self).games@.len() >= PAGE_SIZE * (
                    old(self).read + 1)
                },
                None => final(self).games@ == old(self).games@ && !final(self).open,
            },
    {
        self.read = self.read + 1;
        match body.array_at("games") {
            Some(games) => {
                let ghost before = json::docs(self.games@);
                let ghost all = json::docs(games@);
                assert(before.len() == self.games@.len());
                let ghost (pages, read) = (self.pages, self.read);
                let mut i: usize = 0;
                assert(before + all.take(0) =~= before);
                while i < games.len()
                    invariant
                        i <= games@.len(),
                        all == json::docs(games@),
                        json::docs(self.games@) == before + all.take(i as int),
                        self.pages == pages,
                        self.read == read,
                    decreases games@.len() - i,
                {
                    let g = games[i].duplicate();
                    let ghost had = json::docs(self.games@);
                    self.games.push(g);
                    assert(json::docs(self.games@) =~= had.push(all[i as int]));
                    assert(before + all.take(i + 1) =~= had.push(all[i as int]));
                    i = i + 1;
                }
                assert(all.take(all.len() as int) =~= all);
                assert(json::docs(self.games@).len() == self.games@.len());
                self.open = games.len() >= PAGE_SIZE && self.read < self.pages;
            },
            None => {
                self.open = false;
            },
        }
    }
}

/// A reader whose pages were full to the last has as many games as it was made for.
pub proof fn lemma_full_pages_are_enough(r: GameReader, limit: nat)
    requires
        r.pages == pages_for(limit),
        r.read == r.pages,
        r.games@.len() >= PAGE_SIZE * r.read,
    ensures
        r.games@.len() >= limit,
{
}

/// What is known of a player's games.
pub struct Record {
    pub wins: nat,
    pub losses: nat,
    pub civs: Seq<Count>,
    pub maps: Seq<Count>,
    pub modes: Seq<Count>,
    /// Runs of wins, as positive numbers, and of losses, as negative ones, in their order.
    pub streaks: Seq<int>,
    pub last_game: Seq<char>,
}

/// The last of the first `n` players who is the one that is asked for.
pub open spec fn own_player(players: Seq<Doc>, id: i64, n: nat) -> Option<Doc>
    decreases n,
{
    if n == 0 {
        None
    } else if players[n - 1].integer_at("profile_id"@) == Some(id) {
        Some(players[n - 1])
    } else {
        own_player(players, id, (n - 1) as nat)
    }
}

/// The runs after one more game.
pub open spec fn with_result(streaks: Seq<int>, win: bool) -> Seq<int> {
    if streaks.len() > 0 && streaks.last() > 0 && win {
        streaks.update(streaks.len() - 1, streaks.last() + 1)
    } else if streaks.len() > 0 && streaks.last() < 0 && !win {
        streaks.update(streaks.len() - 1, streaks.last() - 1)
    } else {
        streaks.push(
            if win {
                1
            } else {
                -1
            },
        )
    }
}

/// How the player fared in a game, and with which civilization; nothing where they did not play
/// or the game has no result.
pub open spec fn own_result(g: Doc, id: i64) -> Option<(bool, Option<Seq<char>>)> {
    let players = summary::game_players(g);
    match own_player(players, id, players.len()) {
        Some(p) => match p.text_at("result"@) {
            Some(r) => Some((r == "win"@, p.text_at("civilization"@))),
            None => None,
        },
        None => None,
    }
}

/// The record after one more game.
pub open spec fn with_game(r: Record, g: Doc, id: i64) -> Record {
    let last_game = if r.last_game.len() == 0 {
        g.text_or("started_at"@, ""@)
    } else {
        r.last_game
    };
    match own_result(g, id) {
        Some((win, civ)) => Record {
            wins: r.wins + tally::one_if(win),
            losses: r.losses + tally::one_if(!win),
            civs: match civ {
                Some(c) => tally::counted(r.civs, c, win),
                None => r.civs,
            },
            maps: tally::counted(r.maps, g.text_or("map"@, "?"@), win),
            modes: tally::counted(r.modes, g.text_or("kind"@, "?"@), win),
            streaks: with_result(r.streaks, win),
            last_game,
        },
        None => Record { last_game, ..r },
    }
}

/// The record of the last `n` of the games, which stand newest first, taken from the oldest on.
pub open spec fn record(games: Seq<Doc>, id: i64, n: nat) -> Record
    decreases n,
{
    if n == 0 {
        Record {
            wins: 0,
            losses: 0,
            civs: Seq::empty(),
            maps: Seq::empty(),
            modes: Seq::empty(),
            streaks: Seq::empty(),
            last_game: ""@,
        }
    } else {
        with_game(record(games, id, (n - 1) as nat), games[games.len() - n], id)
    }
}

/// Where the player has a result in each of the last `n` games, the record is of that many games.
pub proof fn lemma_decided_games_count(games: Seq<Doc>, id: i64, n: nat)
    requires
        n <= games.len(),
        forall|i: int|
            games.len() - n <= i < games.len() ==> own_result(#[trigger] games[i], id) is Some,
    ensures
        record(games, id, n).wins + record(games, id, n).losses == n,
    decreases n,
{
    if n > 0 {
        lemma_decided_games_count(games, id, (n - 1) as nat);
        assert(own_result(games[games.len() - n], id) is Some);
    }
}

/// All runs together, wins and losses alike.
pub open spec fn streak_games(streaks: Seq<int>) -> int
    decreases streaks.len(),
{
    if streaks.len() == 0 {
        0
    } else {
        streak_games(streaks.drop_last()) + if streaks.last() < 0 {
            -streaks.last()
        } else {
            streaks.last()
        }
    }
}

/// Whether the runs are of one game at least, and no two of a kind follow each other.
pub open spec fn alternating(streaks: Seq<int>) -> bool {
    &&& forall|i: int| 0 <= i < streaks.len() ==> #[trigger] streaks[i] != 0
    &&& forall|i: int|
        #![trigger streaks[i]]
        0 < i < streaks.len() ==> (streaks[i - 1] > 0) != (streaks[i] > 0)
}

proof fn lemma_with_result(streaks: Seq<int>, win: bool)
    requires
        alternating(streaks),
    ensures
        alternating(with_result(streaks, win)),
        streak_games(with_result(streaks, win)) == streak_games(streaks) + 1,
{
    let next = with_result(streaks, win);
    if next.len() == streaks.len() {
        assert(next.drop_last() =~= streaks.drop_last());
        assert forall|i: int| 0 < i < next.len() implies (next[i - 1] > 0) != (#[trigger] next[i]
            > 0) by {
            assert((streaks[i - 1] > 0) != (streaks[i] > 0));
        }
    } else {
        assert(next.drop_last() =~= streaks);
        assert forall|i: int| 0 < i < next.len() implies (next[i - 1] > 0) != (#[trigger] next[i]
            > 0) by {
            if i < streaks.len() {
                assert((streaks[i - 1] > 0) != (streaks[i] > 0));
            } else {
                assert(streaks[i - 1] != 0);
            }
        }
    }
}

/// Whether the parts of a record agree with each other.
pub open spec fn consistent(r: Record) -> bool {
    &&& tally::total_games(r.maps, r.maps.len()) == r.wins + r.losses
    &&& tally::total_wins(r.maps, r.maps.len()) == r.wins
    &&& tally::total_games(r.modes, r.modes.len()) == r.wins + r.losses
    &&& tally::total_wins(r.modes, r.modes.len()) == r.wins
    &&& tally::total_games(r.civs, r.civs.len()) <= r.wins + r.losses
    &&& tally::distinct(r.civs)
    &&& tally::distinct(r.maps)
    &&& tally::distinct(r.modes)
    &&& alternating(r.streaks)
    &&& streak_games(r.streaks) == r.wins + r.losses
}

/// The parts of a record agree: maps and modes count every decided game, civilizations no more,
/// every name stands once, and the runs are made of the same games and alternate.
pub proof fn lemma_record_consistent(games: Seq<Doc>, id: i64, n: nat)
    ensures
        consistent(record(games, id, n)),
    decreases n,
{
    if n > 0 {
        let before = record(games, id, (n - 1) as nat);
        let g = games[games.len() - n];
        lemma_record_consistent(games, id, (n - 1) as nat);
        match own_result(g, id) {
            Some((win, civ)) => {
                let map = g.text_or("map"@, "?"@);
                let mode = g.text_or("kind"@, "?"@);
                tally::lemma_counted_total(before.maps, map, win);
                tally::lemma_counted_total(before.modes, mode, win);
                tally::lemma_counted_distinct(before.maps, map, win);
                tally::lemma_counted_distinct(before.modes, mode, win);
                lemma_with_result(before.streaks, win);
                match civ {
                    Some(c) => {
                        tally::lemma_counted_total(before.civs, c, win);
                        tally::lemma_counted_distinct(before.civs, c, win);
                    },
                    None => {},
                }
            },
            None => {},
        }
    }
}

/// What is known of a player's games, as it is kept.
#[derive(Debug)]
pub struct PlayerRecord {
    pub wins: u64,
    pub losses: u64,
    pub civs: Tally,
    pub maps: Tally,
    pub modes: Tally,
    pub streaks: Vec<i128>,
    pub last_game: String,
}

impl View for PlayerRecord {
    type V = Record;

    open spec fn view(&self) -> Record {
        Record {
            wins: self.wins as nat,
            losses: self.losses as nat,
            civs: self.civs@,
            maps: self.maps@,
            modes: self.modes@,
            streaks: order::key_values(self.streaks@),
            last_game: self.last_game@,
        }
    }
}

/// Whether a record of at most `n` games can be counted on.
pub open spec fn record_bounded(r: Record, n: nat) -> bool {
    &&& r.wins + r.losses <= n
    &&& tally::bounded(r.civs, n)
    &&& tally::bounded(r.maps, n)
    &&& tally::bounded(r.modes, n)
    &&& forall|i: int| 0 <= i < r.streaks.len() ==> -n <= #[trigger] r.streaks[i] <= n
}

fn read_result<'a>(g: &'a Json, id: i64) -> (r: Option<(bool, Option<&'a str>)>)
    ensures
        match r {
            Some((win, civ)) => own_result(g@, id) == Some((win, text::opt_str(civ))),
            None => own_result(g@, id) is None,
        },
{
    let players = summary::players_of(g);
    let ghost ps = summary::ref_docs(players@);
    let mut own: Option<&'a Json> = None;
    let mut i: usize = 0;
    while i < players.len()
        invariant
            i <= players@.len(),
            ps == summary::ref_docs(players@),
            match own {
                Some(p) => own_player(ps, id, i as nat) == Some(p@),
                None => own_player(ps, id, i as nat) is None,
            },
        decreases players@.len() - i,
    {
        assert(ps[i as int] == players@[i as int]@);
        match players[i].integer_at("profile_id") {
            Some(n) => {
                if n == id {
                    own = Some(players[i]);
                }
            },
            None => {},
        }
        i = i + 1;
    }
    match own {
        Some(p) => match p.text_at("result") {
            Some(r) => Some((text::same(r, "win"), p.text_at("civilization"))),
            None => None,
        },
        None => None,
    }
}

impl PlayerRecord {
    fn add_result(&mut self, win: bool)
        requires
            forall|i: int|
                0 <= i < old(self).streaks@.len() ==> i64::MIN * 4 <= #[trigger] old(
                    self,
                ).streaks@[i] <= i64::MAX * 4,
        ensures
            final(self)@ == (Record {
                streaks: with_result(old(self)@.streaks, win),
                ..old(self)@
            }),
    {
        let ghost before = self@;
        let n: usize = self.streaks.len();
        if n > 0 && self.streaks[n - 1] > 0 && win {
            let last: i128 = self.streaks[n - 1];
            self.streaks.set(n - 1, last + 1);
        } else if n > 0 && self.streaks[n - 1] < 0 && !win {
            let last: i128 = self.streaks[n - 1];
            self.streaks.set(n - 1, last - 1);
        } else if win {
            self.streaks.push(1);
        } else {
            self.streaks.push(-1);
        }
        assert(self@.streaks =~= with_result(before.streaks, win));
    }

    /// Takes in one more game.
    pub fn add_game(&mut self, g: &Json, id: i64)
        requires
            record_bounded(old(self)@, (u64::MAX - 1) as nat),
        ensures
            final(self)@ == with_game(old(self)@, g@, id),
    {
        let ghost before = self@;
        if self.last_game.as_str().is_empty() {
            self.last_game = g.text_or("started_at", "").to_owned();
        }
        match read_result(g, id) {
            Some((win, civ)) => {
                if win {
                    self.wins = self.wins + 1;
                } else {
                    self.losses = self.losses + 1;
                }
                match civ {
                    Some(c) => {
                        self.civs.count(c, win);
                    },
                    None => {},
                }
                self.maps.count(g.text_or("map", "?"), win);
                self.modes.count(g.text_or("kind", "?"), win);
                proof {
                    let ks = order::key_values(self.streaks@);
                    assert(ks == before.streaks);
                    assert forall|i: int| 0 <= i < self.streaks@.len() implies i64::MIN * 4
                        <= #[trigger] self.streaks@[i] <= i64::MAX * 4 by {
                        assert(before.streaks[i] == self.streaks@[i]);
                    }
                }
                self.add_result(win);
            },
            None => {},
        }
    }
}

/// Taking in a game raises no number by more than one.
proof fn lemma_with_game_bounded(r: Record, g: Doc, id: i64, n: nat)
    requires
        record_bounded(r, n),
    ensures
        record_bounded(with_game(r, g, id), n + 1),
{
    match own_result(g, id) {
        Some((win, civ)) => {
            tally::lemma_counted_bounded(r.maps, g.text_or("map"@, "?"@), win, n);
            tally::lemma_counted_bounded(r.modes, g.text_or("kind"@, "?"@), win, n);
            match civ {
                Some(c) => {
                    tally::lemma_counted_bounded(r.civs, c, win, n);
                },
                None => {},
            }
        },
        None => {},
    }
}

/// The record of the first `limit` of the games, which stand newest first.
pub fn read_record(games: &Vec<Json>, limit: usize, id: i64) -> (r: PlayerRecord)
    ensures
        r@ == record(
            json::docs(games@).take(battle::at_most(games@.len(), limit as nat) as int),
            id,
            battle::at_most(games@.len(), limit as nat),
        ),
        record_bounded(r@, battle::at_most(games@.len(), limit as nat)),
{
    let n: usize = if games.len() < limit {
        games.len()
    } else {
        limit
    };
    let ghost taken = json::docs(games@).take(n as int);
    let mut r = PlayerRecord {
        wins: 0,
        losses: 0,
        civs: Tally::new(),
        maps: Tally::new(),
        modes: Tally::new(),
        streaks: Vec::new(),
        last_game: "".to_owned(),
    };
    assert(r@.streaks =~= Seq::<int>::empty());
    let mut i: usize = 0;
    while i < n
        invariant
            i <= n <= games.len(),
            taken == json::docs(games@).take(n as int),
            r@ == record(taken, id, i as nat),
            record_bounded(r@, i as nat),
        decreases n - i,
    {
        proof {
            assert(taken[n - (i + 1)] == games@[n - 1 - i]@);
            lemma_with_game_bounded(r@, taken[n - (i + 1)], id, i as nat);
        }
        r.add_game(&games[n - 1 - i], id);
        i = i + 1;
    }
    r
}

/// The current run.
pub open spec fn current(streaks: Seq<int>) -> int {
    if streaks.len() == 0 {
        0
    } else {
        streaks.last()
    }
}

/// The greatest of the first `n` runs: the longest run of wins, or the shortest one of losses where
/// there are no others.
pub open spec fn greatest(streaks: Seq<int>, n: nat) -> int
    decreases n,
{
    if n == 0 {
        0
    } else if n == 1 || greatest(streaks, (n - 1) as nat) < streaks[n - 1] {
        streaks[n - 1]
    } else {
        greatest(streaks, (n - 1) as nat)
    }
}

/// The least of the first `n` runs: the longest run of losses, or the shortest one of wins where
/// there are no others.
pub open spec fn least(streaks: Seq<int>, n: nat) -> int
    decreases n,
{
    if n == 0 {
        0
    } else if n == 1 || streaks[n - 1] < least(streaks, (n - 1) as nat) {
        streaks[n - 1]
    } else {
        least(streaks, (n - 1) as nat)
    }
}

/// A number without its sign.
pub open spec fn magnitude(n: int) -> int {
    if n < 0 {
        -n
    } else {
        n
    }
}

/// How the current run is told.
pub open spec fn current_told(run: int) -> Seq<char> {
    if run > 0 {
        text::signed(run) + " 连胜"@
    } else if run < 0 {
        text::signed(-run) + " 连败"@
    } else {
        "无连胜连败"@
    }
}

/// The counts with at least `min` games among the first `n`.
pub open spec fn frequent(t: Seq<Count>, min: nat, n: nat) -> Seq<Count>
    decreases n,
{
    if n == 0 {
        Seq::empty()
    } else if t[n - 1].games >= min {
        frequent(t, min, (n - 1) as nat).push(t[n - 1])
    } else {
        frequent(t, min, (n - 1) as nat)
    }
}

/// The wins of each count.
pub open spec fn wins_of(t: Seq<Count>) -> Seq<int> {
    t.map_values(|c: Count| c.wins as int)
}

/// Whether the share of wins in the games of `a` is greater than in those of `b`.
pub open spec fn fares_better(a: Count, b: Count) -> bool {
    a.wins * b.games > b.wins * a.games
}

/// How many of the first `n` counts fare better than `c`.
pub open spec fn better_ones(t: Seq<Count>, c: Count, n: nat) -> int
    decreases n,
{
    if n == 0 {
        0
    } else {
        better_ones(t, c, (n - 1) as nat) + if fares_better(t[n - 1], c) {
            1int
        } else {
            0int
        }
    }
}

/// How many counts fare better than each count.
pub open spec fn share_ranks(t: Seq<Count>) -> Seq<int> {
    Seq::new(t.len(), |i: int| better_ones(t, t[i], t.len()))
}

/// The places of the counts by descending share of wins.
pub open spec fn by_share(t: Seq<Count>) -> Seq<int> {
    order::ascending(share_ranks(t))
}

proof fn lemma_better_transitive(a: Count, b: Count, c: Count)
    requires
        a.games > 0,
        b.games > 0,
        c.games > 0,
        fares_better(a, b),
        !fares_better(c, b),
    ensures
        fares_better(a, c),
{
    let (aw, ag, bw, bg, cw, cg) = (
        a.wins as int,
        a.games as int,
        b.wins as int,
        b.games as int,
        c.wins as int,
        c.games as int,
    );
    assert(aw * cg > cw * ag) by (nonlinear_arith)
        requires
            ag > 0,
            bg > 0,
            cg > 0,
            aw * bg > bw * ag,
            cw * bg <= bw * cg,
    {
        assert((aw * bg) * cg > (bw * ag) * cg);
        assert((cw * bg) * ag <= (bw * cg) * ag);
        assert((aw * cg) * bg == (aw * bg) * cg);
        assert((cw * ag) * bg == (cw * bg) * ag);
        assert((bw * ag) * cg == (bw * cg) * ag);
        assert((aw * cg) * bg > (cw * ag) * bg);
    }
}

/// A count that does not fare worse than another has no more counts above it, and fewer where it
/// fares better and is one of them.
proof fn lemma_better_ones(t: Seq<Count>, a: Count, b: Count, n: nat)
    requires
        n <= t.len(),
        a.games > 0,
        b.games > 0,
        forall|i: int| 0 <= i < t.len() ==> (#[trigger] t[i]).games > 0,
        !fares_better(b, a),
    ensures
        better_ones(t, a, n) <= better_ones(t, b, n),
        fares_better(a, b) && (exists|j: int| 0 <= j < n && #[trigger] t[j] == a) ==> better_ones(
            t,
            a,
            n,
        ) < better_ones(t, b, n),
    decreases n,
{
    if n > 0 {
        lemma_better_ones(t, a, b, (n - 1) as nat);
        let w = t[n - 1];
        if fares_better(w, a) {
            lemma_better_transitive(w, a, b);
        }
    }
}

/// The order by share names each count exactly once; shares go down along it, and counts of equal
/// share keep the order they had.
pub proof fn lemma_by_share(t: Seq<Count>)
    requires
        forall|i: int| 0 <= i < t.len() ==> (#[trigger] t[i]).games > 0,
    ensures
        order::names_all(by_share(t), t.len() as int),
        forall|a: int, b: int|
            0 <= a < b < t.len() ==> {
                ||| fares_better(t[#[trigger] by_share(t)[a]], t[#[trigger] by_share(t)[b]])
                ||| !fares_better(t[by_share(t)[b]], t[by_share(t)[a]]) && by_share(t)[a]
                    < by_share(t)[b]
            },
{
    let keys = share_ranks(t);
    let o = by_share(t);
    order::lemma_ascending(keys);
    assert forall|a: int, b: int| 0 <= a < b < t.len() implies {
        ||| fares_better(t[#[trigger] o[a]], t[#[trigger] o[b]])
        ||| !fares_better(t[o[b]], t[o[a]]) && o[a] < o[b]
    } by {
        let x = o[a];
        let y = o[b];
        assert(t[x].games > 0 && t[y].games > 0);
        if fares_better(t[y], t[x]) {
            lemma_not_both(t[y], t[x]);
            lemma_better_ones(t, t[y], t[x], t.len());
            assert(keys[y] < keys[x]);
        } else if !fares_better(t[x], t[y]) {
            lemma_better_ones(t, t[x], t[y], t.len());
            lemma_better_ones(t, t[y], t[x], t.len());
            assert(keys[x] == keys[y]);
        }
    }
}

proof fn lemma_not_both(a: Count, b: Count)
    ensures
        !(fares_better(a, b) && fares_better(b, a)),
{
}

fn does_better(a: &tally::Row, b: &tally::Row) -> (r: bool)
    ensures
        r == fares_better(a@, b@),
{
    proof {
        lemma_product_fits(a.wins, b.games);
        lemma_product_fits(b.wins, a.games);
    }
    a.wins as u128 * b.games as u128 > b.wins as u128 * a.games as u128
}

proof fn lemma_product_fits(a: u64, b: u64)
    ensures
        0 <= a * b <= u128::MAX,
{
    assert(0 <= a * b <= 0xffff_ffff_ffff_ffff * 0xffff_ffff_ffff_ffff) by (nonlinear_arith)
        requires
            a <= 0xffff_ffff_ffff_ffff,
            b <= 0xffff_ffff_ffff_ffff,
    ;
}

/// The parts on one count.
pub open spec fn pair_parts(label: Seq<char>, c: Count) -> Seq<Part> {
    seq![
        Part::Text("- "@ + label + c.name + ": "@),
        report::rate(c.wins as int, c.games as int, 0),
        Part::Text("% ("@ + text::decimal(c.wins) + "/"@ + text::decimal(c.games) + ")\n"@),
    ]
}

/// The parts on the first `n` counts in the given order.
pub open spec fn pairs_told(label: Seq<char>, t: Seq<Count>, places: Seq<int>, n: nat) -> Seq<Part>
    decreases n,
{
    if n == 0 {
        Seq::empty()
    } else {
        pairs_told(label, t, places, (n - 1) as nat) + pair_parts(label, t[places[n - 1]])
    }
}

/// How many counts of a kind are told.
pub const PAIRS_TOLD: usize = 6;

/// The places of the counts, by descending share of wins or by descending wins.
pub open spec fn pair_order(t: Seq<Count>, shares: bool) -> Seq<int> {
    if shares {
        by_share(t)
    } else {
        order::descending(wins_of(t))
    }
}

/// The counts with at least `min` games under their heading, by descending share of wins or by
/// descending wins. Nothing where there are none.
pub open spec fn pair_section(
    heading: Seq<char>,
    label: Seq<char>,
    t: Seq<Count>,
    min: nat,
    shares: bool,
) -> Seq<Part> {
    let rows = frequent(t, min, t.len());
    if rows.len() == 0 {
        Seq::empty()
    } else {
        seq![Part::Text(heading)] + pairs_told(
            label,
            rows,
            pair_order(rows, shares),
            battle::at_most(rows.len(), PAIRS_TOLD as nat),
        )
    }
}

/// The places of the rows at `at`, by descending share of wins or by descending wins.
fn order_pairs(t: &Tally, at: &Vec<usize>, shares: bool) -> (r: Vec<usize>)
    requires
        forall|k: int| 0 <= k < at@.len() ==> (#[trigger] at@[k]) < t.rows@.len(),
    ensures
        ({
            let rows = Seq::new(at@.len(), |k: int| t@[at@[k] as int]);
            order::places(r@) == pair_order(rows, shares)
        }),
        r@.len() == at@.len(),
        forall|i: int| 0 <= i < r@.len() ==> (#[trigger] r@[i]) < at@.len(),
{
    let ghost rows = Seq::new(at@.len(), |k: int| t@[at@[k] as int]);
    let mut keys: Vec<i128> = Vec::new();
    let mut i: usize = 0;
    while i < at.len()
        invariant
            i <= at@.len(),
            keys@.len() == i,
            rows == Seq::new(at@.len(), |k: int| t@[at@[k] as int]),
            forall|k: int| 0 <= k < at@.len() ==> (#[trigger] at@[k]) < t.rows@.len(),
            forall|k: int|
                0 <= k < i ==> (#[trigger] keys@[k]) == if shares {
                    better_ones(rows, rows[k], rows.len())
                } else {
                    rows[k].wins as int
                },
            forall|k: int| 0 <= k < i ==> (#[trigger] keys@[k]) > i128::MIN,
        decreases at@.len() - i,
    {
        let row = &t.rows[at[i]];
        assert(rows[i as int] == row@);
        if shares {
            let mut better: usize = 0;
            let mut k: usize = 0;
            while k < at.len()
                invariant
                    k <= at@.len(),
                    better <= k,
                    rows == Seq::new(at@.len(), |k: int| t@[at@[k] as int]),
                    forall|j: int| 0 <= j < at@.len() ==> (#[trigger] at@[j]) < t.rows@.len(),
                    better == better_ones(rows, row@, k as nat),
                decreases at@.len() - k,
            {
                let other = &t.rows[at[k]];
                assert(rows[k as int] == other@);
                if does_better(other, row) {
                    better = better + 1;
                }
                k = k + 1;
            }
            keys.push(better as i128);
        } else {
            keys.push(row.wins as i128);
        }
        i = i + 1;
    }
    if shares {
        assert(order::key_values(keys@) =~= share_ranks(rows));
        order::order_ascending(&keys)
    } else {
        assert(order::key_values(keys@) =~= wins_of(rows));
        order::order_descending(&keys)
    }
}

fn pair_report(heading: &str, label: &str, t: &Tally, min: u64, shares: bool) -> (r: Report)
    ensures
        r@ == pair_section(heading@, label@, t@, min as nat, shares),
{
    let mut at: Vec<usize> = Vec::new();
    let ghost mut rows: Seq<Count> = Seq::empty();
    let mut i: usize = 0;
    while i < t.rows.len()
        invariant
            i <= t.rows@.len(),
            rows == frequent(t@, min as nat, i as nat),
            rows.len() == at@.len(),
            forall|k: int| 0 <= k < at@.len() ==> (#[trigger] at@[k]) < t.rows@.len(),
            forall|k: int| 0 <= k < rows.len() ==> #[trigger] rows[k] == t@[at@[k] as int],
        decreases t.rows@.len() - i,
    {
        assert(t@[i as int] == t.rows@[i as int]@);
        if t.rows[i].games >= min {
            proof {
                rows = rows.push(t@[i as int]);
            }
            at.push(i);
        }
        i = i + 1;
    }
    let mut out = Report::new();
    if at.len() == 0 {
        return out;
    }
    let places = order_pairs(t, &at, shares);
    assert(rows =~= Seq::new(at@.len(), |k: int| t@[at@[k] as int]));
    let ghost sorted = pair_order(rows, shares);
    let n: usize = if at.len() < PAIRS_TOLD {
        at.len()
    } else {
        PAIRS_TOLD
    };
    out.text(heading);
    assert(out@ =~= seq![Part::Text(heading@)] + pairs_told(label@, rows, sorted, 0));
    let mut k: usize = 0;
    while k < n
        invariant
            k <= n <= places@.len(),
            rows.len() == at@.len() == places@.len(),
            sorted == order::places(places@),
            forall|j: int| 0 <= j < places@.len() ==> (#[trigger] places@[j]) < rows.len(),
            forall|j: int| 0 <= j < at@.len() ==> (#[trigger] at@[j]) < t.rows@.len(),
            forall|j: int| 0 <= j < rows.len() ==> #[trigger] rows[j] == t@[at@[j] as int],
            out@ == seq![Part::Text(heading@)] + pairs_told(label@, rows, sorted, k as nat),
        decreases n - k,
    {
        let p: usize = places[k];
        let q: usize = at[p];
        let row = &t.rows[q];
        let ghost had = out@;
        proof {
            assert(sorted[k as int] == p as int);
            assert(rows[p as int] == t@[q as int]);
            assert(t@[q as int] == row@);
        }
        out.text(text::cat4("- ", label, row.name.as_str(), ": ").as_str());
        out.rate(row.wins as i128, row.games as i128, 0);
        out.text(
            text::cat5(
                "% (",
                text::decimal_text(row.wins as u128).as_str(),
                "/",
                text::decimal_text(row.games as u128).as_str(),
                ")\n",
            ).as_str(),
        );
        assert(out@ =~= had + pair_parts(label@, row@));
        assert(had + pair_parts(label@, row@) =~= seq![Part::Text(heading@)] + pairs_told(
            label@,
            rows,
            sorted,
            (k + 1) as nat,
        ));
        k = k + 1;
    }
    out
}

/// The first line of the report on a player.
pub open spec fn history_heading(id: int, profile: Doc) -> Seq<char> {
    "玩家历史分析 "@ + profile.text_or("name"@, "?"@) + " (profile_id="@ + text::signed(id) + ")\n"@
        + summary::player_report(profile) + "\n"@
}

/// How the games up to the share of wins are told.
pub open spec fn totals_before(r: Record) -> Seq<char> {
    "近 "@ + text::decimal(r.wins + r.losses) + " 场(截至 "@ + r.last_game + "):胜率 "@
}

/// How the games after the share of wins are told.
pub open spec fn totals_after(r: Record) -> Seq<char> {
    "% ("@ + text::decimal(r.wins) + "胜/"@ + text::decimal(r.losses) + "负);当前"@ + current_told(
        current(r.streaks),
    ) + ";最长连胜 "@ + text::signed(greatest(r.streaks, r.streaks.len())) + ";最长连败 "@
        + text::signed(magnitude(least(r.streaks, r.streaks.len()))) + "\n"@
}

/// The heading above the civilizations.
pub const CIVS_HEADING: &'static str = "文明表现(按胜率,≥2 场):\n";

/// The heading above the maps.
pub const MAPS_HEADING: &'static str = "地图表现(按胜率,≥2 场):\n";

/// The heading above the modes.
pub const MODES_HEADING: &'static str = "模式分布:\n";

/// The report on a player's games.
pub open spec fn history_report(id: int, profile: Doc, r: Record) -> Seq<Part> {
    seq![
        Part::Text(history_heading(id, profile)),
        Part::Text(totals_before(r)),
        report::rate(r.wins as int, (r.wins + r.losses) as int, 1),
        Part::Text(totals_after(r)),
    ] + pair_section(CIVS_HEADING@, "文明 "@, r.civs, 2, true) + pair_section(
        MAPS_HEADING@,
        "地图 "@,
        r.maps,
        2,
        true,
    ) + pair_section(MODES_HEADING@, "模式 "@, r.modes, 1, false)
}

fn longest(streaks: &Vec<i128>) -> (r: (i128, i128))
    requires
        forall|i: int|
            0 <= i < streaks@.len() ==> i64::MIN * 4 <= #[trigger] streaks@[i] <= i64::MAX * 4,
    ensures
        r.0 == greatest(order::key_values(streaks@), streaks@.len()),
        r.1 == least(order::key_values(streaks@), streaks@.len()),
        i64::MIN * 4 <= r.0 <= i64::MAX * 4,
        i64::MIN * 4 <= r.1 <= i64::MAX * 4,
{
    let ghost ks = order::key_values(streaks@);
    let mut high: i128 = 0;
    let mut low: i128 = 0;
    let mut i: usize = 0;
    while i < streaks.len()
        invariant
            i <= streaks@.len(),
            ks == order::key_values(streaks@),
            high == greatest(ks, i as nat),
            low == least(ks, i as nat),
            forall|j: int|
                0 <= j < streaks@.len() ==> i64::MIN * 4 <= #[trigger] streaks@[j] <= i64::MAX * 4,
            i64::MIN * 4 <= high <= i64::MAX * 4,
            i64::MIN * 4 <= low <= i64::MAX * 4,
        decreases streaks@.len() - i,
    {
        assert(ks[i as int] == streaks@[i as int]);
        if i == 0 || high < streaks[i] {
            high = streaks[i];
        }
        if i == 0 || streaks[i] < low {
            low = streaks[i];
        }
        i = i + 1;
    }
    (high, low)
}

/// The report on a player: the profile, the share of wins and the runs, and how the
/// civilizations, maps and modes fared, over the newest `games_limit` of the games.
pub fn analyze_player(
    profile_id: i64,
    profile: &Json,
    games: &Vec<Json>,
    games_limit: usize,
) -> (r: Report)
    ensures
        ({
            let n = battle::at_most(games@.len(), games_limit as nat);
            r@ == history_report(
                profile_id as int,
                profile@,
                record(json::docs(games@).take(n as int), profile_id, n),
            )
        }),
{
    let r = read_record(games, games_limit, profile_id);
    let ghost rec = r@;
    let ghost n = battle::at_most(games@.len(), games_limit as nat);
    proof {
        assert forall|i: int| 0 <= i < r.streaks@.len() implies i64::MIN * 4
            <= #[trigger] r.streaks@[i] <= i64::MAX * 4 by {
            assert(rec.streaks[i] == r.streaks@[i]);
            assert(n <= games.len());
        }
    }
    let mut heading = text::cat5(
        "玩家历史分析 ",
        profile.text_or("name", "?"),
        " (profile_id=",
        text::signed_text(profile_id as i128).as_str(),
        ")\n",
    );
    heading.append(summary::summarize_player(profile).as_str());
    heading.append("\n");
    let (high, low) = longest(&r.streaks);
    let run: i128 = if r.streaks.len() == 0 {
        0
    } else {
        r.streaks[r.streaks.len() - 1]
    };
    assert(run == current(rec.streaks));
    let run_text = if run > 0 {
        text::cat2(text::signed_text(run).as_str(), " 连胜")
    } else if run < 0 {
        text::cat2(text::signed_text(-run).as_str(), " 连败")
    } else {
        "无连胜连败".to_owned()
    };
    let deepest: i128 = if low < 0 {
        -low
    } else {
        low
    };
    let total: u128 = r.wins as u128 + r.losses as u128;
    let before = text::cat5(
        "近 ",
        text::decimal_text(total).as_str(),
        " 场(截至 ",
        r.last_game.as_str(),
        "):胜率 ",
    );
    let mut after = text::cat5(
        "% (",
        text::decimal_text(r.wins as u128).as_str(),
        "胜/",
        text::decimal_text(r.losses as u128).as_str(),
        "负);当前",
    );
    after.append(run_text.as_str());
    after.append(";最长连胜 ");
    after.append(text::signed_text(high).as_str());
    after.append(";最长连败 ");
    after.append(text::signed_text(deepest).as_str());
    after.append("\n");
    let mut out = Report::new();
    out.text(heading.as_str());
    out.text(before.as_str());
    out.rate(r.wins as i128, total as i128, 1);
    out.text(after.as_str());
    out.extend(pair_report(CIVS_HEADING, "文明 ", &r.civs, 2, true));
    out.extend(pair_report(MAPS_HEADING, "地图 ", &r.maps, 2, true));
    out.extend(pair_report(MODES_HEADING, "模式 ", &r.modes, 1, false));
    out
}

/// A game keeps a record but for when the last game was, where no slot of the player in it carries a
/// result.
pub proof fn lemma_undecided_game(r: Record, g: Doc, id: i64)
    requires
        forall|k: int|
            0 <= k < summary::game_players(g).len() && (#[trigger] summary::game_players(
                g,
            )[k]).integer_at("profile_id"@) == Some(id) ==> summary::game_players(g)[k].text_at(
                "result"@,
            ) is None,
    ensures
        ({
            let next = with_game(r, g, id);
            &&& next.wins == r.wins
            &&& next.losses == r.losses
            &&& next.civs == r.civs
            &&& next.maps == r.maps
            &&& next.modes == r.modes
            &&& next.streaks == r.streaks
        }),
{
    let players = summary::game_players(g);
    lemma_own_player(players, id, players.len());
}

proof fn lemma_own_player(players: Seq<Doc>, id: i64, n: nat)
    requires
        n <= players.len(),
    ensures
        match own_player(players, id, n) {
            Some(p) => exists|k: int|
                0 <= k < n && #[trigger] players[k] == p && p.integer_at("profile_id"@) == Some(id)
                    && forall|j: int|
                    k < j < n ==> (#[trigger] players[j]).integer_at("profile_id"@) != Some(id),
            None => forall|j: int|
                0 <= j < n ==> (#[trigger] players[j]).integer_at("profile_id"@) != Some(id),
        },
    decreases n,
{
    if n > 0 {
        lemma_own_player(players, id, (n - 1) as nat);
        if players[n - 1].integer_at("profile_id"@) == Some(id) {
            assert(players[n - 1] == own_player(players, id, n)->0);
        } else if own_player(players, id, (n - 1) as nat) is Some {
            let p = own_player(players, id, (n - 1) as nat)->0;
            let k = choose|k: int|
                0 <= k < n - 1 && #[trigger] players[k] == p && p.integer_at("profile_id"@) == Some(
                    id,
                ) && forall|j: int|
                    k < j < n - 1 ==> (#[trigger] players[j]).integer_at("profile_id"@) != Some(id);
            assert(players[k] == p);
        }
    }
}

/// Whether the slot at `k` is the player's in a game, the last one if there are several.
pub open spec fn is_own_slot(g: Doc, id: i64, k: int) -> bool {
    let players = summary::game_players(g);
    &&& 0 <= k < players.len()
    &&& players[k].integer_at("profile_id"@) == Some(id)
    &&& forall|j: int|
        k < j < players.len() ==> (#[trigger] players[j]).integer_at("profile_id"@) != Some(id)
}

/// Whether the player's slot in a game holds a result, which is a win or, as `won` says, is not.
pub open spec fn decides(g: Doc, id: i64, won: bool) -> bool {
    exists|k: int| #[trigger]
        is_own_slot(g, id, k) && summary::game_players(g)[k].text_at("result"@) is Some && (
        summary::game_players(g)[k].text_at("result"@) == Some("win"@)) == won
}

/// Whether the player's slot in a game names a civilization.
pub open spec fn plays_as(g: Doc, id: i64, civ: Seq<char>) -> bool {
    exists|k: int| #[trigger]
        is_own_slot(g, id, k) && summary::game_players(g)[k].text_at("civilization"@) == Some(civ)
}

proof fn lemma_own_result(g: Doc, id: i64)
    ensures
        own_result(g, id) is None <==> !decides(g, id, true) && !decides(g, id, false),
        own_result(g, id) matches Some((win, civ)) ==> {
            &&& decides(g, id, win)
            &&& !decides(g, id, !win)
            &&& forall|c: Seq<char>| #[trigger] plays_as(g, id, c) <==> civ == Some(c)
        },
{
    let players = summary::game_players(g);
    lemma_own_player(players, id, players.len());
    match own_player(players, id, players.len()) {
        Some(p) => {
            let k = choose|k: int|
                0 <= k < players.len() && #[trigger] players[k] == p && p.integer_at("profile_id"@)
                    == Some(id) && forall|j: int|
                    k < j < players.len() ==> (#[trigger] players[j]).integer_at("profile_id"@)
                        != Some(id);
            assert(is_own_slot(g, id, k));
            assert forall|j: int| #[trigger] is_own_slot(g, id, j) implies j == k by {
                assert(players[j].integer_at("profile_id"@) == Some(id));
                assert(players[k].integer_at("profile_id"@) == Some(id));
            }
        },
        None => {
            assert forall|j: int| !#[trigger] is_own_slot(g, id, j) by {
                if is_own_slot(g, id, j) {
                    assert(players[j].integer_at("profile_id"@) == Some(id));
                }
            }
        },
    }
}

/// What a game adds to a record: a win to the wins, the map, the mode and the civilization if the
/// player's slot says so, a loss if it says anything else, and nothing if it says nothing.
pub proof fn lemma_game_adds(r: Record, g: Doc, id: i64, name: Seq<char>)
    requires
        consistent(r),
    ensures
        ({
            let next = with_game(r, g, id);
            let won = decides(g, id, true);
            let lost = decides(g, id, false);
            &&& !(won && lost)
            &&& next.wins == r.wins + tally::one_if(won)
            &&& next.losses == r.losses + tally::one_if(lost)
            &&& tally::games_of(next.maps, name) == tally::games_of(r.maps, name) + tally::one_if(
                (won || lost) && g.text_or("map"@, "?"@) == name,
            )
            &&& tally::wins_of(next.maps, name) == tally::wins_of(r.maps, name) + tally::one_if(
                won && g.text_or("map"@, "?"@) == name,
            )
            &&& tally::games_of(next.modes, name) == tally::games_of(r.modes, name) + tally::one_if(
                (won || lost) && g.text_or("kind"@, "?"@) == name,
            )
            &&& tally::wins_of(next.modes, name) == tally::wins_of(r.modes, name) + tally::one_if(
                won && g.text_or("kind"@, "?"@) == name,
            )
            &&& tally::games_of(next.civs, name) == tally::games_of(r.civs, name) + tally::one_if(
                (won || lost) && plays_as(g, id, name),
            )
            &&& tally::wins_of(next.civs, name) == tally::wins_of(r.civs, name) + tally::one_if(
                won && plays_as(g, id, name),
            )
        }),
{
    lemma_own_result(g, id);
    match own_result(g, id) {
        Some((win, civ)) => {
            tally::lemma_counted_names(r.maps, g.text_or("map"@, "?"@), win, name);
            tally::lemma_counted_names(r.modes, g.text_or("kind"@, "?"@), win, name);
            match civ {
                Some(c) => {
                    tally::lemma_counted_names(r.civs, c, win, name);
                    assert(plays_as(g, id, name) <==> c == name);
                },
                None => {
                    assert(!plays_as(g, id, name));
                },
            }
        },
        None => {},
    }
}

/// How many of the games have what is asked of them.
pub open spec fn how_many(games: Seq<Doc>, asked: spec_fn(Doc) -> bool) -> nat {
    games.filter(asked).len()
}

proof fn lemma_how_many(games: Seq<Doc>, n: nat, asked: spec_fn(Doc) -> bool)
    requires
        0 < n <= games.len(),
    ensures
        how_many(games.skip(games.len() - n), asked) == how_many(
            games.skip(games.len() - n + 1),
            asked,
        ) + tally::one_if(asked(games[games.len() - n])),
{
    let g = games[games.len() - n];
    let rest = games.skip(games.len() - n + 1);
    assert(games.skip(games.len() - n) =~= seq![g] + rest);
    Seq::filter_distributes_over_add(seq![g], rest, asked);
    reveal_with_fuel(Seq::filter, 2);
    assert(seq![g].drop_last() =~= Seq::<Doc>::empty());
    assert(seq![g].last() == g);
}

/// The wins of a record are the games whose slot of the player holds a win, and its losses those
/// whose slot holds another result. What it says of a map, a mode or a civilization counts the
/// games there in the same way.
pub proof fn lemma_record_counts(games: Seq<Doc>, id: i64, name: Seq<char>)
    ensures
        ({
            let r = record(games, id, games.len());
            &&& r.wins == how_many(games, |g: Doc| decides(g, id, true))
            &&& r.losses == how_many(games, |g: Doc| decides(g, id, false))
            &&& tally::games_of(r.maps, name) == how_many(
                games,
                |g: Doc|
                    (decides(g, id, true) || decides(g, id, false)) && g.text_or("map"@, "?"@)
                        == name,
            )
            &&& tally::wins_of(r.maps, name) == how_many(
                games,
                |g: Doc| decides(g, id, true) && g.text_or("map"@, "?"@) == name,
            )
            &&& tally::games_of(r.modes, name) == how_many(
                games,
                |g: Doc|
                    (decides(g, id, true) || decides(g, id, false)) && g.text_or("kind"@, "?"@)
                        == name,
            )
            &&& tally::wins_of(r.modes, name) == how_many(
                games,
                |g: Doc| decides(g, id, true) && g.text_or("kind"@, "?"@) == name,
            )
            &&& tally::games_of(r.civs, name) == how_many(
                games,
                |g: Doc|
                    (decides(g, id, true) || decides(g, id, false)) && plays_as(g, id, name),
            )
            &&& tally::wins_of(r.civs, name) == how_many(
                games,
                |g: Doc| decides(g, id, true) && plays_as(g, id, name),
            )
        }),
{
    lemma_record_counts_last(games, id, name, games.len());
    assert(games.skip(0) =~= games);
}

proof fn lemma_record_counts_last(games: Seq<Doc>, id: i64, name: Seq<char>, n: nat)
    requires
        n <= games.len(),
    ensures
        ({
            let r = record(games, id, n);
            let last = games.skip(games.len() - n);
            &&& r.wins == how_many(last, |g: Doc| decides(g, id, true))
            &&& r.losses == how_many(last, |g: Doc| decides(g, id, false))
            &&& tally::games_of(r.maps, name) == how_many(
                last,
                |g: Doc|
                    (decides(g, id, true) || decides(g, id, false)) && g.text_or("map"@, "?"@)
                        == name,
            )
            &&& tally::wins_of(r.maps, name) == how_many(
                last,
                |g: Doc| decides(g, id, true) && g.text_or("map"@, "?"@) == name,
            )
            &&& tally::games_of(r.modes, name) == how_many(
                last,
                |g: Doc|
                    (decides(g, id, true) || decides(g, id, false)) && g.text_or("kind"@, "?"@)
                        == name,
            )
            &&& tally::wins_of(r.modes, name) == how_many(
                last,
                |g: Doc| decides(g, id, true) && g.text_or("kind"@, "?"@) == name,
            )
            &&& tally::games_of(r.civs, name) == how_many(
                last,
                |g: Doc|
                    (decides(g, id, true) || decides(g, id, false)) && plays_as(g, id, name),
            )
            &&& tally::wins_of(r.civs, name) == how_many(
                last,
                |g: Doc| decides(g, id, true) && plays_as(g, id, name),
            )
        }),
    decreases n,
{
    let last = games.skip(games.len() - n);
    if n == 0 {
        reveal(Seq::filter);
        assert(last =~= Seq::<Doc>::empty());
    } else {
        lemma_record_counts_last(games, id, name, (n - 1) as nat);
        lemma_record_consistent(games, id, (n - 1) as nat);
        lemma_game_adds(record(games, id, (n - 1) as nat), games[games.len() - n], id, name);
        assert(games.len() - n + 1 == games.len() - (n - 1) as nat);
        lemma_how_many(games, n, |g: Doc| decides(g, id, true));
        lemma_how_many(games, n, |g: Doc| decides(g, id, false));
        lemma_how_many(
            games,
            n,
            |g: Doc|
                (decides(g, id, true) || decides(g, id, false)) && g.text_or("map"@, "?"@) == name,
        );
        lemma_how_many(
            games,
            n,
            |g: Doc| decides(g, id, true) && g.text_or("map"@, "?"@) == name,
        );
        lemma_how_many(
            games,
            n,
            |g: Doc|
                (decides(g, id, true) || decides(g, id, false)) && g.text_or("kind"@, "?"@) == name,
        );
        lemma_how_many(
            games,
            n,
            |g: Doc| decides(g, id, true) && g.text_or("kind"@, "?"@) == name,
        );
        lemma_how_many(
            games,
            n,
            |g: Doc| (decides(g, id, true) || decides(g, id, false)) && plays_as(g, id, name),
        );
        lemma_how_many(games, n, |g: Doc| decides(g, id, true) && plays_as(g, id, name));
    }
}

/// The wins and losses that runs stand for, in their order.
pub open spec fn spelled(streaks: Seq<int>) -> Seq<bool>
    decreases streaks.len(),
{
    if streaks.len() == 0 {
        Seq::empty()
    } else {
        spelled(streaks.drop_last()) + Seq::new(
            magnitude(streaks.last()) as nat,
            |i: int| streaks.last() > 0,
        )
    }
}

/// A decided game continues what the runs stand for by its result, and another leaves it as it is.
pub proof fn lemma_runs_spell_results(r: Record, g: Doc, id: i64)
    requires
        consistent(r),
    ensures
        ({
            let next = with_game(r, g, id).streaks;
            &&& decides(g, id, true) ==> spelled(next) == spelled(r.streaks).push(true)
            &&& decides(g, id, false) ==> spelled(next) == spelled(r.streaks).push(false)
            &&& !decides(g, id, true) && !decides(g, id, false) ==> next == r.streaks
        }),
{
    lemma_own_result(g, id);
    match own_result(g, id) {
        Some((win, _)) => {
            let s = r.streaks;
            let next = with_result(s, win);
            if s.len() > 0 && (s.last() > 0) == win {
                assert(s[s.len() - 1] != 0);
                assert(next.drop_last() =~= s.drop_last());
                assert(spelled(next) =~= spelled(s).push(win));
            } else {
                if s.len() > 0 {
                    assert(s[s.len() - 1] != 0);
                }
                assert(next.drop_last() =~= s);
                assert(spelled(next) =~= spelled(s).push(win));
            }
        },
        None => {},
    }
}

/// The greatest and the least of the runs are runs, and none is greater or less.
pub proof fn lemma_extreme_runs(streaks: Seq<int>, n: nat)
    requires
        0 < n <= streaks.len(),
    ensures
        exists|i: int| 0 <= i < n && #[trigger] streaks[i] == greatest(streaks, n),
        forall|i: int| 0 <= i < n ==> #[trigger] streaks[i] <= greatest(streaks, n),
        exists|i: int| 0 <= i < n && #[trigger] streaks[i] == least(streaks, n),
        forall|i: int| 0 <= i < n ==> least(streaks, n) <= #[trigger] streaks[i],
    decreases n,
{
    if n > 1 {
        lemma_extreme_runs(streaks, (n - 1) as nat);
        if greatest(streaks, n) != streaks[n - 1] {
            let i = choose|i: int|
                0 <= i < n - 1 && #[trigger] streaks[i] == greatest(streaks, (n - 1) as nat);
            assert(streaks[i] == greatest(streaks, n));
        }
        if least(streaks, n) != streaks[n - 1] {
            let i = choose|i: int|
                0 <= i < n - 1 && #[trigger] streaks[i] == least(streaks, (n - 1) as nat);
            assert(streaks[i] == least(streaks, n));
        }
    } else {
        assert(streaks[0] == greatest(streaks, n));
        assert(streaks[0] == least(streaks, n));
    }
}

/// The run that a record ends on is as long as its last results are alike: they are all of its kind,
/// and the one before them is not.
pub proof fn lemma_current_run(streaks: Seq<int>)
    requires
        alternating(streaks),
        streaks.len() > 0,
    ensures
        ({
            let all = spelled(streaks);
            let run = current(streaks);
            let long = if run < 0 {
                -run
            } else {
                run
            };
            &&& 0 < long <= all.len()
            &&& forall|i: int| all.len() - long <= i < all.len() ==> #[trigger] all[i] == (run > 0)
            &&& long < all.len() ==> all[all.len() - long - 1] != (run > 0)
        }),
{
    let all = spelled(streaks);
    assert(streaks[streaks.len() - 1] != 0);
    let head = streaks.drop_last();
    if head.len() > 0 {
        assert(streaks[streaks.len() - 2] != 0);
        assert((streaks[streaks.len() - 1 - 1] > 0) != (streaks[streaks.len() - 1] > 0));
        assert(head.last() == streaks[streaks.len() - 2]);
        assert(spelled(head).last() == (head.last() > 0));
        assert(spelled(head) == all.take(spelled(head).len() as int));
    } else {
        assert(spelled(head).len() == 0);
    }
}

/// The games of a record are as of the oldest game that says when it began.
pub proof fn lemma_last_game(games: Seq<Doc>, id: i64, i: int)
    requires
        0 <= i < games.len(),
        games[i].text_or("started_at"@, ""@).len() > 0,
        forall|k: int|
            i < k < games.len() ==> (#[trigger] games[k]).text_or("started_at"@, ""@).len() == 0,
    ensures
        record(games, id, games.len()).last_game == games[i].text_or("started_at"@, ""@),
{
    lemma_last_game_of(games, id, i, games.len());
}

proof fn lemma_last_game_of(games: Seq<Doc>, id: i64, i: int, n: nat)
    requires
        0 <= i < games.len(),
        n <= games.len(),
        games[i].text_or("started_at"@, ""@).len() > 0,
        forall|k: int|
            i < k < games.len() ==> (#[trigger] games[k]).text_or("started_at"@, ""@).len() == 0,
    ensures
        games.len() - n > i ==> record(games, id, n).last_game.len() == 0,
        games.len() - n <= i ==> record(games, id, n).last_game == games[i].text_or(
            "started_at"@,
            ""@,
        ),
    decreases n,
{
    if n == 0 {
        reveal_strlit("");
        assert(record(games, id, 0).last_game.len() == 0);
    } else {
        lemma_last_game_of(games, id, i, (n - 1) as nat);
        let k = games.len() - n;
        assert(k > i ==> games[k].text_or("started_at"@, ""@).len() == 0);
    }
}

/// As many pages are read as hold the games that are asked for, and no more.
pub proof fn lemma_pages_for(limit: nat)
    ensures
        50 * pages_for(limit) >= limit,
        pages_for(limit) >= 1,
        limit > 0 ==> 50 * (pages_for(limit) - 1) < limit,
{
}

/// A row is kept for its games exactly where it has as many as are asked for.
pub proof fn lemma_frequent(t: Seq<Count>, min: nat, n: nat, c: Count)
    requires
        n <= t.len(),
    ensures
        frequent(t, min, n).contains(c) <==> c.games >= min && exists|i: int|
            0 <= i < n && #[trigger] t[i] == c,
    decreases n,
{
    if n > 0 {
        let before = frequent(t, min, (n - 1) as nat);
        let now = frequent(t, min, n);
        lemma_frequent(t, min, (n - 1) as nat, c);
        if t[n - 1].games >= min {
            assert(now == before.push(t[n - 1]));
            assert(now[before.len() as int] == t[n - 1]);
            if before.contains(c) {
                let i = before.index_of(c);
                assert(now[i] == c);
            }
            if now.contains(c) {
                let i = now.index_of(c);
                if i < before.len() {
                    assert(before[i] == c);
                }
            }
        }
    }
}

/// What is read of a player's games: of the first games up to the limit, as many wins as slots of
/// the player hold a win and as many losses as hold another result.
pub proof fn lemma_read_record(games: &Vec<Json>, limit: usize, id: i64, r: PlayerRecord)
    requires
        call_ensures(read_record, (games, limit, id), r),
    ensures
        ({
            let n = if games@.len() < limit {
                games@.len() as int
            } else {
                limit as int
            };
            let some = json::docs(games@).take(n);
            &&& r.wins == how_many(some, |g: Doc| decides(g, id, true))
            &&& r.losses == how_many(some, |g: Doc| decides(g, id, false))
            &&& r.wins + r.losses <= n
        }),
{
    let n = battle::at_most(games@.len(), limit as nat);
    let some = json::docs(games@).take(n as int);
    lemma_record_counts(some, id, Seq::empty());
}

/// A game in which the player's slots carry no result changes nothing of a record but when the last
/// game was.
pub proof fn lemma_undecided_call(p: &mut PlayerRecord, g: &Json, id: i64)
    requires
        call_ensures(PlayerRecord::add_game, (p, g, id), ()),
        forall|k: int|
            0 <= k < summary::game_players(g@).len() && (#[trigger] summary::game_players(
                g@,
            )[k]).integer_at("profile_id"@) == Some(id) ==> summary::game_players(g@)[k].text_at(
                "result"@,
            ) is None,
    ensures
        final(p).wins == old(p).wins,
        final(p).losses == old(p).losses,
        final(p)@.civs == old(p)@.civs,
        final(p)@.maps == old(p)@.maps,
        final(p)@.modes == old(p)@.modes,
        final(p)@.streaks == old(p)@.streaks,
{
    lemma_undecided_game(old(p)@, g@, id);
}

/// A page adds its games behind those that were read, and another is read only behind a full one and
/// while games are lacking.
pub proof fn lemma_take_page(g: &mut GameReader, body: &Json)
    requires
        call_ensures(GameReader::take_page, (g, body), ()),
        old(g).well_formed(),
        old(g).open,
    ensures
        final(g).read == old(g).read + 1,
        final(g).open ==> final(g).read < final(g).pages,
        final(g).open ==> (body@.array_at("games"@) matches Some(games) && games.len() >= 50),
        body@.array_or_none("games"@).len() < 50 ==> !final(g).open,
        json::docs(final(g).games@) == json::docs(old(g).games@) + body@.array_or_none("games"@),
{
    match body@.array_at("games"@) {
        Some(_) => {},
        None => {
            assert(json::docs(old(g).games@) + Seq::empty() =~= json::docs(old(g).games@));
        },
    }
}

/// The run that a record ends on is told with its length as one of wins or of losses, and as none
/// where there is none.
pub proof fn lemma_current_told(run: int)
    ensures
        run > 0 ==> current_told(run) == text::decimal(run as nat) + " 连胜"@,
        run < 0 ==> current_told(run) == text::decimal((-run) as nat) + " 连败"@,
        run == 0 ==> current_told(run) == "无连胜连败"@,
{
}

/// What is ordered by share goes from the greatest share of wins down, and what is not from the most
/// wins down.
pub proof fn lemma_pair_order(t: Seq<Count>, a: int, b: int)
    requires
        0 <= a < b < t.len(),
        forall|i: int| 0 <= i < t.len() ==> (#[trigger] t[i]).games > 0,
    ensures
        ({
            let by = pair_order(t, true);
            let most = pair_order(t, false);
            &&& by.len() == t.len() && most.len() == t.len()
            &&& 0 <= by[a] < t.len() && 0 <= by[b] < t.len()
            &&& t[by[b]].wins * t[by[a]].games <= t[by[a]].wins * t[by[b]].games
            &&& 0 <= most[a] < t.len() && 0 <= most[b] < t.len()
            &&& t[most[b]].wins <= t[most[a]].wins
        }),
{
    lemma_by_share(t);
    order::lemma_descending(wins_of(t));
    let most = order::descending(wins_of(t));
    assert(wins_of(t).len() == t.len());
    assert(wins_of(t)[most[a]] == t[most[a]].wins);
    assert(wins_of(t)[most[b]] == t[most[b]].wins);
}

/// No more than six are told of a kind, and none where none has games enough.
pub proof fn lemma_pair_section(
    heading: Seq<char>,
    label: Seq<char>,
    t: Seq<Count>,
    min: nat,
    shares: bool,
)
    ensures
        (forall|i: int| 0 <= i < t.len() ==> (#[trigger] t[i]).games < min) ==> pair_section(
            heading,
            label,
            t,
            min,
            shares,
        ).len() == 0,
        pair_section(heading, label, t, min, shares).len() <= 1 + 3 * 6,
        (exists|i: int| 0 <= i < t.len() && (#[trigger] t[i]).games >= min) ==> pair_section(
            heading,
            label,
            t,
            min,
            shares,
        ).len() > 1 && pair_section(heading, label, t, min, shares)[0] == Part::Text(heading),
{
    let rows = frequent(t, min, t.len());
    if rows.len() > 0 {
        lemma_frequent(t, min, t.len(), rows[0]);
        assert(rows.contains(rows[0]));
        lemma_pairs_told_len(
            label,
            rows,
            pair_order(rows, shares),
            battle::at_most(rows.len(), PAIRS_TOLD as nat),
        );
    }
    if exists|i: int| 0 <= i < t.len() && (#[trigger] t[i]).games >= min {
        let i = choose|i: int| 0 <= i < t.len() && (#[trigger] t[i]).games >= min;
        lemma_frequent(t, min, t.len(), t[i]);
        assert(rows.contains(t[i]));
    }
}

proof fn lemma_pairs_told_len(label: Seq<char>, t: Seq<Count>, places: Seq<int>, n: nat)
    ensures
        pairs_told(label, t, places, n).len() == 3 * n,
    decreases n,
{
    if n > 0 {
        lemma_pairs_told_len(label, t, places, (n - 1) as nat);
    }
}

}
