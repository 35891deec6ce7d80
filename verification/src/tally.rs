//! Counting games and wins by name, in the order in which the names first come up.

use crate::text;
use vstd::prelude::*;

verus! {

/// How many games and wins a name has.
pub struct Count {
    pub name: Seq<char>,
    pub games: nat,
    pub wins: nat,
}

/// How many games and wins a name has, as it is kept.
#[derive(Debug)]
pub struct Row {
    pub name: String,
    pub games: u64,
    pub wins: u64,
}

impl View for Row {
    type V = Count;

    open spec fn view(&self) -> Count {
        Count { name: self.name@, games: self.games as nat, wins: self.wins as nat }
    }
}

/// Counts by name.
#[derive(Debug)]
pub struct Tally {
    pub rows: Vec<Row>,
}

impl View for Tally {
    type V = Seq<Count>;

    open spec fn view(&self) -> Seq<Count> {
        self.rows@.map_values(|r: Row| r@)
    }
}

/// The place of `name`, from `i` on.
pub open spec fn place_from(t: Seq<Count>, name: Seq<char>, i: int) -> Option<int>
    decreases t.len() - i,
{
    if i < 0 || i >= t.len() {
        None
    } else if t[i].name == name {
        Some(i)
    } else {
        place_from(t, name, i + 1)
    }
}

/// The place of `name`.
pub open spec fn place(t: Seq<Count>, name: Seq<char>) -> Option<int> {
    place_from(t, name, 0)
}

/// One, if it holds.
pub open spec fn one_if(b: bool) -> nat {
    if b {
        1
    } else {
        0
    }
}

/// The counts after one more game of `name`.
pub open spec fn counted(t: Seq<Count>, name: Seq<char>, win: bool) -> Seq<Count> {
    match place(t, name) {
        Some(i) => t.update(
            i,
            Count { name, games: t[i].games + 1, wins: t[i].wins + one_if(win) },
        ),
        None => t.push(Count { name, games: 1, wins: one_if(win) }),
    }
}

/// The counts after those of `name` have been set.
pub open spec fn assigned(t: Seq<Count>, name: Seq<char>, games: nat, wins: nat) -> Seq<Count> {
    match place(t, name) {
        Some(i) => t.update(i, Count { name, games, wins }),
        None => t.push(Count { name, games, wins }),
    }
}

/// Whether no name stands twice.
pub open spec fn distinct(t: Seq<Count>) -> bool {
    forall|i: int, j: int|
        0 <= i < j < t.len() ==> (#[trigger] t[i]).name != (#[trigger] t[j]).name
}

/// Whether no name has more than `n` games, nor more wins than games.
pub open spec fn bounded(t: Seq<Count>, n: nat) -> bool {
    forall|i: int| 0 <= i < t.len() ==> (#[trigger] t[i]).games <= n && t[i].wins <= t[i].games
}

/// All games of the first `n` names.
pub open spec fn total_games(t: Seq<Count>, n: nat) -> nat
    decreases n,
{
    if n == 0 {
        0
    } else {
        total_games(t, (n - 1) as nat) + t[n - 1].games
    }
}

/// All wins of the first `n` names.
pub open spec fn total_wins(t: Seq<Count>, n: nat) -> nat
    decreases n,
{
    if n == 0 {
        0
    } else {
        total_wins(t, (n - 1) as nat) + t[n - 1].wins
    }
}

/// The place that is found for a name, from `from` on, has a count of that name; where none is
/// found, there is none.
pub proof fn lemma_place(t: Seq<Count>, name: Seq<char>, from: int)
    requires
        0 <= from,
    ensures
        match place_from(t, name, from) {
            Some(i) => from <= i < t.len() && t[i].name == name,
            None => forall|j: int| from <= j < t.len() ==> (#[trigger] t[j]).name != name,
        },
    decreases t.len() - from,
{
    if from < t.len() && t[from].name != name {
        lemma_place(t, name, from + 1);
    }
}

/// Counting keeps the names distinct.
pub proof fn lemma_counted_distinct(t: Seq<Count>, name: Seq<char>, win: bool)
    requires
        distinct(t),
    ensures
        distinct(counted(t, name, win)),
{
    lemma_place(t, name, 0);
}

/// Setting keeps the names distinct.
pub proof fn lemma_assigned_distinct(t: Seq<Count>, name: Seq<char>, games: nat, wins: nat)
    requires
        distinct(t),
    ensures
        distinct(assigned(t, name, games, wins)),
{
    lemma_place(t, name, 0);
}

/// Counting raises no count by more than one.
pub proof fn lemma_counted_bounded(t: Seq<Count>, name: Seq<char>, win: bool, n: nat)
    requires
        bounded(t, n),
    ensures
        bounded(counted(t, name, win), n + 1),
{
    lemma_place(t, name, 0);
}

proof fn lemma_total_update(t: Seq<Count>, i: int, c: Count, n: nat)
    requires
        0 <= i < t.len(),
        n <= t.len(),
    ensures
        total_games(t.update(i, c), n) == total_games(t, n) + if i < n {
            c.games - t[i].games
        } else {
            0
        },
        total_wins(t.update(i, c), n) == total_wins(t, n) + if i < n {
            c.wins - t[i].wins
        } else {
            0
        },
    decreases n,
{
    if n > 0 {
        lemma_total_update(t, i, c, (n - 1) as nat);
    }
}

proof fn lemma_total_push(t: Seq<Count>, c: Count, n: nat)
    requires
        n <= t.len(),
    ensures
        total_games(t.push(c), n) == total_games(t, n),
        total_wins(t.push(c), n) == total_wins(t, n),
    decreases n,
{
    if n > 0 {
        lemma_total_push(t, c, (n - 1) as nat);
    }
}

/// Counting a game adds one to all games, and one to all wins if it was won.
pub proof fn lemma_counted_total(t: Seq<Count>, name: Seq<char>, win: bool)
    ensures
        total_games(counted(t, name, win), counted(t, name, win).len()) == total_games(t, t.len())
            + 1,
        total_wins(counted(t, name, win), counted(t, name, win).len()) == total_wins(t, t.len())
            + one_if(win),
{
    lemma_place(t, name, 0);
    match place(t, name) {
        Some(i) => {
            lemma_total_update(
                t,
                i,
                Count { name, games: t[i].games + 1, wins: t[i].wins + one_if(win) },
                t.len(),
            );
        },
        None => {
            lemma_total_push(t, Count { name, games: 1, wins: one_if(win) }, t.len());
        },
    }
}

/// The games of a name; none where it does not stand in the counts.
pub open spec fn games_of(t: Seq<Count>, name: Seq<char>) -> nat {
    match place(t, name) {
        Some(i) => t[i].games,
        None => 0,
    }
}

/// The wins of a name; none where it does not stand in the counts.
pub open spec fn wins_of(t: Seq<Count>, name: Seq<char>) -> nat {
    match place(t, name) {
        Some(i) => t[i].wins,
        None => 0,
    }
}

/// A name that stands once in the counts has the games and wins that stand with it.
pub proof fn lemma_listed(t: Seq<Count>, i: int)
    requires
        distinct(t),
        0 <= i < t.len(),
    ensures
        games_of(t, t[i].name) == t[i].games,
        wins_of(t, t[i].name) == t[i].wins,
{
    lemma_place(t, t[i].name, 0);
}

/// Counting a game adds one game to its name, and one win if it was won. Every other name keeps
/// what it has.
pub proof fn lemma_counted_names(t: Seq<Count>, name: Seq<char>, win: bool, other: Seq<char>)
    requires
        distinct(t),
    ensures
        games_of(counted(t, name, win), name) == games_of(t, name) + 1,
        win ==> wins_of(counted(t, name, win), name) == wins_of(t, name) + 1,
        !win ==> wins_of(counted(t, name, win), name) == wins_of(t, name),
        other != name ==> games_of(counted(t, name, win), other) == games_of(t, other) && wins_of(
            counted(t, name, win),
            other,
        ) == wins_of(t, other),
{
    let after = counted(t, name, win);
    lemma_place(t, name, 0);
    lemma_place(after, name, 0);
    lemma_place(t, other, 0);
    lemma_place(after, other, 0);
    lemma_counted_distinct(t, name, win);
    match place(t, name) {
        Some(i) => {
            assert(after[i].name == name);
        },
        None => {
            assert(after[t.len() as int].name == name);
        },
    }
    match place(t, other) {
        Some(j) => {
            if other != name {
                assert(after[j] == t[j]);
            }
        },
        None => {},
    }
}

/// Setting a name gives it these games and wins. Every other name keeps what it has.
pub proof fn lemma_assigned_names(
    t: Seq<Count>,
    name: Seq<char>,
    games: nat,
    wins: nat,
    other: Seq<char>,
)
    requires
        distinct(t),
    ensures
        games_of(assigned(t, name, games, wins), name) == games,
        wins_of(assigned(t, name, games, wins), name) == wins,
        other != name ==> games_of(assigned(t, name, games, wins), other) == games_of(t, other)
            && wins_of(assigned(t, name, games, wins), other) == wins_of(t, other),
{
    let after = assigned(t, name, games, wins);
    lemma_place(t, name, 0);
    lemma_place(after, name, 0);
    lemma_place(t, other, 0);
    lemma_place(after, other, 0);
    lemma_assigned_distinct(t, name, games, wins);
    match place(t, name) {
        Some(i) => {
            assert(after[i].name == name);
        },
        None => {
            assert(after[t.len() as int].name == name);
        },
    }
    match place(t, other) {
        Some(j) => {
            if other != name {
                assert(after[j] == t[j]);
            }
        },
        None => {},
    }
}

impl Tally {
    /// No counts.
    pub fn new() -> (r: Tally)
        ensures
            r@ == Seq::<Count>::empty(),
    {
        let r = Tally { rows: Vec::new() };
        assert(r@ =~= Seq::<Count>::empty());
        r
    }

    fn find(&self, name: &str) -> (r: Option<usize>)
        ensures
            match r {
                Some(i) => i < self@.len() && place(self@, name@) == Some(i as int),
                None => place(self@, name@) is None,
            },
    {
        let mut i: usize = 0;
        while i < self.rows.len()
            invariant
                i <= self.rows@.len(),
                place(self@, name@) == place_from(self@, name@, i as int),
            decreases self.rows@.len() - i,
        {
            if text::same(self.rows[i].name.as_str(), name) {
                return Some(i);
            }
            i = i + 1;
        }
        None
    }

    fn put(&mut self, at: Option<usize>, row: Row)
        requires
            at matches Some(i) ==> i < old(self)@.len(),
        ensures
            final(self)@ == match at {
                Some(i) => old(self)@.update(i as int, row@),
                None => old(self)@.push(row@),
            },
    {
        let ghost before = self@;
        match at {
            Some(i) => {
                self.rows.set(i, row);
                assert(self@ =~= before.update(i as int, row@));
            },
            None => {
                self.rows.push(row);
                assert(self@ =~= before.push(row@));
            },
        }
    }

    /// Counts one more game of `name`.
    pub fn count(&mut self, name: &str, win: bool)
        requires
            bounded(old(self)@, (u64::MAX - 1) as nat),
        ensures
            final(self)@ == counted(old(self)@, name@, win),
    {
        let at = self.find(name);
        let (games, wins): (u64, u64) = match at {
            Some(i) => {
                assert(self@[i as int] == self.rows@[i as int]@);
                (self.rows[i].games, self.rows[i].wins)
            },
            None => (0, 0),
        };
        let more: u64 = if win {
            1
        } else {
            0
        };
        self.put(at, Row { name: name.to_owned(), games: games + 1, wins: wins + more });
    }

    /// Sets the counts of `name`.
    pub fn assign(&mut self, name: &str, games: u64, wins: u64)
        ensures
            final(self)@ == assigned(old(self)@, name@, games as nat, wins as nat),
    {
        let at = self.find(name);
        self.put(at, Row { name: name.to_owned(), games, wins });
    }

    /// All games.
    pub fn games(&self) -> (r: u128)
        ensures
            r == total_games(self@, self@.len()),
    {
        let mut sum: u128 = 0;
        let mut i: usize = 0;
        while i < self.rows.len()
            invariant
                i <= self.rows.len(),
                sum == total_games(self@, i as nat),
                sum <= i * 0xffff_ffff_ffff_ffff,
            decreases self.rows@.len() - i,
        {
            assert(self@[i as int] == self.rows@[i as int]@);
            assert((i + 1) * 0xffff_ffff_ffff_ffff == i * 0xffff_ffff_ffff_ffff
                + 0xffff_ffff_ffff_ffff) by (nonlinear_arith);
            assert((i + 1) * 0xffff_ffff_ffff_ffff <= 0xffff_ffff_ffff_ffff
                * 0x1_0000_0000_0000_0000) by (nonlinear_arith)
                requires
                    i < 0xffff_ffff_ffff_ffff,
            ;
            sum = sum + self.rows[i].games as u128;
            i = i + 1;
        }
        sum
    }
}

}
