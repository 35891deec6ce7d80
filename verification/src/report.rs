//! Reports that hold numbers with a fixed number of decimals. The library says which number
//! stands where; how it is rounded and written is left to whoever fills the report.

use vstd::prelude::*;

verus! {

/// A part of a report.
pub enum Part {
    /// Plain text.
    Text(Seq<char>),
    /// The share of `wins` in `games`, as a percentage.
    Rate { wins: int, games: int, decimals: nat },
    /// A number that is given by its digits.
    Fixed { digits: Seq<char>, decimals: nat },
}

/// A part of a report, as it is kept.
#[derive(Debug)]
pub enum Piece {
    Text(String),
    Rate { wins: i128, games: i128, decimals: u8 },
    Fixed { digits: String, decimals: u8 },
}

impl View for Piece {
    type V = Part;

    open spec fn view(&self) -> Part {
        match self {
            Piece::Text(s) => Part::Text(s@),
            Piece::Rate { wins, games, decimals } => Part::Rate {
                wins: *wins as int,
                games: *games as int,
                decimals: *decimals as nat,
            },
            Piece::Fixed { digits, decimals } => Part::Fixed {
                digits: digits@,
                decimals: *decimals as nat,
            },
        }
    }
}

/// A report.
#[derive(Debug)]
pub struct Report {
    pub pieces: Vec<Piece>,
}

impl View for Report {
    type V = Seq<Part>;

    open spec fn view(&self) -> Seq<Part> {
        self.pieces@.map_values(|p: Piece| p@)
    }
}

/// Zero with `decimals` decimals.
pub open spec fn zero(decimals: nat) -> Seq<char> {
    if decimals == 0 {
        "0"@
    } else if decimals == 1 {
        "0.0"@
    } else {
        "0.00"@
    }
}

/// The share of `wins` in `games`: zero where there are no games.
pub open spec fn rate(wins: int, games: int, decimals: nat) -> Part {
    if games > 0 {
        Part::Rate { wins, games, decimals }
    } else {
        Part::Text(zero(decimals))
    }
}

impl Report {
    /// An empty report.
    pub fn new() -> (r: Report)
        ensures
            r@ == Seq::<Part>::empty(),
    {
        let r = Report { pieces: Vec::new() };
        assert(r@ =~= Seq::<Part>::empty());
        r
    }

    fn push(&mut self, p: Piece)
        ensures
            final(self)@ == old(self)@.push(p@),
    {
        let ghost before = self@;
        self.pieces.push(p);
        assert(self@ =~= before.push(p@));
    }

    /// Appends plain text.
    pub fn text(&mut self, s: &str)
        ensures
            final(self)@ == old(self)@.push(Part::Text(s@)),
    {
        self.push(Piece::Text(s.to_owned()));
    }

    /// Appends the share of `wins` in `games`.
    pub fn rate(&mut self, wins: i128, games: i128, decimals: u8)
        requires
            decimals <= 2,
        ensures
            final(self)@ == old(self)@.push(rate(wins as int, games as int, decimals as nat)),
    {
        if games > 0 {
            self.push(Piece::Rate { wins, games, decimals });
        } else if decimals == 0 {
            self.text("0");
        } else if decimals == 1 {
            self.text("0.0");
        } else {
            self.text("0.00");
        }
    }

    /// Appends a number that is given by its digits.
    pub fn fixed(&mut self, digits: &str, decimals: u8)
        ensures
            final(self)@ == old(self)@.push(
                Part::Fixed { digits: digits@, decimals: decimals as nat },
            ),
    {
        self.push(Piece::Fixed { digits: digits.to_owned(), decimals });
    }

    /// Appends another report.
    pub fn extend(&mut self, other: Report)
        ensures
            final(self)@ == old(self)@ + other@,
    {
        let ghost before = self@;
        let ghost more = other@;
        let mut rest = other;
        self.pieces.append(&mut rest.pieces);
        assert(self@ =~= before + more);
    }
}

/// How many of the first `n` parts are numbers.
pub open spec fn numbers(parts: Seq<Part>, n: nat) -> nat
    decreases n,
{
    if n == 0 {
        0
    } else {
        numbers(parts, (n - 1) as nat) + if parts[n - 1] is Text {
            0nat
        } else {
            1nat
        }
    }
}

/// The first `n` parts as text, where `written` holds the numbers in their order.
pub open spec fn filled(parts: Seq<Part>, n: nat, written: Seq<Seq<char>>) -> Seq<char>
    decreases n,
{
    if n == 0 {
        Seq::empty()
    } else {
        let before = filled(parts, (n - 1) as nat, written);
        match parts[n - 1] {
            Part::Text(s) => before + s,
            _ => before + written[numbers(parts, (n - 1) as nat) as int],
        }
    }
}

proof fn lemma_numbers_grow(parts: Seq<Part>, i: nat, n: nat)
    requires
        i <= n,
    ensures
        numbers(parts, i) <= numbers(parts, n),
    decreases n,
{
    if i < n {
        lemma_numbers_grow(parts, i, (n - 1) as nat);
    }
}

impl Report {
    /// The report as text, where `written` holds its numbers in their order.
    pub fn fill(&self, written: &Vec<String>) -> (r: String)
        requires
            written@.len() == numbers(self@, self@.len()),
        ensures
            r@ == filled(self@, self@.len(), crate::text::views(written@)),
    {
        let mut out = String::new();
        let mut used: usize = 0;
        let mut i: usize = 0;
        while i < self.pieces.len()
            invariant
                i <= self.pieces@.len(),
                written.len() == numbers(self@, self@.len()),
                used == numbers(self@, i as nat),
                out@ == filled(self@, i as nat, crate::text::views(written@)),
            decreases self.pieces@.len() - i,
        {
            proof {
                lemma_numbers_grow(self@, (i + 1) as nat, self@.len());
                assert(self@[i as int] == self.pieces@[i as int]@);
            }
            match &self.pieces[i] {
                Piece::Text(s) => {
                    out.append(s.as_str());
                },
                _ => {
                    out.append(written[used].as_str());
                    used = used + 1;
                },
            }
            i = i + 1;
        }
        out
    }
}

/// A share of no games is nothing, with as many places as are asked for; a share of some is theirs.
pub proof fn lemma_rate(wins: int, games: int, decimals: nat)
    ensures
        games > 0 ==> rate(wins, games, decimals) == (Part::Rate { wins, games, decimals }),
        games <= 0 && decimals == 0 ==> rate(wins, games, decimals) == Part::Text("0"@),
        games <= 0 && decimals == 1 ==> rate(wins, games, decimals) == Part::Text("0.0"@),
        games <= 0 && decimals == 2 ==> rate(wins, games, decimals) == Part::Text("0.00"@),
{
}

/// What a report comes to is what its parts come to, one behind the other: its texts as they are,
/// and in place of each number what was written for it.
pub proof fn lemma_filled(parts: Seq<Part>, n: nat, written: Seq<Seq<char>>)
    requires
        n < parts.len(),
    ensures
        parts[n as int] matches Part::Text(s) ==> filled(parts, n + 1, written) == filled(
            parts,
            n,
            written,
        ) + s && numbers(parts, n + 1) == numbers(parts, n),
        !(parts[n as int] is Text) ==> filled(parts, n + 1, written) == filled(parts, n, written)
            + written[numbers(parts, n) as int] && numbers(parts, n + 1) == numbers(parts, n) + 1,
{
}

}
