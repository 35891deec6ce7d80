//! Links to games, and which page a full report is read from.

use super::error::ToolError;
use crate::text;
use vstd::prelude::*;

verus! {

/// A game as a player shares it.
#[derive(Debug)]
pub struct GameRef {
    pub player: i64,
    pub game: i64,
    pub sig: Option<String>,
}

/// The player that a link names: the number behind `/players/`, up to a hyphen.
pub open spec fn linked_player(url: Seq<char>) -> Option<int> {
    match text::second_piece(url, "/players/"@) {
        Some(rest) => text::integer(text::before(rest, "-"@)),
        None => None,
    }
}

/// The game that a link names: the number behind `/games/`, up to a question mark or a slash.
pub open spec fn linked_game(url: Seq<char>) -> Option<int> {
    match text::second_piece(url, "/games/"@) {
        Some(rest) => text::integer(text::before(text::before(rest, "?"@), "/"@)),
        None => None,
    }
}

/// The signature that a link carries: what stands behind `sig=`, up to an ampersand, if that is
/// anything.
pub open spec fn linked_sig(url: Seq<char>) -> Option<Seq<char>> {
    match text::second_piece(url, "sig="@) {
        Some(rest) => if text::before(rest, "&"@).len() > 0 {
            Some(text::before(rest, "&"@))
        } else {
            None
        },
        None => None,
    }
}

/// The game that `url` names.
pub fn parse_link(url: &str) -> (r: Option<GameRef>)
    ensures
        r is Some <==> linked_player(url@) is Some && linked_game(url@) is Some,
        r matches Some(g) ==> {
            &&& linked_player(url@) == Some(g.player as int)
            &&& linked_game(url@) == Some(g.game as int)
            &&& text::opt(g.sig) == linked_sig(url@)
        },
{
    let player = match text::between(url, "/players/") {
        Some(rest) => text::parse_integer(text::until(rest.as_str(), "-").as_str()),
        None => None,
    };
    let game = match text::between(url, "/games/") {
        Some(rest) => {
            let head = text::until(rest.as_str(), "?");
            text::parse_integer(text::until(head.as_str(), "/").as_str())
        },
        None => None,
    };
    let sig = match text::between(url, "sig=") {
        Some(rest) => {
            let s = text::until(rest.as_str(), "&");
            if s.as_str().is_empty() {
                None
            } else {
                Some(s)
            }
        },
        None => None,
    };
    match (player, game) {
        (Some(player), Some(game)) => Some(GameRef { player, game, sig }),
        _ => None,
    }
}

/// Which page a full report is read from.
#[derive(Debug)]
pub enum FullGamePlan {
    /// The game's own entry, since there is no signature.
    Entry { game: i64, path: String },
    /// The signed summary, which is not below the API's root.
    Summary { game: i64, path: String },
}

/// The path of a game's entry.
pub open spec fn entry_path(game: int) -> Seq<char> {
    "/games/"@ + text::signed(game)
}

/// The path of a game's signed summary.
pub open spec fn summary_path(player: int, game: int, sig: Seq<char>) -> Seq<char> {
    "/players/"@ + text::signed(player) + "-/games/"@ + text::signed(game)
        + "/summary?camelize=true&sig="@ + sig
}

/// The path of a game's entry.
pub fn game_path(game: i64) -> (r: String)
    ensures
        r@ == entry_path(game as int),
{
    text::cat2("/games/", text::signed_text(game as i128).as_str())
}

/// The player, the game and the signature that a call names: by its link, if it has one, or by
/// the two numbers.
pub open spec fn named_game(
    url: Option<Seq<char>>,
    player: Option<i64>,
    game: Option<i64>,
    sig: Option<Seq<char>>,
) -> Option<(int, int, Option<Seq<char>>)> {
    match url {
        Some(u) => match (linked_player(u), linked_game(u)) {
            (Some(p), Some(g)) => Some((p, g, linked_sig(u))),
            _ => None,
        },
        None => match (player, game) {
            (Some(p), Some(g)) => Some((p as int, g as int, sig)),
            _ => None,
        },
    }
}

/// Which page a full report is read from: the signed summary where there is a signature, the
/// game's entry where there is none.
pub fn plan_full_game(
    share_url: Option<&str>,
    profile_id: Option<i64>,
    game_id: Option<i64>,
    sig: Option<&str>,
) -> (r: Result<FullGamePlan, ToolError>)
    ensures
        match named_game(text::opt_str(share_url), profile_id, game_id, text::opt_str(sig)) {
            Some((p, g, Some(s))) => r matches Ok(FullGamePlan::Summary { game, path }) && game == g
                && path@ == summary_path(p, g, s),
            Some((p, g, None)) => r matches Ok(FullGamePlan::Entry { game, path }) && game == g
                && path@ == entry_path(g),
            None => if share_url is Some {
                r matches Err(ToolError::BadShareLink)
            } else {
                r matches Err(ToolError::NoGameNamed)
            },
        },
{
    let named = match share_url {
        Some(url) => match parse_link(url) {
            Some(g) => g,
            None => {
                return Err(ToolError::BadShareLink);
            },
        },
        None => match (profile_id, game_id) {
            (Some(player), Some(game)) => GameRef {
                player,
                game,
                sig: match sig {
                    Some(s) => Some(s.to_owned()),
                    None => None,
                },
            },
            _ => {
                return Err(ToolError::NoGameNamed);
            },
        },
    };
    match named.sig {
        Some(s) => {
            let head = text::cat4(
                "/players/",
                text::signed_text(named.player as i128).as_str(),
                "-/games/",
                text::signed_text(named.game as i128).as_str(),
            );
            let path = text::cat3(head.as_str(), "/summary?camelize=true&sig=", s.as_str());
            Ok(FullGamePlan::Summary { game: named.game, path })
        },
        None => Ok(FullGamePlan::Entry { game: named.game, path: game_path(named.game) }),
    }
}

/// A link names the player whose number stands behind `/players/` and before a hyphen.
pub proof fn lemma_link_names_player(url: Seq<char>, at: int, player: i64)
    requires
        text::first_at(url, "/players/"@) == Some(at),
        player >= 0,
        text::begins(url.skip(at + 9), text::decimal(player as nat) + "-"@),
    ensures
        linked_player(url) == Some(player as int),
{
    reveal_strlit("/players/");
    reveal_strlit("-");
    assert("/players/"@.len() == 9);
    let rest = url.skip(at + 9);
    let d = text::decimal(player as nat);
    let n = d.len() as int;
    text::lemma_decimal_reads_back(player as nat);
    text::lemma_signed_reads_back(player);
    assert(rest.subrange(0, n + 1) == d + "-"@);
    assert forall|i: int| 0 <= i < n implies #[trigger] rest[i] == d[i] by {
        assert(rest.subrange(0, n + 1)[i] == rest[i]);
    }
    assert(rest.subrange(0, n + 1)[n] == rest[n]);
    assert(rest[n] == '-');
    assert forall|i: int| 0 <= i < n + 1 implies #[trigger] rest[i] != '/' by {
        if i < n {
            assert(text::is_digit(d[i]));
        }
    }
    text::lemma_before(rest, "/players/"@, n + 1);
    let cut = text::before(rest, "/players/"@);
    assert(cut.take(n + 1)[n] == rest.take(n + 1)[n]);
    assert forall|i: int| 0 <= i < n implies #[trigger] cut[i] != '-' by {
        assert(cut[i] == rest[i]);
        assert(text::is_digit(d[i]));
    }
    assert(cut.subrange(n, n + 1) =~= "-"@);
    assert(text::occurs_at(cut, "-"@, n));
    text::lemma_before(cut, "-"@, n);
    assert(cut.take(n) =~= d);
}

/// A link names the game whose number stands behind `/games/` and before a question mark, a slash or
/// the end.
pub proof fn lemma_link_names_game(url: Seq<char>, at: int, game: i64)
    requires
        text::first_at(url, "/games/"@) == Some(at),
        game >= 0,
        text::begins(url.skip(at + 7), text::decimal(game as nat)),
        ({
            let end = at + 7 + text::decimal(game as nat).len();
            end == url.len() || url[end] == '?' || url[end] == '/'
        }),
    ensures
        linked_game(url) == Some(game as int),
{
    reveal_strlit("/games/");
    reveal_strlit("?");
    reveal_strlit("/");
    text::lemma_first_at(url, "/games/"@);
    assert("/games/"@.len() == 7);
    let rest = url.skip(at + 7);
    let d = text::decimal(game as nat);
    let n = d.len() as int;
    text::lemma_decimal_reads_back(game as nat);
    text::lemma_signed_reads_back(game);
    assert forall|i: int| 0 <= i < n implies #[trigger] rest[i] == d[i] by {
        assert(rest.subrange(0, n)[i] == rest[i]);
    }
    assert forall|i: int| 0 <= i < n implies #[trigger] rest[i] != '/' && rest[i] != '?' by {
        assert(text::is_digit(d[i]));
    }
    text::lemma_before(rest, "/games/"@, n);
    let first = text::before(rest, "/games/"@);
    assert forall|i: int| 0 <= i < n implies #[trigger] first[i] == rest[i] by {
        assert(first.take(n)[i] == rest.take(n)[i]);
    }
    text::lemma_before(first, "?"@, n);
    let second = text::before(first, "?"@);
    assert forall|i: int| 0 <= i < n implies #[trigger] second[i] == rest[i] by {
        assert(second.take(n)[i] == first.take(n)[i]);
    }
    if first.len() > n && first[n] == '?' {
        assert(first.subrange(n, n + 1) =~= "?"@);
        assert(text::occurs_at(first, "?"@, n));
        assert(second.len() == n);
    }
    text::lemma_before(second, "/"@, n);
    let third = text::before(second, "/"@);
    if second.len() > n {
        assert(second[n] == first[n]) by {
            assert(second == first.take(second.len() as int));
        }
        assert(first[n] == rest[n]) by {
            assert(first == rest.take(first.len() as int));
        }
        assert(rest[n] == url[at + 7 + n]);
        assert(second.subrange(n, n + 1) =~= "/"@);
        assert(text::occurs_at(second, "/"@, n));
    }
    assert(third.len() == n);
    assert(third =~= d);
}

/// A link carries the signature that stands behind `sig=`, up to an ampersand or the end.
pub proof fn lemma_link_carries_sig(url: Seq<char>, at: int, sig: Seq<char>)
    requires
        text::first_at(url, "sig="@) == Some(at),
        sig.len() > 0,
        !sig.contains('&'),
        text::begins(url.skip(at + 4), sig),
        !text::mentions(url.skip(at + 4), "sig="@),
        at + 4 + sig.len() == url.len() || url[at + 4 + sig.len()] == '&',
    ensures
        linked_sig(url) == Some(sig),
{
    reveal_strlit("sig=");
    reveal_strlit("&");
    text::lemma_first_at(url, "sig="@);
    assert("sig="@.len() == 4);
    let rest = url.skip(at + 4);
    let n = sig.len() as int;
    text::lemma_before(rest, "sig="@, 0);
    assert forall|i: int| 0 <= i < n implies #[trigger] rest[i] == sig[i] by {
        assert(rest.subrange(0, n)[i] == rest[i]);
    }
    assert forall|i: int| 0 <= i < n implies #[trigger] rest[i] != '&' by {
        assert(sig[i] != '&');
    }
    text::lemma_before(rest, "&"@, n);
    if rest.len() > n {
        assert(rest[n] == '&');
        assert(rest.subrange(n, n + 1) =~= "&"@);
        assert(text::occurs_at(rest, "&"@, n));
    }
    assert(text::before(rest, "&"@) =~= sig);
}

/// Where a link lacks a mark, it names nothing by it.
pub proof fn lemma_link_lacks(url: Seq<char>)
    ensures
        !text::mentions(url, "/players/"@) ==> linked_player(url) is None,
        !text::mentions(url, "/games/"@) ==> linked_game(url) is None,
        !text::mentions(url, "sig="@) ==> linked_sig(url) is None,
{
    text::lemma_first_at(url, "/players/"@);
    text::lemma_first_at(url, "/games/"@);
    text::lemma_first_at(url, "sig="@);
}

/// A link goes before the numbers that are given beside it; without one both numbers are needed, and
/// the signature is the one that is given.
pub proof fn lemma_named_game(
    url: Option<Seq<char>>,
    player: Option<i64>,
    game: Option<i64>,
    sig: Option<Seq<char>>,
)
    ensures
        url is Some ==> named_game(url, player, game, sig) == named_game(url, None, None, None),
        url is None && player is Some && game is Some ==> named_game(url, player, game, sig)
            == Some((player->0 as int, game->0 as int, sig)),
        url is None && (player is None || game is None) ==> named_game(
            url,
            player,
            game,
            sig,
        ) is None,
        url matches Some(u) ==> (named_game(url, player, game, sig) is Some <==> linked_player(
            u,
        ) is Some && linked_game(u) is Some),
{
}

/// A full report is read from the signed summary exactly where there is a signature, and is refused
/// where no game is named.
pub proof fn lemma_plan(
    url: Option<&str>,
    player: Option<i64>,
    game: Option<i64>,
    sig: Option<&str>,
    r: Result<FullGamePlan, ToolError>,
)
    requires
        call_ensures(plan_full_game, (url, player, game, sig), r),
    ensures
        url is None && player is Some && game is Some ==> r is Ok,
        url is None && (player is None || game is None) ==> r matches Err(ToolError::NoGameNamed),
        url matches Some(u) ==> (r is Ok <==> linked_player(u@) is Some && linked_game(u@) is Some),
        url is Some && r is Err ==> r matches Err(ToolError::BadShareLink),
        url is None && r is Ok ==> (r->Ok_0 is Summary <==> sig is Some),
        url matches Some(u) ==> (r is Ok ==> (r->Ok_0 is Summary <==> linked_sig(u@) is Some)),
        r matches Ok(FullGamePlan::Entry { game: g, path }) ==> path@ == "/games/"@ + text::signed(
            g as int,
        ),
        r matches Ok(FullGamePlan::Summary { game: g, path }) ==> text::mentions(
            path@,
            "-/games/"@ + text::signed(g as int) + "/summary?"@,
        ),
        r matches Ok(FullGamePlan::Summary { game: g, path }) ==> (url is None ==> text::finishes(
            path@,
            "sig="@ + sig->0@,
        )),
{
    match r {
        Ok(FullGamePlan::Summary { game: g, path }) => {
            let named = named_game(text::opt_str(url), player, game, text::opt_str(sig))->0;
            let (p, n, s) = named;
            let s = s->0;
            reveal_strlit("/summary?camelize=true&sig=");
            reveal_strlit("/summary?");
            reveal_strlit("sig=");
            let a = "/players/"@ + text::signed(p);
            let b = "-/games/"@ + text::signed(n) + "/summary?"@;
            let c = "camelize=true&"@;
            let d = "sig="@ + s;
            reveal_strlit("camelize=true&");
            assert("/summary?camelize=true&sig="@ =~= "/summary?"@ + "camelize=true&"@ + "sig="@);
            assert(path@ =~= a + b + (c + d));
            text::lemma_mentions_middle(a, b, c + d);
            let at = path@.len() - d.len();
            assert(path@.subrange(at, at + d.len()) =~= d);
        },
        _ => {},
    }
}

/// A link that is read names the player and the game that it names.
pub proof fn lemma_parse_link(url: &str, r: Option<GameRef>)
    requires
        call_ensures(parse_link, (url,), r),
    ensures
        r is None <==> linked_player(url@) is None || linked_game(url@) is None,
        r matches Some(g) ==> linked_player(url@) == Some(g.player as int) && linked_game(url@)
            == Some(g.game as int),
        r matches Some(g) ==> (g.sig matches Some(s) ==> s@.len() > 0),
{
}

}
