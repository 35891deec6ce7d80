//! Telling the statistics that were gathered earlier, and when they are gathered anew.

use super::battle;
use super::error::ToolError;
use super::knowledge::{self, KnowledgeFile};
use super::stats;
use crate::json::{self, Doc, Json};
use crate::report::{self, Part, Report};
use crate::tally::{self, Count};
use crate::text;
use vstd::prelude::*;

verus! {

/// The parts on a row, which is told as `label`.
pub open spec fn row_parts(label: Seq<char>, row: Doc) -> Seq<Part> {
    seq![
        Part::Text(label + ": "@),
        report::rate(knowledge::row_wins(row), knowledge::row_games(row), 1),
        Part::Text(knowledge::wins_in_games(row) + "\n"@),
    ]
}

fn tell_row(label: &str, row: &Json) -> (r: Report)
    ensures
        r@ == row_parts(label@, row@),
{
    let wins: i64 = row.integer_or("wins", 0);
    let games: i64 = row.integer_or("games", 0);
    let mut out = Report::new();
    out.text(text::cat2(label, ": ").as_str());
    out.rate(wins as i128, games as i128, 1);
    let counts = text::cat5(
        "% (",
        text::signed_text(wins as i128).as_str(),
        "/",
        text::signed_text(games as i128).as_str(),
        ")",
    );
    out.text(text::cat2(counts.as_str(), "\n").as_str());
    assert(out@ =~= row_parts(label@, row@));
    out
}

/// The parts on the first `n` rows, each told by its member `key`.
pub open spec fn rows_told(rows: Seq<Doc>, key: Seq<char>, n: nat) -> Seq<Part>
    decreases n,
{
    if n == 0 {
        Seq::empty()
    } else {
        rows_told(rows, key, (n - 1) as nat) + row_parts(
            "- "@ + rows[n - 1].text_or(key, "?"@),
            rows[n - 1],
        )
    }
}

fn tell_rows(rows: &Vec<Json>, key: &str, n: usize) -> (r: Report)
    requires
        n <= rows@.len(),
    ensures
        r@ == rows_told(json::docs(rows@), key@, n as nat),
{
    let mut out = Report::new();
    let mut i: usize = 0;
    while i < n
        invariant
            i <= n <= rows@.len(),
            out@ == rows_told(json::docs(rows@), key@, i as nat),
        decreases n - i,
    {
        assert(json::docs(rows@)[i as int] == rows@[i as int]@);
        let label = text::cat2("- ", rows[i].text_or(key, "?"));
        out.extend(tell_row(label.as_str(), &rows[i]));
        i = i + 1;
    }
    out
}

/// Whether a civilization took part in an encounter.
pub open spec fn takes_part(key: Seq<char>, civ: Seq<char>) -> bool {
    text::begins(key, civ + "_"@) || text::finishes(key, "_"@ + civ)
}

/// The parts on the encounters of a civilization, among the first `n`.
pub open spec fn encounters_told(rows: Seq<Doc>, civ: Seq<char>, n: nat) -> Seq<Part>
    decreases n,
{
    if n == 0 {
        Seq::empty()
    } else {
        let before = encounters_told(rows, civ, (n - 1) as nat);
        let key = rows[n - 1].text_or("matchup"@, ""@);
        if takes_part(key, civ) {
            before + row_parts("- "@ + key, rows[n - 1])
        } else {
            before
        }
    }
}

fn tell_encounters(rows: &Vec<Json>, civ: &str) -> (r: Report)
    ensures
        r@ == encounters_told(json::docs(rows@), civ@, rows@.len()),
{
    let ahead = text::cat2(civ, "_");
    let behind = text::cat2("_", civ);
    let mut out = Report::new();
    let mut i: usize = 0;
    while i < rows.len()
        invariant
            i <= rows@.len(),
            ahead@ == civ@ + "_"@,
            behind@ == "_"@ + civ@,
            out@ == encounters_told(json::docs(rows@), civ@, i as nat),
        decreases rows@.len() - i,
    {
        assert(json::docs(rows@)[i as int] == rows@[i as int]@);
        let key = rows[i].text_or("matchup", "");
        if text::starts_with(key, ahead.as_str()) || text::ends_with(key, behind.as_str()) {
            out.extend(tell_row(text::cat2("- ", key).as_str(), &rows[i]));
        }
        i = i + 1;
    }
    out
}

/// How many encounters are told where no civilization is asked for.
pub const MATCHUPS_TOLD: usize = 30;

/// What the statistics say of one civilization.
pub open spec fn civ_meta(kb: Doc, civ: Seq<char>) -> Seq<Part> {
    match knowledge::civ_row(kb.array_or_none("civilizations"@), civ, 0) {
        Some(row) => {
            let ms = kb.array_or_none("matchups"@);
            row_parts(civ, row) + encounters_told(ms, civ, ms.len())
        },
        None => seq![Part::Text("知识库里没有 "@ + civ + " 的记录\n"@)],
    }
}

/// The rows under their heading; nothing where there are none to tell.
pub open spec fn rows_section(
    heading: Seq<char>,
    rows: Option<Seq<Doc>>,
    key: Seq<char>,
    limit: Option<nat>,
) -> Seq<Part> {
    match rows {
        Some(v) => seq![Part::Text(heading)] + rows_told(
            v,
            key,
            match limit {
                Some(n) => battle::at_most(v.len(), n),
                None => v.len(),
            },
        ),
        None => Seq::empty(),
    }
}

/// What the statistics say of all civilizations.
pub open spec fn all_meta(kb: Doc) -> Seq<Part> {
    rows_section("文明胜率:\n"@, kb.array_at("civilizations"@), "civ"@, None) + rows_section(
        "对阵胜率:\n"@,
        kb.array_at("matchups"@),
        "matchup"@,
        Some(MATCHUPS_TOLD as nat),
    )
}

/// The report on the statistics.
pub open spec fn meta_report(kb: Doc, civ: Option<Seq<char>>) -> Seq<Part> {
    seq![
        Part::Text(
            "AOE4World 知识库(更新于 epoch "@ + text::decimal(
                stats::natural_or_zero(kb, "updated_at"@),
            ) + "):\n"@,
        ),
    ] + match civ {
        Some(c) => civ_meta(kb, c),
        None => all_meta(kb),
    }
}

fn tell_civ(kb: &Json, civ: &str) -> (r: Report)
    ensures
        r@ == civ_meta(kb@, civ@),
{
    let row = match kb.array_at("civilizations") {
        Some(rows) => knowledge::find_civ(rows, civ),
        None => None,
    };
    match row {
        Some(row) => {
            let mut out = tell_row(civ, row);
            let ghost first = out@;
            match kb.array_at("matchups") {
                Some(ms) => {
                    out.extend(tell_encounters(ms, civ));
                },
                None => {
                    assert(first + encounters_told(Seq::empty(), civ@, 0) =~= first);
                },
            }
            out
        },
        None => {
            let mut out = Report::new();
            out.text(text::cat3("知识库里没有 ", civ, " 的记录\n").as_str());
            out
        },
    }
}

fn tell_all(kb: &Json) -> (r: Report)
    ensures
        r@ == all_meta(kb@),
{
    let mut out = Report::new();
    match kb.array_at("civilizations") {
        Some(civs) => {
            out.text("文明胜率:\n");
            out.extend(tell_rows(civs, "civ", civs.len()));
        },
        None => {},
    }
    let ghost first = out@;
    match kb.array_at("matchups") {
        Some(ms) => {
            let n: usize = if ms.len() < MATCHUPS_TOLD {
                ms.len()
            } else {
                MATCHUPS_TOLD
            };
            let mut section = Report::new();
            section.text("对阵胜率:\n");
            section.extend(tell_rows(ms, "matchup", n));
            out.extend(section);
        },
        None => {
            assert(first + Seq::<Part>::empty() =~= first);
        },
    }
    out
}

/// The report on the statistics that were gathered earlier: on one civilization, or on all.
pub fn get_meta(kb: &KnowledgeFile, civ: Option<&str>) -> (r: Result<Report, ToolError>)
    ensures
        match *kb {
            KnowledgeFile::Missing => r matches Err(ToolError::NoKnowledge),
            KnowledgeFile::Damaged(why) => r matches Err(ToolError::DamagedKnowledge(w)) && w@
                == why@,
            KnowledgeFile::Loaded(v) => r matches Ok(t) && t@ == meta_report(
                v@,
                text::opt_str(civ),
            ),
        },
{
    let v = match kb {
        KnowledgeFile::Missing => {
            return Err(ToolError::NoKnowledge);
        },
        KnowledgeFile::Damaged(why) => {
            return Err(ToolError::DamagedKnowledge(why.clone()));
        },
        KnowledgeFile::Loaded(v) => v,
    };
    let updated: u64 = match v.natural_at("updated_at") {
        Some(n) => n,
        None => 0,
    };
    let mut out = Report::new();
    out.text(
        text::cat3(
            "AOE4World 知识库(更新于 epoch ",
            text::decimal_text(updated as u128).as_str(),
            "):\n",
        ).as_str(),
    );
    match civ {
        Some(c) => {
            out.extend(tell_civ(v, c));
        },
        None => {
            out.extend(tell_all(v));
        },
    }
    Ok(out)
}

/// How long statistics are told again instead of being gathered anew, in seconds.
pub const ANALYZE_FRESH_SECS: u64 = 1800;

/// Whether the statistics are told again: they are there, they are young, and nobody insists.
pub fn reuse(force: bool, age: Option<u64>) -> (r: bool)
    ensures
        r == (!force && (age matches Some(a) && a < ANALYZE_FRESH_SECS)),
{
    match age {
        Some(a) => !force && a < ANALYZE_FRESH_SECS,
        None => false,
    }
}

/// What stands above statistics that are told again after `minutes`.
pub open spec fn reuse_note(minutes: Seq<char>) -> Seq<char> {
    "知识库 "@ + minutes + " 分钟前刚分析过(窗口 "@ + text::decimal(
        (ANALYZE_FRESH_SECS / 60) as nat,
    ) + " 分钟),直接复用本地结果;确需重抓请在 force=true 后重试。\n\n"@
}

/// Statistics that are told again. `minutes` is their age.
pub fn reuse_report(minutes: &str, kb: &KnowledgeFile) -> (r: Report)
    ensures
        r@ == seq![Part::Text(reuse_note(minutes@))] + match *kb {
            KnowledgeFile::Missing => seq![
                Part::Text("读取知识库失败:"@ + ToolError::NoKnowledge.said()),
            ],
            KnowledgeFile::Damaged(why) => seq![Part::Text("读取知识库失败:"@ + why@)],
            KnowledgeFile::Loaded(v) => meta_report(v@, None),
        },
{
    let mut out = Report::new();
    out.text(
        text::cat5(
            "知识库 ",
            minutes,
            " 分钟前刚分析过(窗口 ",
            text::decimal_text((ANALYZE_FRESH_SECS / 60) as u128).as_str(),
            " 分钟),直接复用本地结果;确需重抓请在 force=true 后重试。\n\n",
        ).as_str(),
    );
    match get_meta(kb, None) {
        Ok(t) => {
            out.extend(t);
        },
        Err(e) => {
            let mut tail = Report::new();
            tail.text(text::cat2("读取知识库失败:", e.message().as_str()).as_str());
            out.extend(tail);
        },
    }
    out
}

/// What comes of gathering statistics: those of the site if it has any, else those of its
/// players' games, with a note; where neither can be had, both reasons.
pub fn gathering_result(
    aggregate: Result<Report, String>,
    crawl: Result<Report, String>,
) -> (r: Result<Report, String>)
    ensures
        match (aggregate, crawl) {
            (Ok(t), _) => r == Ok::<Report, String>(t),
            (Err(why), Ok(t)) => r matches Ok(o) && o@ == seq![
                Part::Text("官方聚合端点不可用("@ + why@ + "),已降级为天梯玩家抓取。\n"@),
            ] + t@,
            (Err(why), Err(also)) => r matches Err(e) && e@ == "官方聚合端点失败:"@ + why@
                + ";天梯抓取降级也失败:"@ + also@,
        },
{
    match aggregate {
        Ok(t) => Ok(t),
        Err(why) => match crawl {
            Ok(t) => {
                let mut out = Report::new();
                out.text(
                    text::cat3(
                        "官方聚合端点不可用(",
                        why.as_str(),
                        "),已降级为天梯玩家抓取。\n",
                    ).as_str(),
                );
                out.extend(t);
                Ok(out)
            },
            Err(also) => Err(
                text::cat4(
                    "官方聚合端点失败:",
                    why.as_str(),
                    ";天梯抓取降级也失败:",
                    also.as_str(),
                ),
            ),
        },
    }
}

/// The line on one board after an update.
pub open spec fn board_line(board: Seq<char>, failure: Option<Seq<char>>) -> Seq<char> {
    match failure {
        None => "- "@ + board + " 官方聚合胜率已刷新\n"@,
        Some(why) => "- "@ + board + " 刷新失败:"@ + why + "\n"@,
    }
}

fn board_text(board: &str, failure: Option<&str>) -> (r: String)
    ensures
        r@ == board_line(board@, text::opt_str(failure)),
{
    match failure {
        None => text::cat3("- ", board, " 官方聚合胜率已刷新\n"),
        Some(why) => text::cat5("- ", board, " 刷新失败:", why, "\n"),
    }
}

/// The first board that an update gathers.
pub const FIRST_BOARD: &'static str = "rm_solo";

/// The second board that an update gathers.
pub const SECOND_BOARD: &'static str = "qm_1v1";

/// The report on an update of the two boards: why each failed, if it did, and how many minutes
/// ago statistics were last kept.
pub fn update_knowledge(first: Option<&str>, second: Option<&str>, minutes: Option<&str>) -> (r:
    String)
    ensures
        r@ == "知识库更新:\n"@ + board_line(FIRST_BOARD@, text::opt_str(first)) + board_line(
            SECOND_BOARD@,
            text::opt_str(second),
        ) + ("- 策展知识(文明/兵种/克制/中文名):版本 "@ + knowledge::KB_VERSION@
            + ",随程序更新\n"@) + ("- 动态胜率数据:"@ + match minutes {
            Some(m) => m@ + " 分钟前"@,
            None => "从未"@,
        } + "\n"@),
{
    let age = match minutes {
        Some(m) => text::cat2(m, " 分钟前"),
        None => "从未".to_owned(),
    };
    let mut out = text::cat3(
        "知识库更新:\n",
        board_text(FIRST_BOARD, first).as_str(),
        board_text(SECOND_BOARD, second).as_str(),
    );
    out.append(
        text::cat3(
            "- 策展知识(文明/兵种/克制/中文名):版本 ",
            knowledge::KB_VERSION,
            ",随程序更新\n",
        ).as_str(),
    );
    out.append(text::cat3("- 动态胜率数据:", age.as_str(), "\n").as_str());
    out
}

/// The names of the members of a count differ from each other.
proof fn lemma_member_names()
    ensures
        "civ"@ != "games"@,
        "civ"@ != "wins"@,
        "games"@ != "wins"@,
{
    reveal_strlit("civ");
    reveal_strlit("games");
    reveal_strlit("wins");
    assert("civ"@.len() != "games"@.len());
    assert("civ"@.len() != "wins"@.len());
    assert("games"@.len() != "wins"@.len());
}

proof fn lemma_count_row(c: Count)
    ensures
        stats::count_doc("civ"@, c).text_at("civ"@) == Some(c.name),
        c.games <= i64::MAX ==> knowledge::row_games(stats::count_doc("civ"@, c)) == c.games,
        c.wins <= i64::MAX ==> knowledge::row_wins(stats::count_doc("civ"@, c)) == c.wins,
{
    lemma_member_names();
    let ms = stats::count_doc("civ"@, c)->Object_0;
    assert(ms.len() == 3);
    assert(json::member_from(ms, "civ"@, 0) == Some(ms[0].1));
    assert(json::member_from(ms, "games"@, 0) == json::member_from(ms, "games"@, 1));
    assert(json::member_from(ms, "wins"@, 0) == json::member_from(ms, "wins"@, 1));
    assert(json::member_from(ms, "wins"@, 1) == json::member_from(ms, "wins"@, 2));
}

proof fn lemma_civ_row(civs: Seq<Count>, i: int, from: int)
    requires
        tally::distinct(civs),
        0 <= from <= i < civs.len(),
    ensures
        knowledge::civ_row(
            stats::counts_doc("civ"@, civs)->Array_0,
            civs[i].name,
            from,
        ) == Some(stats::count_doc("civ"@, civs[i])),
    decreases i - from,
{
    let rows = stats::counts_doc("civ"@, civs)->Array_0;
    lemma_count_row(civs[from]);
    assert(rows[from] == stats::count_doc("civ"@, civs[from]));
    if from < i {
        assert(civs[from].name != civs[i].name);
        lemma_civ_row(civs, i, from + 1);
    }
}

proof fn lemma_civilizations(
    now: u64,
    board: Seq<char>,
    source: Seq<char>,
    patch: Seq<char>,
    games: u64,
    civs: Seq<Count>,
    matchups: Seq<Count>,
)
    ensures
        stats::knowledge_doc(now, board, source, patch, games, civs, matchups).array_or_none(
            "civilizations"@,
        ) == stats::counts_doc("civ"@, civs)->Array_0,
{
    reveal_strlit("updated_at");
    reveal_strlit("board");
    reveal_strlit("source");
    reveal_strlit("patch");
    reveal_strlit("games");
    reveal_strlit("civilizations");
    assert("updated_at"@.len() == 10);
    assert("board"@.len() == 5);
    assert("source"@.len() == 6);
    assert("patch"@.len() == 5);
    assert("games"@.len() == 5);
    assert("civilizations"@.len() == 13);
    reveal_with_fuel(json::member_from, 7);
}

/// What is kept can be read back: in the knowledge that was gathered, the row of every
/// civilization that was counted has its games and its wins, as far as they fit the numbers that
/// are read.
pub proof fn lemma_kept_is_read(
    now: u64,
    board: Seq<char>,
    source: Seq<char>,
    patch: Seq<char>,
    games: u64,
    civs: Seq<Count>,
    matchups: Seq<Count>,
    i: int,
)
    requires
        tally::distinct(civs),
        0 <= i < civs.len(),
        civs[i].games <= i64::MAX,
        civs[i].wins <= i64::MAX,
    ensures
        ({
            let kept = stats::knowledge_doc(now, board, source, patch, games, civs, matchups);
            let row = knowledge::civ_row(
                kept.array_or_none("civilizations"@),
                civs[i].name,
                0,
            );
            &&& row is Some
            &&& knowledge::row_games(row->0) == civs[i].games
            &&& knowledge::row_wins(row->0) == civs[i].wins
        }),
{
    lemma_civilizations(now, board, source, patch, games, civs, matchups);
    lemma_civ_row(civs, i, 0);
    lemma_count_row(civs[i]);
}

/// An encounter that was gathered is told of both its civilizations.
pub proof fn lemma_both_take_part(a: Seq<char>, b: Seq<char>)
    ensures
        takes_part(stats::matchup(a, b), a),
        takes_part(stats::matchup(a, b), b),
{
    reveal_strlit("_vs_");
    reveal_strlit("_");
    let key = stats::matchup(a, b);
    assert(key.subrange(0, (a + "_"@).len() as int) =~= a + "_"@);
    let from = key.len() - ("_"@ + b).len();
    assert(key.subrange(from, from + ("_"@ + b).len()) =~= "_"@ + b);
}

/// What is told of a civilization's encounters is that of the rows in which it takes part, in their
/// order: a row in which it does not adds nothing.
pub proof fn lemma_encounters_told(rows: Seq<Doc>, civ: Seq<char>, n: nat)
    requires
        0 < n <= rows.len(),
    ensures
        ({
            let key = rows[n - 1].text_or("matchup"@, ""@);
            let before = encounters_told(rows, civ, (n - 1) as nat);
            let now = encounters_told(rows, civ, n);
            &&& !text::begins(key, civ + "_"@) && !text::finishes(key, "_"@ + civ) ==> now == before
            &&& text::begins(key, civ + "_"@) || text::finishes(key, "_"@ + civ) ==> {
                &&& now.len() == before.len() + 3
                &&& now.take(before.len() as int) == before
                &&& now[before.len() as int] == Part::Text("- "@ + key + ": "@)
                &&& now[before.len() as int + 1] == report::rate(
                    rows[n - 1].integer_or("wins"@, 0) as int,
                    rows[n - 1].integer_or("games"@, 0) as int,
                    1,
                )
            }
        }),
{
    let key = rows[n - 1].text_or("matchup"@, ""@);
    let before = encounters_told(rows, civ, (n - 1) as nat);
    if takes_part(key, civ) {
        assert(encounters_told(rows, civ, n).take(before.len() as int) =~= before);
    }
}

/// What was gathered is told again only within half an hour, and never where it is to be gathered
/// anew.
pub proof fn lemma_reuse(force: bool, age: Option<u64>, r: bool)
    requires
        call_ensures(reuse, (force, age), r),
    ensures
        force ==> !r,
        age matches Some(a) ==> (r <==> !force && a < 1800),
        age is None ==> !r,
{
}

/// The site's own statistics are told where they can be had; otherwise the ones from the ladder are,
/// behind a note why; and where neither can be, both reasons are.
pub proof fn lemma_gathering(
    aggregate: Result<Report, String>,
    crawl: Result<Report, String>,
    r: Result<Report, String>,
)
    requires
        call_ensures(gathering_result, (aggregate, crawl), r),
    ensures
        r is Err <==> aggregate is Err && crawl is Err,
        aggregate is Ok ==> r == aggregate,
        aggregate matches Err(why) ==> (crawl matches Ok(t) ==> {
            &&& r matches Ok(o) && o@.skip(1) == t@ && (o@[0] matches Part::Text(note)
                && text::mentions(note, why@))
        }),
        aggregate matches Err(why) ==> (crawl matches Err(also) ==> (r matches Err(e)
            && text::mentions(e@, why@) && text::finishes(e@, also@))),
{
    match (aggregate, crawl) {
        (Err(why), Ok(t)) => {
            let o = r->Ok_0;
            assert(o@.skip(1) =~= t@);
            text::lemma_mentions_middle(
                "官方聚合端点不可用("@,
                why@,
                "),已降级为天梯玩家抓取。\n"@,
            );
        },
        (Err(why), Err(also)) => {
            let e = r->Err_0@;
            let head = "官方聚合端点失败:"@;
            let mid = ";天梯抓取降级也失败:"@;
            text::lemma_mentions_middle(head, why@, mid + also@);
            assert(head + why@ + (mid + also@) =~= e);
            let at = e.len() - also@.len();
            assert(e.subrange(at, at + also@.len()) =~= also@);
        },
        _ => {},
    }
}

/// Statistics can be told exactly where they are there and can be read.
pub proof fn lemma_get_meta(kb: &KnowledgeFile, civ: Option<&str>, r: Result<Report, ToolError>)
    requires
        call_ensures(get_meta, (kb, civ), r),
    ensures
        r is Ok <==> kb is Loaded,
        kb is Missing ==> r matches Err(ToolError::NoKnowledge),
        kb matches KnowledgeFile::Damaged(why) ==> (r matches Err(ToolError::DamagedKnowledge(w))
            && w@ == why@),
{
}

/// Statistics that are told again are told as they are, behind a note that names the half hour.
pub proof fn lemma_reuse_report(minutes: &str, kb: &KnowledgeFile, r: Report)
    requires
        call_ensures(reuse_report, (minutes, kb), r),
    ensures
        r@.len() > 0,
        r@[0] matches Part::Text(note) && text::mentions(note, "窗口 "@ + text::decimal(30))
            && text::mentions(note, minutes@),
        kb matches KnowledgeFile::Loaded(v) ==> r@.skip(1) == meta_report(v@, None),
{
    let note = reuse_note(minutes@);
    reveal_strlit(" 分钟前刚分析过(窗口 ");
    reveal_strlit(" 分钟前刚分析过(");
    reveal_strlit("窗口 ");
    assert(" 分钟前刚分析过(窗口 "@ =~= " 分钟前刚分析过("@ + "窗口 "@);
    let a = "知识库 "@ + minutes@ + " 分钟前刚分析过("@;
    let b = "窗口 "@ + text::decimal(30);
    let c = " 分钟),直接复用本地结果;确需重抓请在 force=true 后重试。\n\n"@;
    assert(note =~= a + b + c);
    text::lemma_mentions_middle(a, b, c);
    text::lemma_mentions_middle("知识库 "@, minutes@, " 分钟前刚分析过("@ + b + c);
    assert("知识库 "@ + minutes@ + (" 分钟前刚分析过("@ + b + c) =~= note);
    match kb {
        KnowledgeFile::Loaded(v) => {
            assert(r@.skip(1) =~= meta_report(v@, None));
        },
        _ => {},
    }
}

}
