//! The bundled knowledge of civilizations and units, and what the gathered statistics say.

use super::battle;
use super::error::ToolError;
use crate::json::{self, Doc, Json};
use crate::order;
use crate::report::{self, Part, Report};
use crate::text;
use vstd::prelude::*;

verus! {

/// The version of the bundled knowledge.
pub const KB_VERSION: &'static str = "2026-09-05.1";

/// The bundled knowledge.
pub const KB_JSON: &'static str = r#"{
"civs": {
 "english": {"cn": "英格兰", "trait": "长弓手+网络化经济,农耕城镇中心,防御反击流"},
 "french": {"cn": "法兰西", "trait": "皇家骑士+重甲冲脸,贸易与采石强化,骑士流核心"},
 "holy_roman_empire": {"cn": "神圣罗马帝国", "trait": "预置强化步兵,宗教增益采金,迈因维克宫快速上城"},
 "chinese": {"cn": "中国", "trait": "朝代加成+火药,官员收税,建造加速,运营流"},
 "zhu_xi_legacy": {"cn": "朱熹遗产", "trait": "朱熹遗惠变体,帝国卫队与火矛,机动火药流"},
 "delhi_sultanate": {"cn": "德里苏丹国", "trait": "免费科技靠学者驻守,战象,宗教步兵"},
 "mongols": {"cn": "蒙古", "trait": "全游牧搬家,石资源翻倍,早期双矿暴兵,可汗号角"},
 "rus": {"cn": "罗斯", "trait": "狩猎赏金+射击军,木教堂金门,骑射与板甲骑士"},
 "abbasid_dynasty": {"cn": "阿拔斯王朝", "trait": "智慧宫黄金时代,骆驼减伤光环,步兵文明"},
 "ayyubids": {"cn": "阿尤布王朝", "trait": "阿拔斯变体,德里式科技雇佣,骆驼冲锋与突厥弓骑"},
 "ottomans": {"cn": "奥斯曼", "trait": "免费军事学校产兵,大教习加成,火炮与耶尼切里"},
 "malians": {"cn": "马里", "trait": "黄金矿牛群经济,步枪兵与多兵营暴兵,袭扰流"},
 "byzantines": {"cn": "拜占庭", "trait": "橄榄 oil 雇佣兵,瓦兰吉卫队与具装,水塔增益,全能变阵"},
 "japanese": {"cn": "日本", "trait": "旗帜要塞+驻扎建造加速,足轻与武士,防御反击流"},
 "order_of_the_dragon": {"cn": "龙骑士团", "trait": "神圣罗马变体,兵贵精不贵多,双倍成本精英部队"},
 "knights_templar": {"cn": "圣殿骑士团", "trait": "法兰西变体,圣殿武士+修道院体系,据点防御流"},
 "house_of_lancaster": {"cn": "兰开斯特家族", "trait": "英格兰变体,契约城堡体系,长弓与贵族骑兵"},
 "sengoku_daimyo": {"cn": "战国大名", "trait": "日本变体,大名旗帜,足轻铁道众暴兵"},
 "macedonian_dynasty": {"cn": "马其顿王朝", "trait": "拜占庭变体,瓦兰吉具装强化, frozen 经济爆发"},
 "golden_horde": {"cn": "金帐汗国", "trait": "蒙古变体,突厥化部队,暴骑兵袭扰"},
 "jeanne_darc": {"cn": "圣女贞德", "trait": "英雄单位养成流,贞德亲率大军,法兰西变体"},
 "tughlaq_dynasty": {"cn": "图格鲁克王朝", "trait": "德里变体,攻城象与塔楼,步象体系"},
 "jin_dynasty": {"cn": "金朝", "trait": "中国变体,铁浮屠重骑与火器,工程器械强化"}
},
"units": {
 "villager": {"cn": "村民", "cls": "经济", "strong": [], "weak": "所有军事单位"},
 "scout": {"cn": "侦察兵", "cls": "骑兵", "strong": ["弓箭手"], "weak": ["长矛兵"]},
 "spearman": {"cn": "长矛兵", "cls": "近战步兵", "strong": ["骑兵"], "weak": ["弓箭手", "弩手"]},
 "man_at_arms": {"cn": "武装士兵", "cls": "重步兵", "strong": ["长矛兵", "骑兵(承受)", "弩手(承受)"], "weak": ["弓箭手", "弩手", "投石机"]},
 "archer": {"cn": "弓箭手", "cls": "远程步兵", "strong": ["长矛兵", "武装士兵", "轻甲单位"], "weak": ["骑马兵", "骑士", "投石机"]},
 "crossbowman": {"cn": "弩手", "cls": "远程步兵", "strong": ["重甲单位", "骑士", "具装骑兵"], "weak": ["骑马兵", "弓箭手对射", "投石机"]},
 "longbowman": {"cn": "长弓手", "cls": "远程步兵", "strong": ["长矛兵", "密集步兵"], "weak": ["骑兵", "投石机"]},
 "horseman": {"cn": "骑马兵", "cls": "轻骑兵", "strong": ["弓箭手", "弩手", "远程单位"], "weak": ["长矛兵", "武装士兵"]},
 "knight": {"cn": "骑士", "cls": "重骑兵", "strong": ["远程单位", "弓箭手", "攻城器"], "weak": ["长矛兵", "弩手", "骆驼"]},
 "royal_knight": {"cn": "皇家骑士", "cls": "重骑兵", "strong": ["远程单位", "步兵阵线冲锋"], "weak": ["长矛兵海", "弩手", "僧侣转化"]},
 "cataphract": {"cn": "具装骑兵", "cls": "重骑兵", "strong": ["远程集火承受", "步兵"], "weak": ["长矛兵", "弩手"]},
 "varangian_guard": {"cn": "瓦兰吉卫队", "cls": "精英步兵", "strong": ["步兵对拼", "建筑"], "weak": ["远程集火", "骑兵拉扯"]},
 "ghulam": {"cn": "古拉姆", "cls": "精英步兵", "strong": ["远程单位", "步兵"], "weak": ["长矛兵", "弩手"]},
 "templar_brother": {"cn": "圣殿武士", "cls": "精英步兵", "strong": ["步兵", "建筑"], "weak": ["远程集火", "骑兵拉扯"]},
 "camel_rider": {"cn": "骆驼骑兵", "cls": "轻骑兵", "strong": ["骑兵(减伤光环+反骑)"], "weak": ["长矛兵", "弓箭手"]},
 "camel_archer": {"cn": "骆驼弓骑兵", "cls": "骑射", "strong": ["步兵", "远程对射"], "weak": ["骑马兵", "长矛兵"]},
 "arbaletre": {"cn": "臂弩手", "cls": "远程步兵", "strong": ["重甲单位", "密集目标"], "weak": ["骑兵", "投石机"]},
 "longbowman_en": {"cn": "英格兰长弓手", "cls": "远程步兵", "strong": ["长矛兵"], "weak": ["骑兵"]},
 "streltsy": {"cn": "射击军", "cls": "远程步兵", "strong": ["步兵", "密集目标"], "weak": ["骑兵", "攻城器"]},
 "fire_lancer": {"cn": "火矛骑兵", "cls": "冲锋骑兵", "strong": ["远程单位", "攻城器", "建筑"], "weak": ["长矛兵"]},
 "musketeer": {"cn": "火枪手", "cls": "远程步兵", "strong": ["步兵", "重甲"], "weak": ["骑兵", "投石机"]},
 "springald": {"cn": "扭力弩", "cls": "攻城器", "strong": ["攻城器", "精英单位"], "weak": ["骑兵近身", "步兵"]},
 "mangonel": {"cn": "投石机", "cls": "攻城器", "strong": ["密集远程", "弓箭手群"], "weak": ["骑兵近身", "扭力弩"]},
 "ribauldequin": {"cn": "管风琴炮", "cls": "攻城器", "strong": ["密集步兵"], "weak": ["骑兵", "扭力弩"]},
 "bombard": {"cn": "火炮", "cls": "攻城器", "strong": ["建筑", "城墙", "密集单位"], "weak": ["骑兵近身", "扭力弩"]},
 "battering_ram": {"cn": "攻城槌", "cls": "攻城器", "strong": ["建筑", "城门"], "weak": ["火炮", "近战包围"]},
 "trebuchet": {"cn": "重型投石机", "cls": "攻城器", "strong": ["建筑", "地标"], "weak": ["骑兵近身", "扭力弩"]},
 "monk": {"cn": "僧侣", "cls": "宗教", "strong": ["转化Relic与单位"], "weak": ["所有输出单位"]}
},
"counter_rules": [
 "长矛系(长矛兵/弩手外的反骑轴)克制一切骑兵;骑兵克制远程与攻城器;远程克制步兵",
 "弩手/臂弩手对重甲(骑士/具装/瓦兰吉)有伤害加成,是对重骑兵的正解",
 "面对骑士海:长矛兵海+弩手混编;面对弓箭手海:骑马兵绕后+投石机清场",
 "攻城器互克:扭力弩克制投石机/火炮;近战单位贴脸即废攻城器",
 "骆驼对骑兵有光环减伤,是反骑副轴;战象/精英单位怕集火与僧侣转化"
]}"#;

/// The statistics that have been gathered, as far as they can be read.
#[derive(Debug)]
pub enum KnowledgeFile {
    /// There are none.
    Missing,
    /// They cannot be read, for this reason.
    Damaged(String),
    /// They are these.
    Loaded(Json),
}

/// `s` in lower case, by Unicode's rules.
pub uninterp spec fn unicode_lowercase(s: Seq<char>) -> Seq<char>;

/// Whether a text is ASCII.
pub open spec fn is_ascii(s: Seq<char>) -> bool {
    forall|i: int| 0 <= i < s.len() ==> (#[trigger] s[i]) <= '\u{7f}'
}

/// Whether lower case is, of the names of entries that are ASCII, what it is of their letters.
pub open spec fn names_lower_plainly(entries: Seq<(Seq<char>, Doc)>) -> bool {
    forall|i: int|
        0 <= i < entries.len() && is_ascii((#[trigger] entries[i]).1.text_or("cn"@, ""@))
            ==> unicode_lowercase(entries[i].1.text_or("cn"@, ""@)) == text::lowered(
            entries[i].1.text_or("cn"@, ""@),
        )
}

/// `str::to_lowercase` of the standard library: the text in lower case, by Unicode's rules. On
/// ASCII text that is the text with its letters in lower case.
#[verifier::external_body]
fn to_lowercase(s: &str) -> (r: String)
    ensures
        r@ == unicode_lowercase(s@),
        is_ascii(s@) ==> r@ == text::lowered(s@),
{
    s.to_lowercase()
}

/// Whether an entry answers a query. `q` is the query, trimmed and in lower case; `low` is the
/// entry's name in lower case.
pub open spec fn answers(
    id: Seq<char>,
    name: Seq<char>,
    low: Seq<char>,
    query: Seq<char>,
    q: Seq<char>,
) -> bool {
    q == id || q == low || text::mentions(id, q) || text::mentions(name, query)
}

/// Whether an entry answers a query.
pub fn entry_answers(id: &str, name: &str, low: &str, query: &str, q: &str) -> (r: bool)
    ensures
        r == answers(id@, name@, low@, query@, q@),
{
    text::same(q, id) || text::same(q, low) || text::contains(id, q) || text::contains(name, query)
}

/// The texts among the first `n` values.
pub open spec fn texts(v: Seq<Doc>, n: nat) -> Seq<Seq<char>>
    decreases n,
{
    if n == 0 {
        Seq::empty()
    } else {
        let before = texts(v, (n - 1) as nat);
        match v[n - 1].text() {
            Some(s) => before.push(s),
            None => before,
        }
    }
}

/// The texts among the values.
pub fn texts_of(v: &Vec<Json>) -> (r: Vec<String>)
    ensures
        text::views(r@) == texts(json::docs(v@), v@.len()),
{
    let mut out: Vec<String> = Vec::new();
    let mut i: usize = 0;
    assert(text::views(out@) =~= Seq::<Seq<char>>::empty());
    while i < v.len()
        invariant
            i <= v@.len(),
            text::views(out@) == texts(json::docs(v@), i as nat),
        decreases v@.len() - i,
    {
        match v[i].as_str() {
            Some(s) => {
                let t = s.to_owned();
                proof {
                    text::lemma_views_push(out@, t);
                }
                out.push(t);
            },
            None => {},
        }
        i = i + 1;
    }
    out
}

/// The row of a civilization, from `i` on.
pub open spec fn civ_row(rows: Seq<Doc>, civ: Seq<char>, i: int) -> Option<Doc>
    decreases rows.len() - i,
{
    if i < 0 || i >= rows.len() {
        None
    } else if rows[i].text_at("civ"@) == Some(civ) {
        Some(rows[i])
    } else {
        civ_row(rows, civ, i + 1)
    }
}

/// The row of a civilization.
pub fn find_civ<'a>(rows: &'a Vec<Json>, civ: &str) -> (r: Option<&'a Json>)
    ensures
        match r {
            Some(v) => civ_row(json::docs(rows@), civ@, 0) == Some(v@),
            None => civ_row(json::docs(rows@), civ@, 0) is None,
        },
{
    let mut i: usize = 0;
    while i < rows.len()
        invariant
            i <= rows@.len(),
            civ_row(json::docs(rows@), civ@, 0) == civ_row(json::docs(rows@), civ@, i as int),
        decreases rows@.len() - i,
    {
        assert(json::docs(rows@)[i as int] == rows@[i as int]@);
        match rows[i].text_at("civ") {
            Some(c) => {
                if text::same(c, civ) {
                    return Some(&rows[i]);
                }
            },
            None => {},
        }
        i = i + 1;
    }
    None
}

/// The games of a row.
pub open spec fn row_games(row: Doc) -> int {
    row.integer_or("games"@, 0) as int
}

/// The wins of a row.
pub open spec fn row_wins(row: Doc) -> int {
    row.integer_or("wins"@, 0) as int
}

/// A row's wins and games, in brackets.
pub open spec fn wins_in_games(row: Doc) -> Seq<char> {
    "% ("@ + text::signed(row_wins(row)) + "/"@ + text::signed(row_games(row)) + ")"@
}

fn wins_in_games_text(row: &Json) -> (r: String)
    ensures
        r@ == wins_in_games(row@),
{
    text::cat5(
        "% (",
        text::signed_text(row.integer_or("wins", 0) as i128).as_str(),
        "/",
        text::signed_text(row.integer_or("games", 0) as i128).as_str(),
        ")",
    )
}

/// How a civilization fares in the gathered statistics.
pub open spec fn civ_rate(knowledge: KnowledgeFile, civ: Seq<char>) -> Seq<Part> {
    match knowledge {
        KnowledgeFile::Missing => seq![Part::Text("  版本胜率:先跑 analyze_win_rates"@)],
        KnowledgeFile::Damaged(_) => seq![Part::Text("  版本胜率:知识库损坏"@)],
        KnowledgeFile::Loaded(v) => match civ_row(v@.array_or_none("civilizations"@), civ, 0) {
            Some(row) => seq![
                Part::Text("  版本胜率:"@),
                report::rate(row_wins(row), row_games(row), 1),
                Part::Text(
                    wins_in_games(row) + " [patch "@ + v@.text_or("patch"@, "-"@) + "]"@,
                ),
            ],
            None => seq![Part::Text("  版本胜率:该文明不在当前统计中"@)],
        },
    }
}

/// How a civilization fares in the gathered statistics.
pub fn meta_winrate_line(knowledge: &KnowledgeFile, civ: &str) -> (r: Report)
    ensures
        r@ == civ_rate(*knowledge, civ@),
{
    let mut out = Report::new();
    match knowledge {
        KnowledgeFile::Missing => {
            out.text("  版本胜率:先跑 analyze_win_rates");
        },
        KnowledgeFile::Damaged(_) => {
            out.text("  版本胜率:知识库损坏");
        },
        KnowledgeFile::Loaded(v) => {
            let row = match v.array_at("civilizations") {
                Some(rows) => find_civ(rows, civ),
                None => None,
            };
            match row {
                Some(row) => {
                    out.text("  版本胜率:");
                    out.rate(
                        row.integer_or("wins", 0) as i128,
                        row.integer_or("games", 0) as i128,
                        1,
                    );
                    out.text(
                        text::cat4(
                            wins_in_games_text(row).as_str(),
                            " [patch ",
                            v.text_or("patch", "-"),
                            "]",
                        ).as_str(),
                    );
                },
                None => {
                    out.text("  版本胜率:该文明不在当前统计中");
                },
            }
        },
    }
    out
}

/// The parts on a civilization.
pub open spec fn civ_parts(id: Seq<char>, v: Doc, knowledge: KnowledgeFile) -> Seq<Part> {
    seq![
        Part::Text(
            "【文明】"@ + id + " / "@ + v.text_or("cn"@, ""@) + "\n  特性:"@ + v.text_or(
                "trait"@,
                ""@,
            ) + "\n"@,
        ),
    ] + civ_rate(knowledge, id) + seq![Part::Text("\n"@)]
}

/// The parts on the civilizations that are hit, among the first `n`.
pub open spec fn civs_told(
    civs: Seq<(Seq<char>, Doc)>,
    hits: Seq<bool>,
    knowledge: KnowledgeFile,
    n: nat,
) -> Seq<Part>
    decreases n,
{
    if n == 0 {
        Seq::empty()
    } else {
        let before = civs_told(civs, hits, knowledge, (n - 1) as nat);
        if hits[n - 1] {
            before + civ_parts(civs[n - 1].0, civs[n - 1].1, knowledge)
        } else {
            before
        }
    }
}

/// The texts of the array `key`, joined.
pub open spec fn listed(v: Doc, key: Seq<char>) -> Seq<char> {
    let a = v.array_or_none(key);
    text::joined(texts(a, a.len()), "、"@)
}

/// What a unit is weak against: a list, or one text.
pub open spec fn weakness(v: Doc) -> Seq<char> {
    match v.array_at("weak"@) {
        Some(_) => listed(v, "weak"@),
        None => v.text_or("weak"@, ""@),
    }
}

/// The text on a unit.
pub open spec fn unit_text(id: Seq<char>, v: Doc) -> Seq<char> {
    "【兵种】"@ + id + " / "@ + v.text_or("cn"@, ""@) + "("@ + v.text_or("cls"@, "-"@)
        + ")\n  强对抗:"@ + listed(v, "strong"@) + "\n  被克制:"@ + weakness(v) + "\n"@
}

/// The parts on the units that are hit, among the first `n`.
pub open spec fn units_told(units: Seq<(Seq<char>, Doc)>, hits: Seq<bool>, n: nat) -> Seq<Part>
    decreases n,
{
    if n == 0 {
        Seq::empty()
    } else {
        let before = units_told(units, hits, (n - 1) as nat);
        if hits[n - 1] {
            before.push(Part::Text(unit_text(units[n - 1].0, units[n - 1].1)))
        } else {
            before
        }
    }
}

/// The general rules, one to a line.
pub open spec fn rules(kb: Doc) -> Seq<char> {
    let a = kb.array_or_none("counter_rules"@);
    text::joined(
        texts(a, a.len()).map_values(|s: Seq<char>| "  - "@ + s),
        "\n"@,
    )
}

/// What follows the entries: the general rules, and which knowledge this is.
pub open spec fn rules_told(kb: Doc, query: Seq<char>, hit: bool) -> Seq<Part> {
    let intro = if hit {
        "\n通用克制总则:\n"@ + rules(kb) + "\n"@
    } else {
        "未命中「"@ + query + "」,以下是通用克制总则:\n"@ + rules(kb) + "\n"@
    };
    seq![
        Part::Text(intro),
        Part::Text(
            "(知识库策展版本 "@ + KB_VERSION@ + ";版本强度数据见 knowledge.json 的 updated_at)"@,
        ),
    ]
}

/// The report on a query whose hits are known.
pub open spec fn lookup_report(
    kb: Doc,
    query: Seq<char>,
    civs: Seq<(Seq<char>, Doc)>,
    units: Seq<(Seq<char>, Doc)>,
    civ_hits: Seq<bool>,
    unit_hits: Seq<bool>,
    knowledge: KnowledgeFile,
) -> Seq<Part> {
    let entries = civs_told(civs, civ_hits, knowledge, civs.len()) + units_told(
        units,
        unit_hits,
        units.len(),
    );
    entries + rules_told(kb, query, entries.len() > 0)
}

fn listed_text(v: &Json, key: &str) -> (r: String)
    ensures
        r@ == listed(v@, key@),
{
    match v.array_at(key) {
        Some(a) => text::join(&texts_of(a), "、"),
        None => String::new(),
    }
}

fn rules_text(kb: &Json) -> (r: String)
    ensures
        r@ == rules(kb@),
{
    let found = match kb.array_at("counter_rules") {
        Some(a) => texts_of(a),
        None => Vec::new(),
    };
    let ghost all = text::views(found@);
    proof {
        let a = kb@.array_or_none("counter_rules"@);
        assert(all =~= texts(a, a.len()));
    }
    let mut lines: Vec<String> = Vec::new();
    let ghost told = all.map_values(|s: Seq<char>| "  - "@ + s);
    let mut i: usize = 0;
    while i < found.len()
        invariant
            i <= found@.len(),
            all == text::views(found@),
            told == all.map_values(|s: Seq<char>| "  - "@ + s),
            text::views(lines@) == told.take(i as int),
        decreases found@.len() - i,
    {
        let line = text::cat2("  - ", found[i].as_str());
        proof {
            text::lemma_views_push(lines@, line);
            assert(told.take(i + 1) =~= told.take(i as int).push(told[i as int]));
        }
        lines.push(line);
        i = i + 1;
    }
    assert(told.take(told.len() as int) =~= told);
    text::join(&lines, "\n")
}

fn tell_civs(civs: &Vec<(String, Json)>, hits: &Vec<bool>, knowledge: &KnowledgeFile) -> (r: Report)
    requires
        hits@.len() == civs@.len(),
    ensures
        r@ == civs_told(json::members(civs@), hits@, *knowledge, civs@.len()),
{
    let mut out = Report::new();
    let mut i: usize = 0;
    while i < civs.len()
        invariant
            i <= civs@.len(),
            hits@.len() == civs@.len(),
            out@ == civs_told(json::members(civs@), hits@, *knowledge, i as nat),
        decreases civs@.len() - i,
    {
        if hits[i] {
            let id = civs[i].0.as_str();
            let v = &civs[i].1;
            let mut head = "【文明】".to_owned();
            head.append(id);
            head.append(" / ");
            head.append(v.text_or("cn", ""));
            head.append("\n  特性:");
            head.append(v.text_or("trait", ""));
            head.append("\n");
            let mut part = Report::new();
            part.text(head.as_str());
            part.extend(meta_winrate_line(knowledge, id));
            part.text("\n");
            assert(part@ =~= civ_parts(id@, v@, *knowledge));
            out.extend(part);
        }
        i = i + 1;
    }
    out
}

fn tell_units(units: &Vec<(String, Json)>, hits: &Vec<bool>) -> (r: Report)
    requires
        hits@.len() == units@.len(),
    ensures
        r@ == units_told(json::members(units@), hits@, units@.len()),
{
    let mut out = Report::new();
    let mut i: usize = 0;
    while i < units.len()
        invariant
            i <= units@.len(),
            hits@.len() == units@.len(),
            out@ == units_told(json::members(units@), hits@, i as nat),
        decreases units@.len() - i,
    {
        if hits[i] {
            let v = &units[i].1;
            let weak = match v.array_at("weak") {
                Some(_) => listed_text(v, "weak"),
                None => v.text_or("weak", "").to_owned(),
            };
            let mut t = "【兵种】".to_owned();
            t.append(units[i].0.as_str());
            t.append(" / ");
            t.append(v.text_or("cn", ""));
            t.append("(");
            t.append(v.text_or("cls", "-"));
            t.append(")\n  强对抗:");
            t.append(listed_text(v, "strong").as_str());
            t.append("\n  被克制:");
            t.append(weak.as_str());
            t.append("\n");
            out.text(t.as_str());
        }
        i = i + 1;
    }
    out
}

/// The report on a query whose hits are known: which civilizations and which units answer it.
pub fn report_hits(
    kb: &Json,
    query: &str,
    civ_hits: &Vec<bool>,
    unit_hits: &Vec<bool>,
    knowledge: &KnowledgeFile,
) -> (r: Result<Report, ToolError>)
    requires
        kb@.object_at("civs"@) matches Some(civs) ==> civ_hits@.len() == civs.len(),
        kb@.object_at("units"@) matches Some(units) ==> unit_hits@.len() == units.len(),
    ensures
        match (kb@.object_at("civs"@), kb@.object_at("units"@)) {
            (None, _) => r matches Err(ToolError::NoCivilizations),
            (Some(_), None) => r matches Err(ToolError::NoUnits),
            (Some(civs), Some(units)) => r matches Ok(t) && t@ == lookup_report(
                kb@,
                query@,
                civs,
                units,
                civ_hits@,
                unit_hits@,
                *knowledge,
            ),
        },
{
    let civs = match kb.object_at("civs") {
        Some(v) => v,
        None => {
            return Err(ToolError::NoCivilizations);
        },
    };
    let units = match kb.object_at("units") {
        Some(v) => v,
        None => {
            return Err(ToolError::NoUnits);
        },
    };
    let mut out = tell_civs(civs, civ_hits, knowledge);
    out.extend(tell_units(units, unit_hits));
    let ghost entries = out@;
    let hit = out.pieces.len() > 0;
    let rules = rules_text(kb);
    let intro = if hit {
        text::cat3("\n通用克制总则:\n", rules.as_str(), "\n")
    } else {
        text::cat5("未命中「", query, "」,以下是通用克制总则:\n", rules.as_str(), "\n")
    };
    out.text(intro.as_str());
    out.text(
        text::cat3(
            "(知识库策展版本 ",
            KB_VERSION,
            ";版本强度数据见 knowledge.json 的 updated_at)",
        ).as_str(),
    );
    assert(out@ =~= entries + rules_told(kb@, query@, entries.len() > 0));
    Ok(out)
}

/// Which entries answer a query.
pub open spec fn hits(entries: Seq<(Seq<char>, Doc)>, query: Seq<char>) -> Seq<bool> {
    Seq::new(
        entries.len(),
        |i: int|
            answers(
                entries[i].0,
                entries[i].1.text_or("cn"@, ""@),
                unicode_lowercase(entries[i].1.text_or("cn"@, ""@)),
                query,
                unicode_lowercase(text::trimmed(query)),
            ),
    )
}

fn find_hits(entries: &Vec<(String, Json)>, query: &str, q: &str) -> (r: Vec<bool>)
    requires
        q@ == unicode_lowercase(text::trimmed(query@)),
    ensures
        r@ == hits(json::members(entries@), query@),
        names_lower_plainly(json::members(entries@)),
{
    let mut out: Vec<bool> = Vec::new();
    let mut i: usize = 0;
    while i < entries.len()
        invariant
            i <= entries@.len(),
            out@.len() == i,
            q@ == unicode_lowercase(text::trimmed(query@)),
            forall|k: int|
                0 <= k < i ==> #[trigger] out@[k] == hits(json::members(entries@), query@)[k],
            names_lower_plainly(json::members(entries@).take(i as int)),
        decreases entries@.len() - i,
    {
        let name = entries[i].1.text_or("cn", "");
        let low = to_lowercase(name);
        proof {
            let all = json::members(entries@);
            assert(all[i as int] == (entries@[i as int].0@, entries@[i as int].1@));
            assert forall|k: int|
                0 <= k < i + 1 && is_ascii((#[trigger] all.take(i + 1)[k]).1.text_or("cn"@, ""@))
                implies unicode_lowercase(all.take(i + 1)[k].1.text_or("cn"@, ""@))
                == text::lowered(all.take(i + 1)[k].1.text_or("cn"@, ""@)) by {
                if k < i {
                    assert(all.take(i as int)[k] == all.take(i + 1)[k]);
                }
            }
        }
        out.push(entry_answers(entries[i].0.as_str(), name, low.as_str(), query, q));
        i = i + 1;
    }
    assert(out@ =~= hits(json::members(entries@), query@));
    assert(json::members(entries@).take(entries@.len() as int) =~= json::members(entries@));
    out
}

/// Looks a query up in the bundled knowledge: by the English name, by the Chinese one, or by a
/// part of either. Of ASCII text, lower case is what it is of its letters.
pub fn kb_lookup(query: &str, kb: &Json, knowledge: &KnowledgeFile) -> (r: Result<Report, ToolError>)
    ensures
        if unicode_lowercase(text::trimmed(query@)).len() == 0 {
            r matches Err(ToolError::EmptyQuery)
        } else {
            match (kb@.object_at("civs"@), kb@.object_at("units"@)) {
                (None, _) => r matches Err(ToolError::NoCivilizations),
                (Some(_), None) => r matches Err(ToolError::NoUnits),
                (Some(civs), Some(units)) => r matches Ok(t) && t@ == lookup_report(
                    kb@,
                    query@,
                    civs,
                    units,
                    hits(civs, query@),
                    hits(units, query@),
                    *knowledge,
                ),
            }
        },
        is_ascii(text::trimmed(query@)) ==> unicode_lowercase(text::trimmed(query@))
            == text::lowered(text::trimmed(query@)),
        r is Ok ==> names_lower_plainly(kb@.object_at("civs"@)->0) && names_lower_plainly(
            kb@.object_at("units"@)->0,
        ),
{
    let q = to_lowercase(text::trim(query).as_str());
    if q.as_str().is_empty() {
        return Err(ToolError::EmptyQuery);
    }
    let civ_hits = match kb.object_at("civs") {
        Some(v) => find_hits(v, query, q.as_str()),
        None => {
            return Err(ToolError::NoCivilizations);
        },
    };
    let unit_hits = match kb.object_at("units") {
        Some(v) => find_hits(v, query, q.as_str()),
        None => {
            return Err(ToolError::NoUnits);
        },
    };
    report_hits(kb, query, &civ_hits, &unit_hits, knowledge)
}

/// The path of the statistics of the civilizations.
pub open spec fn civ_stats_path(
    board: Seq<char>,
    rank_level: Option<Seq<char>>,
    patch: Option<Seq<char>>,
) -> Seq<char> {
    let base = "/stats/"@ + board + "/civilizations?"@;
    let ranked = match rank_level {
        Some(rl) => base + ("rank_level="@ + rl + "&"@),
        None => base,
    };
    match patch {
        Some(p) => ranked + ("patch="@ + p + "&"@),
        None => ranked,
    }
}

/// The path of the statistics of the civilizations.
pub fn civ_statistics_path(board: &str, rank_level: Option<&str>, patch: Option<&str>) -> (r: String)
    ensures
        r@ == civ_stats_path(board@, text::opt_str(rank_level), text::opt_str(patch)),
{
    let mut path = text::cat3("/stats/", board, "/civilizations?");
    match rank_level {
        Some(rl) => {
            path.append(text::cat3("rank_level=", rl, "&").as_str());
        },
        None => {},
    }
    match patch {
        Some(p) => {
            path.append(text::cat3("patch=", p, "&").as_str());
        },
        None => {},
    }
    path
}

/// The digits of a number; zero where there is none.
pub open spec fn digits(d: Option<Doc>) -> Seq<char> {
    match d {
        Some(Doc::Unsigned(_)) => json::rendered(d->0),
        Some(Doc::Negative(_)) => json::rendered(d->0),
        Some(Doc::Real(_)) => json::rendered(d->0),
        _ => "0"@,
    }
}

fn digits_at(row: &Json, key: &str) -> (r: String)
    ensures
        r@ == digits(row@.field(key@)),
{
    match row.get(key) {
        Some(v) => match v {
            Json::Unsigned(_) => v.to_text(),
            Json::Negative(_) => v.to_text(),
            Json::Real(_) => v.to_text(),
            _ => "0".to_owned(),
        },
        None => "0".to_owned(),
    }
}

/// The parts on the statistics of a civilization.
pub open spec fn stat_parts(row: Doc, kb: Doc) -> Seq<Part> {
    let id = row.text_or("civilization"@, "?"@);
    seq![
        Part::Text("- "@ + id + "("@ + battle::civ_name(kb, id) + "): "@),
        Part::Fixed { digits: digits(row.field("win_rate"@)), decimals: 1 },
        Part::Text("% 登场"@),
        Part::Fixed { digits: digits(row.field("pick_rate"@)), decimals: 1 },
        Part::Text("% 样本"@ + text::signed(row.integer_or("games_count"@, 0) as int) + "\n"@),
    ]
}

/// The parts on the first `n` rows in the given order.
pub open spec fn stats_told(rows: Seq<Doc>, places: Seq<int>, kb: Doc, n: nat) -> Seq<Part>
    decreases n,
{
    if n == 0 {
        Seq::empty()
    } else {
        stats_told(rows, places, kb, (n - 1) as nat) + stat_parts(rows[places[n - 1]], kb)
    }
}

/// How many rows of the statistics are told.
pub const STATS_TOLD: usize = 25;

/// The report on the statistics of the civilizations.
pub open spec fn stats_report(
    board: Seq<char>,
    body: Doc,
    rows: Seq<Doc>,
    keys: Seq<int>,
    kb: Doc,
) -> Seq<Part> {
    seq![
        Part::Text(
            "文明胜率 "@ + board + " [段位:"@ + body.text_or("rank_level"@, "all"@) + "] [patch "@
                + body.text_or("patch"@, "-"@) + "](按胜率排序):\n"@,
        ),
    ] + stats_told(rows, order::descending(keys), kb, battle::at_most(rows.len(), STATS_TOLD as nat))
}

/// The report on the statistics of the civilizations, by descending `keys`: there is one for each
/// row, and they are in the order of the rows' shares of wins.
pub fn civ_stats(board: &str, body: &Json, keys: &Vec<i128>, kb: &Json) -> (r: Result<
    Report,
    ToolError,
>)
    requires
        body@.array_at("data"@) matches Some(rows) ==> keys@.len() == rows.len(),
        forall|i: int| 0 <= i < keys@.len() ==> #[trigger] keys@[i] > i128::MIN,
    ensures
        match (body@.array_at("data"@), kb@.object_at("civs"@)) {
            (None, _) => r matches Err(ToolError::NoStatistics),
            (Some(_), None) => r matches Err(ToolError::NoCivilizations),
            (Some(rows), Some(_)) => r matches Ok(t) && t@ == stats_report(
                board@,
                body@,
                rows,
                order::key_values(keys@),
                kb@,
            ),
        },
{
    let rows = match body.array_at("data") {
        Some(v) => v,
        None => {
            return Err(ToolError::NoStatistics);
        },
    };
    if kb.object_at("civs").is_none() {
        return Err(ToolError::NoCivilizations);
    }
    let ghost all = json::docs(rows@);
    let places = order::order_descending(keys);
    let ghost sorted = order::descending(order::key_values(keys@));
    let n: usize = if rows.len() < STATS_TOLD {
        rows.len()
    } else {
        STATS_TOLD
    };
    let mut head = text::cat5(
        "文明胜率 ",
        board,
        " [段位:",
        body.text_or("rank_level", "all"),
        "] [patch ",
    );
    head.append(body.text_or("patch", "-"));
    head.append("](按胜率排序):\n");
    let mut out = Report::new();
    out.text(head.as_str());
    let ghost first = out@;
    assert(first + Seq::<Part>::empty() =~= first);
    let mut k: usize = 0;
    while k < n
        invariant
            k <= n <= places@.len(),
            all == json::docs(rows@),
            rows@.len() == places@.len(),
            sorted == order::places(places@),
            forall|j: int| 0 <= j < places@.len() ==> (#[trigger] places@[j]) < rows@.len(),
            out@ == first + stats_told(all, sorted, kb@, k as nat),
        decreases n - k,
    {
        let p: usize = places[k];
        let row = &rows[p];
        let id = row.text_or("civilization", "?");
        let ghost had = out@;
        proof {
            assert(sorted[k as int] == p as int);
            assert(all[p as int] == row@);
        }
        out.text(text::cat5("- ", id, "(", battle::name_civ(kb, id), "): ").as_str());
        out.fixed(digits_at(row, "win_rate").as_str(), 1);
        out.text("% 登场");
        out.fixed(digits_at(row, "pick_rate").as_str(), 1);
        out.text(
            text::cat3(
                "% 样本",
                text::signed_text(row.integer_or("games_count", 0) as i128).as_str(),
                "\n",
            ).as_str(),
        );
        assert(out@ =~= had + stat_parts(row@, kb@));
        assert(had + stat_parts(row@, kb@) =~= first + stats_told(all, sorted, kb@, (k + 1) as nat));
        k = k + 1;
    }
    Ok(out)
}

/// The row of a civilization is the first one that names it, and there is none only where no row
/// does.
pub proof fn lemma_civ_row_is_first(rows: Seq<Doc>, civ: Seq<char>, from: int)
    requires
        0 <= from <= rows.len(),
    ensures
        match civ_row(rows, civ, from) {
            Some(r) => exists|i: int|
                from <= i < rows.len() && #[trigger] rows[i] == r && r.text_at("civ"@) == Some(civ)
                    && forall|k: int|
                    from <= k < i ==> (#[trigger] rows[k]).text_at("civ"@) != Some(civ),
            None => forall|k: int|
                from <= k < rows.len() ==> (#[trigger] rows[k]).text_at("civ"@) != Some(civ),
        },
    decreases rows.len() - from,
{
    if from < rows.len() {
        lemma_civ_row_is_first(rows, civ, from + 1);
        if rows[from].text_at("civ"@) == Some(civ) {
            assert(rows[from] == civ_row(rows, civ, from)->0);
        } else if civ_row(rows, civ, from) is Some {
            let r = civ_row(rows, civ, from + 1)->0;
            let i = choose|i: int|
                from + 1 <= i < rows.len() && #[trigger] rows[i] == r && r.text_at("civ"@) == Some(
                    civ,
                ) && forall|k: int|
                    from + 1 <= k < i ==> (#[trigger] rows[k]).text_at("civ"@) != Some(civ);
            assert(rows[i] == r);
        }
    }
}

/// The texts of a list are those of its values that are texts.
pub proof fn lemma_texts(v: Seq<Doc>, n: nat, s: Seq<char>)
    requires
        n <= v.len(),
    ensures
        texts(v, n).contains(s) <==> exists|i: int| 0 <= i < n && #[trigger] v[i] == Doc::Text(s),
    decreases n,
{
    if n > 0 {
        let before = texts(v, (n - 1) as nat);
        let now = texts(v, n);
        lemma_texts(v, (n - 1) as nat, s);
        match v[n - 1].text() {
            Some(t) => {
                assert(v[n - 1] == Doc::Text(t));
                assert(now == before.push(t));
                assert(now[before.len() as int] == t);
                if before.contains(s) {
                    let i = before.index_of(s);
                    assert(now[i] == s);
                }
                if now.contains(s) {
                    let i = now.index_of(s);
                    if i < before.len() {
                        assert(before[i] == s);
                    }
                }
            },
            None => {},
        }
    }
}

/// An entry answers to its id, to a part of it and to a part of its name, and an entry whose id and
/// name have nothing of what is asked does not.
pub proof fn lemma_answers(
    id: Seq<char>,
    name: Seq<char>,
    low: Seq<char>,
    query: Seq<char>,
    q: Seq<char>,
)
    ensures
        answers(id, name, low, query, id),
        answers(id, name, low, query, low),
        answers(id, name, low, name, q),
        text::mentions(id, q) ==> answers(id, name, low, query, q),
        text::mentions(name, query) ==> answers(id, name, low, query, q),
        !text::mentions(id, q) && !text::mentions(name, query) && q != low ==> !answers(
            id,
            name,
            low,
            query,
            q,
        ),
{
    text::lemma_mentions_middle(Seq::empty(), name, Seq::empty());
    assert(Seq::empty() + name + Seq::empty() =~= name);
    text::lemma_mentions_middle(Seq::empty(), q, Seq::empty());
    assert(Seq::empty() + q + Seq::empty() =~= q);
}

/// Something is told of an entry exactly where one is hit: without a hit the lookup says that there
/// was none, and with one it does not.
pub proof fn lemma_hit_or_not(
    kb: Doc,
    query: Seq<char>,
    civs: Seq<(Seq<char>, Doc)>,
    units: Seq<(Seq<char>, Doc)>,
    civ_hits: Seq<bool>,
    unit_hits: Seq<bool>,
    knowledge: KnowledgeFile,
)
    requires
        civ_hits.len() == civs.len(),
        unit_hits.len() == units.len(),
    ensures
        ({
            let told = lookup_report(kb, query, civs, units, civ_hits, unit_hits, knowledge);
            let missed = Part::Text(
                "未命中「"@ + query + "」,以下是通用克制总则:\n"@ + rules(kb) + "\n"@,
            );
            let found = Part::Text("\n通用克制总则:\n"@ + rules(kb) + "\n"@);
            &&& told.len() >= 2
            &&& (forall|i: int| 0 <= i < civ_hits.len() ==> !#[trigger] civ_hits[i]) && (forall|
                i: int,
            |
                0 <= i < unit_hits.len() ==> !#[trigger] unit_hits[i]) ==> told.len() == 2
                && told[0] == missed
            &&& (exists|i: int| 0 <= i < civ_hits.len() && #[trigger] civ_hits[i]) || (exists|
                i: int,
            |
                0 <= i < unit_hits.len() && #[trigger] unit_hits[i]) ==> told.len() > 2
                && told[told.len() - 2] == found
        }),
{
    lemma_civs_told(civs, civ_hits, knowledge, civs.len());
    lemma_units_told(units, unit_hits, units.len());
}

proof fn lemma_civs_told(
    civs: Seq<(Seq<char>, Doc)>,
    hits: Seq<bool>,
    knowledge: KnowledgeFile,
    n: nat,
)
    requires
        n <= civs.len(),
    ensures
        civs_told(civs, hits, knowledge, n).len() == 0 <==> forall|i: int|
            0 <= i < n ==> !#[trigger] hits[i],
    decreases n,
{
    if n > 0 {
        lemma_civs_told(civs, hits, knowledge, (n - 1) as nat);
    }
}

proof fn lemma_units_told(units: Seq<(Seq<char>, Doc)>, hits: Seq<bool>, n: nat)
    requires
        n <= units.len(),
    ensures
        units_told(units, hits, n).len() == 0 <==> forall|i: int|
            0 <= i < n ==> !#[trigger] hits[i],
    decreases n,
{
    if n > 0 {
        lemma_units_told(units, hits, (n - 1) as nat);
    }
}

/// The path of the site's statistics asks for a rank and for a version exactly as they are given.
pub proof fn lemma_civ_stats_path(
    board: Seq<char>,
    rank: Option<Seq<char>>,
    patch: Option<Seq<char>>,
)
    ensures
        text::begins(civ_stats_path(board, rank, patch), "/stats/"@ + board + "/civilizations?"@),
        rank matches Some(r) ==> text::mentions(
            civ_stats_path(board, rank, patch),
            "rank_level="@ + r + "&"@,
        ),
        patch matches Some(p) ==> text::mentions(
            civ_stats_path(board, rank, patch),
            "patch="@ + p + "&"@,
        ),
        rank is None && patch is None ==> civ_stats_path(board, rank, patch) == "/stats/"@ + board
            + "/civilizations?"@,
{
    let base = "/stats/"@ + board + "/civilizations?"@;
    let whole = civ_stats_path(board, rank, patch);
    assert(whole.subrange(0, base.len() as int) =~= base);
    let tail = match patch {
        Some(p) => "patch="@ + p + "&"@,
        None => Seq::empty(),
    };
    match rank {
        Some(r) => {
            text::lemma_mentions_middle(base, "rank_level="@ + r + "&"@, tail);
            assert(base + ("rank_level="@ + r + "&"@) + tail =~= whole);
            text::lemma_mentions_middle(base + ("rank_level="@ + r + "&"@), tail, Seq::empty());
            assert(base + ("rank_level="@ + r + "&"@) + tail + Seq::empty() =~= whole);
        },
        None => {
            text::lemma_mentions_middle(base, tail, Seq::empty());
            assert(base + tail + Seq::empty() =~= whole);
        },
    }
}

}
