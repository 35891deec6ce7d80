//! The comments at the head of a script that say what it is.

use crate::text;
use vstd::prelude::*;

verus! {

/// A text in two languages.
#[derive(Debug)]
pub struct Localized {
    pub zh: Option<String>,
    pub en: Option<String>,
}

/// How a script is given its arguments besides its input.
#[derive(Debug, Clone, Copy, PartialEq, Eq, Structural)]
pub enum ArgvMode {
    Off,
    Flags,
}

/// What a script says of itself. The parameters are the JSON text that it gives.
#[derive(Debug)]
pub struct ScriptMetadata {
    pub id: Option<String>,
    pub descriptions: Localized,
    pub display_names: Localized,
    pub timeout_seconds: Option<u64>,
    pub groups: Vec<String>,
    pub argv: Option<ArgvMode>,
    pub parameters: Option<String>,
}

/// What a script says of itself, apart from how it is kept.
pub struct Metadata {
    pub id: Option<Seq<char>>,
    pub description_zh: Option<Seq<char>>,
    pub description_en: Option<Seq<char>>,
    pub name_zh: Option<Seq<char>>,
    pub name_en: Option<Seq<char>>,
    pub timeout: Option<u64>,
    pub groups: Seq<Seq<char>>,
    pub argv: Option<ArgvMode>,
    pub parameters: Option<Seq<char>>,
}

impl View for ScriptMetadata {
    type V = Metadata;

    open spec fn view(&self) -> Metadata {
        Metadata {
            id: text::opt(self.id),
            description_zh: text::opt(self.descriptions.zh),
            description_en: text::opt(self.descriptions.en),
            name_zh: text::opt(self.display_names.zh),
            name_en: text::opt(self.display_names.en),
            timeout: self.timeout_seconds,
            groups: text::views(self.groups@),
            argv: self.argv,
            parameters: text::opt(self.parameters),
        }
    }
}

/// What a script that says nothing of itself says.
pub open spec fn nothing_said() -> Metadata {
    Metadata {
        id: None,
        description_zh: None,
        description_en: None,
        name_zh: None,
        name_en: None,
        timeout: None,
        groups: Seq::empty(),
        argv: None,
        parameters: None,
    }
}

/// What stands in a comment, where a line is one.
pub open spec fn comment(line: Seq<char>) -> Option<Seq<char>> {
    let t = text::trimmed(line);
    if text::begins(t, "//"@) {
        Some(text::trimmed(t.skip(2)))
    } else if text::begins(t, "#"@) {
        Some(text::trimmed(t.skip(1)))
    } else {
        None
    }
}

/// Whether a line is code: neither empty nor a comment.
pub open spec fn is_code(line: Seq<char>) -> bool {
    text::trimmed(line).len() > 0 && comment(line) is None
}

/// How many lines there are before the first line of code, from line `i` on.
pub open spec fn head_from(lines: Seq<Seq<char>>, i: int) -> int
    decreases lines.len() - i,
{
    if i < 0 || i >= lines.len() || is_code(lines[i]) {
        i
    } else {
        head_from(lines, i + 1)
    }
}

/// Where the first colon stands, of either width, from `i` on.
pub open spec fn colon_from(s: Seq<char>, i: int) -> Option<int>
    decreases s.len() - i,
{
    if i < 0 || i >= s.len() {
        None
    } else if s[i] == ':' || s[i] == '：' {
        Some(i)
    } else {
        colon_from(s, i + 1)
    }
}

/// What stands before and after the first colon.
pub open spec fn entry(body: Seq<char>) -> Option<(Seq<char>, Seq<char>)> {
    match colon_from(body, 0) {
        Some(i) => Some((text::trimmed(body.take(i)), text::trimmed(body.skip(i + 1)))),
        None => None,
    }
}

/// How the braces of a JSON text stand: how many are open, whether any was opened, and whether
/// the text ends in a string, or behind a backslash in one.
pub struct Braces {
    pub depth: int,
    pub opened: bool,
    pub quoted: bool,
    pub escaped: bool,
}

/// How braces stand behind one more character: those in a string do not count.
pub open spec fn next_brace(b: Braces, c: char) -> Braces {
    if b.escaped {
        Braces { escaped: false, ..b }
    } else if b.quoted {
        if c == '\\' {
            Braces { escaped: true, ..b }
        } else if c == '"' {
            Braces { quoted: false, ..b }
        } else {
            b
        }
    } else if c == '"' {
        Braces { quoted: true, ..b }
    } else if c == '{' {
        Braces { depth: b.depth + 1, opened: true, ..b }
    } else if c == '}' {
        Braces { depth: b.depth - 1, ..b }
    } else {
        b
    }
}

/// How the braces of the first `n` characters stand.
pub open spec fn braces(s: Seq<char>, n: nat) -> Braces
    decreases n,
{
    if n == 0 {
        Braces { depth: 0, opened: false, quoted: false, escaped: false }
    } else {
        next_brace(braces(s, (n - 1) as nat), s[n - 1])
    }
}

/// Whether a JSON object is complete: every brace that was opened is closed.
pub open spec fn complete(s: Seq<char>) -> bool {
    let b = braces(s, s.len());
    b.opened && b.depth == 0 && !b.quoted
}

/// A number of seconds, with or without its unit.
pub open spec fn seconds(value: Seq<char>) -> Option<nat> {
    let digits = if text::finishes(value, "s"@) {
        text::trimmed(value.drop_last())
    } else {
        value
    };
    text::unsigned(digits, u64::MAX as nat)
}

/// The names in a list with commas, from the first `n` of its parts.
pub open spec fn names_in(parts: Seq<Seq<char>>, n: nat) -> Seq<Seq<char>>
    decreases n,
{
    if n == 0 {
        Seq::empty()
    } else {
        let before = names_in(parts, (n - 1) as nat);
        let name = text::trimmed(parts[n - 1]);
        if name.len() == 0 {
            before
        } else {
            before.push(name)
        }
    }
}

/// The names in a list with commas.
pub open spec fn name_list(value: Seq<char>) -> Seq<Seq<char>> {
    let parts = text::pieces(value, ',');
    names_in(parts, parts.len())
}

/// What is said with one more entry. An entry without a value, or whose name is not known, says
/// nothing.
pub open spec fn with_entry(m: Metadata, key: Seq<char>, value: Seq<char>) -> Metadata {
    let k = text::lowered(key);
    if value.len() == 0 {
        m
    } else if k == "description"@ {
        Metadata { description_en: Some(value), ..m }
    } else if k == "描述"@ || k == "功能介绍"@ {
        Metadata { description_zh: Some(value), ..m }
    } else if k == "display name"@ {
        Metadata { name_en: Some(value), ..m }
    } else if k == "显示名称"@ {
        Metadata { name_zh: Some(value), ..m }
    } else if k == "id"@ {
        Metadata { id: Some(value), ..m }
    } else if k == "timeout"@ {
        match seconds(value) {
            Some(n) => Metadata { timeout: Some(n as u64), ..m },
            None => m,
        }
    } else if k == "group"@ {
        Metadata { groups: name_list(value), ..m }
    } else if k == "argv"@ {
        if text::lowered(value) == "flags"@ {
            Metadata { argv: Some(ArgvMode::Flags), ..m }
        } else if text::lowered(value) == "off"@ {
            Metadata { argv: Some(ArgvMode::Off), ..m }
        } else {
            m
        }
    } else {
        m
    }
}

/// What has been read: what was said, and the parameters that are not complete yet.
pub struct Reading {
    pub said: Metadata,
    pub block: Option<Seq<char>>,
}

/// What has been read with one more comment.
pub open spec fn with_comment(r: Reading, body: Seq<char>) -> Reading {
    match r.block {
        Some(b) => {
            let all = b + "\n"@ + body;
            if complete(all) {
                Reading { said: Metadata { parameters: Some(all), ..r.said }, block: None }
            } else {
                Reading { block: Some(all), ..r }
            }
        },
        None => match entry(body) {
            None => r,
            Some((key, value)) => if text::lowered(key) == "parameters"@ {
                if complete(value) {
                    Reading { said: Metadata { parameters: Some(value), ..r.said }, ..r }
                } else {
                    Reading { block: Some(value), ..r }
                }
            } else {
                Reading { said: with_entry(r.said, key, value), ..r }
            },
        },
    }
}

/// What has been read in the first `n` lines.
pub open spec fn read_lines(lines: Seq<Seq<char>>, n: nat) -> Reading
    decreases n,
{
    if n == 0 {
        Reading { said: nothing_said(), block: None }
    } else {
        let before = read_lines(lines, (n - 1) as nat);
        match comment(lines[n - 1]) {
            Some(body) => with_comment(before, body),
            None => before,
        }
    }
}

/// What a script says of itself: in the comments before its first line of code.
pub open spec fn metadata(raw: Seq<char>) -> Metadata {
    let lines = text::line_list(raw);
    read_lines(lines, head_from(lines, 0) as nat).said
}

proof fn lemma_head_from(lines: Seq<Seq<char>>, i: int)
    requires
        0 <= i <= lines.len(),
    ensures
        i <= head_from(lines, i) <= lines.len(),
        forall|k: int| i <= k < head_from(lines, i) ==> !is_code(#[trigger] lines[k]),
        head_from(lines, i) < lines.len() ==> is_code(lines[head_from(lines, i)]),
    decreases lines.len() - i,
{
    if i < lines.len() && !is_code(lines[i]) {
        lemma_head_from(lines, i + 1);
    }
}

proof fn lemma_read_agrees(a: Seq<Seq<char>>, b: Seq<Seq<char>>, n: nat)
    requires
        n <= a.len(),
        n <= b.len(),
        forall|k: int| 0 <= k < n ==> #[trigger] a[k] == b[k],
    ensures
        read_lines(a, n) == read_lines(b, n),
    decreases n,
{
    if n > 0 {
        lemma_read_agrees(a, b, (n - 1) as nat);
        assert(a[n - 1] == b[n - 1]);
    }
}

/// Nothing behind the first line of code is read: scripts whose lines agree up to a line of code
/// say the same of themselves.
pub proof fn lemma_head_ends_at_code(a: Seq<char>, b: Seq<char>, code: int)
    requires
        0 <= code < text::line_list(a).len(),
        code < text::line_list(b).len(),
        is_code(text::line_list(a)[code]),
        is_code(text::line_list(b)[code]),
        forall|k: int|
            0 <= k < code ==> #[trigger] text::line_list(a)[k] == text::line_list(b)[k],
    ensures
        metadata(a) == metadata(b),
{
    let x = text::line_list(a);
    let y = text::line_list(b);
    lemma_head_from(x, 0);
    lemma_head_from(y, 0);
    let n = head_from(x, 0);
    let m = head_from(y, 0);
    assert(n <= code);
    assert(m <= code);
    if n < m {
        assert(x[n] == y[n]);
    } else if m < n {
        assert(x[m] == y[m]);
    }
    lemma_read_agrees(x, y, n as nat);
}

/// A comment whose name is not known says nothing, outside of parameters that are not complete.
pub proof fn lemma_unknown_comments_are_skipped(r: Reading, body: Seq<char>)
    requires
        r.block is None,
        entry(body) matches Some((key, _)) ==> {
            let k = text::lowered(key);
            &&& k != "description"@
            &&& k != "描述"@
            &&& k != "功能介绍"@
            &&& k != "display name"@
            &&& k != "显示名称"@
            &&& k != "id"@
            &&& k != "timeout"@
            &&& k != "group"@
            &&& k != "argv"@
            &&& k != "parameters"@
        },
    ensures
        with_comment(r, body) == r,
{
}

proof fn lemma_read_parameters(lines: Seq<Seq<char>>, n: nat)
    requires
        n <= lines.len(),
    ensures
        read_lines(lines, n).said.parameters matches Some(p) ==> complete(p),
    decreases n,
{
    if n > 0 {
        lemma_read_parameters(lines, (n - 1) as nat);
    }
}

/// The parameters of a script are always a complete object.
pub proof fn lemma_parameters_are_complete(raw: Seq<char>)
    ensures
        metadata(raw).parameters matches Some(p) ==> complete(p),
{
    let lines = text::line_list(raw);
    lemma_head_from(lines, 0);
    lemma_read_parameters(lines, head_from(lines, 0) as nat);
}

fn read_comment(line: &str) -> (r: Option<String>)
    ensures
        text::opt(r) == comment(line@),
{
    let t = text::trim(line);
    proof {
        reveal_strlit("//");
        reveal_strlit("#");
    }
    match text::strip_prefix(t.as_str(), "//") {
        Some(rest) => Some(text::trim(rest.as_str())),
        None => match text::strip_prefix(t.as_str(), "#") {
            Some(rest) => Some(text::trim(rest.as_str())),
            None => None,
        },
    }
}

fn read_entry(body: &str) -> (r: Option<(String, String)>)
    ensures
        match r {
            Some((k, v)) => entry(body@) == Some((k@, v@)),
            None => entry(body@) is None,
        },
{
    let cs = text::chars(body);
    let mut i: usize = 0;
    while i < cs.len()
        invariant
            i <= cs@.len(),
            cs@ == body@,
            colon_from(body@, 0) == colon_from(body@, i as int),
        decreases cs@.len() - i,
    {
        if cs[i] == ':' || cs[i] == '：' {
            let key = text::slice(&cs, 0, i);
            let value = text::slice(&cs, i + 1, cs.len());
            assert(key@ =~= body@.take(i as int));
            assert(value@ =~= body@.skip(i + 1));
            return Some((text::trim(key.as_str()), text::trim(value.as_str())));
        }
        i = i + 1;
    }
    None
}

fn is_complete(s: &str) -> (r: bool)
    ensures
        r == complete(s@),
{
    let cs = text::chars(s);
    let mut depth: i128 = 0;
    let mut opened = false;
    let mut quoted = false;
    let mut escaped = false;
    let mut i: usize = 0;
    while i < cs.len()
        invariant
            i <= cs.len(),
            cs@ == s@,
            -i <= depth <= i,
            braces(s@, i as nat) == (Braces { depth: depth as int, opened, quoted, escaped }),
        decreases cs@.len() - i,
    {
        let c = cs[i];
        if escaped {
            escaped = false;
        } else if quoted {
            if c == '\\' {
                escaped = true;
            } else if c == '"' {
                quoted = false;
            }
        } else if c == '"' {
            quoted = true;
        } else if c == '{' {
            depth = depth + 1;
            opened = true;
        } else if c == '}' {
            depth = depth - 1;
        }
        i = i + 1;
    }
    opened && depth == 0 && !quoted
}

fn read_seconds(value: &str) -> (r: Option<u64>)
    ensures
        match r {
            Some(n) => seconds(value@) == Some(n as nat),
            None => seconds(value@) is None,
        },
{
    proof {
        reveal_strlit("s");
    }
    if text::ends_with(value, "s") {
        let cs = text::chars(value);
        let digits = text::slice(&cs, 0, cs.len() - 1);
        assert(digits@ =~= value@.drop_last());
        text::parse_unsigned(text::trim(digits.as_str()).as_str(), u64::MAX)
    } else {
        text::parse_unsigned(value, u64::MAX)
    }
}

fn read_names(value: &str) -> (r: Vec<String>)
    ensures
        text::views(r@) == name_list(value@),
{
    let parts = text::split(value, ',');
    let ghost ps = text::views(parts@);
    let mut out: Vec<String> = Vec::new();
    let mut i: usize = 0;
    assert(text::views(out@) =~= names_in(ps, 0));
    while i < parts.len()
        invariant
            i <= parts@.len(),
            ps == text::views(parts@),
            text::views(out@) == names_in(ps, i as nat),
        decreases parts@.len() - i,
    {
        let name = text::trim(parts[i].as_str());
        if !name.as_str().is_empty() {
            proof {
                text::lemma_views_push(out@, name);
            }
            out.push(name);
        }
        i = i + 1;
    }
    out
}

impl ScriptMetadata {
    fn set(&mut self, key: &str, value: String)
        ensures
            final(self)@ == with_entry(old(self)@, key@, value@),
    {
        let k = text::to_ascii_lowercase(key);
        let k = k.as_str();
        if value.as_str().is_empty() {
        } else if text::same(k, "description") {
            self.descriptions.en = Some(value);
        } else if text::same(k, "描述") || text::same(k, "功能介绍") {
            self.descriptions.zh = Some(value);
        } else if text::same(k, "display name") {
            self.display_names.en = Some(value);
        } else if text::same(k, "显示名称") {
            self.display_names.zh = Some(value);
        } else if text::same(k, "id") {
            self.id = Some(value);
        } else if text::same(k, "timeout") {
            if let Some(n) = read_seconds(value.as_str()) {
                self.timeout_seconds = Some(n);
            }
        } else if text::same(k, "group") {
            self.groups = read_names(value.as_str());
        } else if text::same(k, "argv") {
            let mode = text::to_ascii_lowercase(value.as_str());
            if text::same(mode.as_str(), "flags") {
                self.argv = Some(ArgvMode::Flags);
            } else if text::same(mode.as_str(), "off") {
                self.argv = Some(ArgvMode::Off);
            }
        }
    }
}

/// What a script says of itself.
pub fn extract_metadata(raw: &str) -> (r: ScriptMetadata)
    ensures
        r@ == metadata(raw@),
{
    let lines = text::lines(raw);
    let ghost ls = text::views(lines@);
    let mut said = ScriptMetadata {
        id: None,
        descriptions: Localized { zh: None, en: None },
        display_names: Localized { zh: None, en: None },
        timeout_seconds: None,
        groups: Vec::new(),
        argv: None,
        parameters: None,
    };
    assert(said@.groups =~= Seq::<Seq<char>>::empty());
    let mut block: Option<String> = None;
    let mut i: usize = 0;
    while i < lines.len()
        invariant
            i <= lines@.len(),
            ls == text::views(lines@),
            ls == text::line_list(raw@),
            head_from(ls, 0) == head_from(ls, i as int),
            read_lines(ls, i as nat) == (Reading { said: said@, block: text::opt(block) }),
        decreases lines@.len() - i,
    {
        assert(ls[i as int] == lines@[i as int]@);
        match read_comment(lines[i].as_str()) {
            Some(body) => {
                match block {
                    Some(b) => {
                        let all = text::cat3(b.as_str(), "\n", body.as_str());
                        if is_complete(all.as_str()) {
                            said.parameters = Some(all);
                            block = None;
                        } else {
                            block = Some(all);
                        }
                    },
                    None => {
                        block = None;
                        if let Some((key, value)) = read_entry(body.as_str()) {
                            let k = text::to_ascii_lowercase(key.as_str());
                            if text::same(k.as_str(), "parameters") {
                                if is_complete(value.as_str()) {
                                    said.parameters = Some(value);
                                } else {
                                    block = Some(value);
                                }
                            } else {
                                said.set(key.as_str(), value);
                            }
                        }
                    },
                }
            },
            None => {
                let t = text::trim(lines[i].as_str());
                if !t.as_str().is_empty() {
                    return said;
                }
            },
        }
        i = i + 1;
    }
    said
}

/// What a script says it does: in English where it says that.
pub open spec fn description(m: Metadata) -> Option<Seq<char>> {
    match m.description_en {
        Some(d) => Some(d),
        None => m.description_zh,
    }
}

/// What a script says it does.
pub fn extract_description(raw: &str) -> (r: Option<String>)
    ensures
        text::opt(r) == description(metadata(raw@)),
{
    let m = extract_metadata(raw);
    match m.descriptions.en {
        Some(d) => Some(d),
        None => m.descriptions.zh,
    }
}

/// A text with an underscore for each character that is no ASCII letter or digit.
pub open spec fn underscored(s: Seq<char>) -> Seq<char> {
    s.map_values(
        |c: char|
            if text::is_plain(c) {
                c
            } else {
                '_'
            },
    )
}

/// Whether a text holds an ASCII letter or digit.
pub open spec fn holds_plain(s: Seq<char>) -> bool {
    exists|i: int| 0 <= i < s.len() && text::is_plain(#[trigger] s[i])
}

/// The name that a tool gets from a file's; none where no letter or digit would be left. It does
/// not begin with a digit.
pub open spec fn script_name(stem: Seq<char>) -> Option<Seq<char>> {
    if !holds_plain(stem) {
        None
    } else if text::is_digit(stem[0]) {
        Some("script_"@ + underscored(stem))
    } else {
        Some(underscored(stem))
    }
}

/// The name that a tool gets from a file's.
pub fn normalize_script_id(stem: &str) -> (r: Option<String>)
    ensures
        text::opt(r) == script_name(stem@),
{
    let cs = text::chars(stem);
    let ghost all = underscored(stem@);
    let mut out = String::new();
    let mut found = false;
    let mut i: usize = 0;
    assert(out@ =~= all.take(0));
    while i < cs.len()
        invariant
            i <= cs@.len(),
            cs@ == stem@,
            all == underscored(stem@),
            out@ == all.take(i as int),
            found == exists|j: int| 0 <= j < i && text::is_plain(#[trigger] stem@[j]),
        decreases cs@.len() - i,
    {
        let c = cs[i];
        if text::plain(c) {
            assert(text::is_plain(stem@[i as int]));
            found = true;
            out.push(c);
        } else {
            out.push('_');
        }
        assert(all.take(i + 1) =~= all.take(i as int).push(all[i as int]));
        i = i + 1;
    }
    assert(all.take(all.len() as int) =~= all);
    if !found {
        return None;
    }
    if '0' <= cs[0] && cs[0] <= '9' {
        Some(text::cat2("script_", out.as_str()))
    } else {
        Some(out)
    }
}

/// A tool's name is kept when it is made from a name again.
pub proof fn lemma_names_are_kept(stem: Seq<char>)
    ensures
        script_name(stem) matches Some(name) ==> script_name(name) == Some(name),
{
    reveal_strlit("script_");
    if script_name(stem) is Some {
        let name = script_name(stem)->0;
        let i = choose|i: int| 0 <= i < stem.len() && text::is_plain(#[trigger] stem[i]);
        if text::is_digit(stem[0]) {
            assert(name[0] == 's');
            assert(text::is_plain(name[0]));
            assert forall|k: int| 0 <= k < name.len() implies underscored(name)[k] == name[k] by {
                if k >= 7 {
                    assert(name[k] == underscored(stem)[k - 7]);
                }
            }
        } else {
            assert(name[i] == stem[i]);
            assert(text::is_plain(name[i]));
            assert(!text::is_digit(name[0]));
        }
        assert(underscored(name) =~= name);
    }
}

/// The name of a script's tool: the one that it gives itself where that is a tool's name, and the
/// one from its file's name where it is not.
pub fn script_id(header: &Option<String>, stem: &str) -> (r: Option<String>)
    ensures
        text::opt(r) == match header {
            Some(h) => if script_name(h@) == Some(h@) {
                Some(h@)
            } else {
                script_name(stem@)
            },
            None => script_name(stem@),
        },
{
    if let Some(h) = header {
        if let Some(name) = normalize_script_id(h.as_str()) {
            if text::same(name.as_str(), h.as_str()) {
                return Some(name);
            }
        }
    }
    normalize_script_id(stem)
}

/// A line is a comment where it begins with a number sign or with two slashes, and says what stands
/// behind them.
pub proof fn lemma_comment(line: Seq<char>)
    ensures
        ({
            let t = text::trimmed(line);
            &&& t.len() >= 1 && t[0] == '#' ==> comment(line) == Some(text::trimmed(t.skip(1)))
            &&& t.len() >= 2 && t[0] == '/' && t[1] == '/' ==> comment(line) == Some(
                text::trimmed(t.skip(2)),
            )
            &&& comment(line) is Some ==> t.len() >= 1 && (t[0] == '#' || (t.len() >= 2 && t[0]
                == '/' && t[1] == '/'))
            &&& is_code(line) <==> t.len() > 0 && comment(line) is None
        }),
{
    reveal_strlit("//");
    reveal_strlit("#");
    let t = text::trimmed(line);
    if t.len() >= 1 && t[0] == '#' {
        assert(t.subrange(0, 1) =~= "#"@);
        if text::begins(t, "//"@) {
            assert(t.subrange(0, 2)[0] == t[0]);
        }
    }
    if t.len() >= 2 && t[0] == '/' && t[1] == '/' {
        assert(t.subrange(0, 2) =~= "//"@);
    }
    if text::begins(t, "//"@) {
        assert(t.subrange(0, 2)[0] == t[0]);
        assert(t.subrange(0, 2)[1] == t[1]);
    } else if text::begins(t, "#"@) {
        assert(t.subrange(0, 1)[0] == t[0]);
    }
}

/// An entry is split at its first colon, be it a narrow or a wide one.
pub proof fn lemma_entry(key: Seq<char>, colon: char, value: Seq<char>)
    requires
        colon == ':' || colon == '：',
        !key.contains(':'),
        !key.contains('：'),
    ensures
        entry(key.push(colon) + value) == Some((text::trimmed(key), text::trimmed(value))),
        entry(key) is None,
{
    let body = key.push(colon) + value;
    assert forall|i: int| 0 <= i < key.len() implies #[trigger] body[i] != ':' && body[i]
        != '：' by {
        assert(key[i] != ':');
        assert(key[i] != '：');
    }
    assert(body[key.len() as int] == colon);
    lemma_colon(body, 0, key.len() as int);
    assert forall|i: int| 0 <= i < key.len() implies #[trigger] key[i] != ':' && key[i]
        != '：' by {
        assert(key.contains(key[i]));
    }
    lemma_colon(key, 0, key.len() as int);
    assert(body.take(key.len() as int) =~= key);
    assert(body.skip(key.len() as int + 1) =~= value);
}

proof fn lemma_colon(s: Seq<char>, from: int, at: int)
    requires
        0 <= from <= at <= s.len(),
        forall|i: int| from <= i < at ==> #[trigger] s[i] != ':' && s[i] != '：',
    ensures
        colon_from(s, from) == colon_from(s, at),
    decreases at - from,
{
    if from < at {
        assert(s[from] != ':');
        lemma_colon(s, from + 1, at);
    }
}

/// How many times a character stands in a text.
pub open spec fn times(s: Seq<char>, c: char) -> nat {
    s.filter(|d: char| d == c).len()
}

/// In a text without quotation marks the braces that are open are those that were opened, less those
/// that were closed.
pub proof fn lemma_braces_are_counted(s: Seq<char>, n: nat)
    requires
        n <= s.len(),
        !s.contains('"'),
    ensures
        braces(s, n).depth == times(s.take(n as int), '{') - times(s.take(n as int), '}'),
        braces(s, n).opened <==> s.take(n as int).contains('{'),
        !braces(s, n).quoted,
        !braces(s, n).escaped,
    decreases n,
{
    reveal(Seq::filter);
    if n > 0 {
        lemma_braces_are_counted(s, (n - 1) as nat);
        let before = s.take(n - 1);
        let now = s.take(n as int);
        assert(now.drop_last() =~= before);
        assert(now.last() == s[n - 1]);
        assert(s[n - 1] != '"') by {
            assert(s.contains(s[n - 1]));
        }
        if before.contains('{') {
            let i = before.index_of('{');
            assert(now[i] == '{');
        }
        if now.contains('{') {
            let i = now.index_of('{');
            if i < n - 1 {
                assert(before[i] == '{');
            }
        }
        if s[n - 1] == '{' {
            assert(now[n - 1] == '{');
        }
    } else {
        assert(s.take(0) =~= Seq::empty());
    }
}

/// Braces between quotation marks do not count.
pub proof fn lemma_quoted_braces(a: Seq<char>, q: Seq<char>)
    requires
        !braces(a, a.len()).quoted,
        !braces(a, a.len()).escaped,
        !q.contains('"'),
        !q.contains('\\'),
    ensures
        ({
            let whole = a.push('"') + q.push('"');
            braces(whole, whole.len()) == braces(a, a.len())
        }),
{
    let whole = a.push('"') + q.push('"');
    assert(whole.take(a.len() as int) =~= a);
    lemma_braces_of_first(whole, a, a.len());
    let start = braces(a, a.len());
    assert(whole[a.len() as int] == '"');
    assert(braces(whole, a.len() + 1) == Braces { quoted: true, ..start });
    lemma_braces_inside(whole, a.len() + 1, q.len(), q, start);
    let last = (a.len() + 1 + q.len()) as nat;
    assert(whole[last as int] == '"');
    assert(whole.len() == last + 1);
}

proof fn lemma_braces_of_first(s: Seq<char>, a: Seq<char>, n: nat)
    requires
        n <= a.len() <= s.len(),
        s.take(a.len() as int) == a,
    ensures
        braces(s, n) == braces(a, n),
    decreases n,
{
    if n > 0 {
        lemma_braces_of_first(s, a, (n - 1) as nat);
        assert(s.take(a.len() as int)[n - 1] == s[n - 1]);
    }
}

proof fn lemma_braces_inside(s: Seq<char>, from: nat, n: nat, q: Seq<char>, start: Braces)
    requires
        n <= q.len(),
        from + q.len() <= s.len(),
        forall|i: int| 0 <= i < q.len() ==> s[from + i] == #[trigger] q[i],
        !q.contains('"'),
        !q.contains('\\'),
        !start.quoted,
        !start.escaped,
        braces(s, from) == (Braces { quoted: true, ..start }),
    ensures
        braces(s, from + n) == (Braces { quoted: true, ..start }),
    decreases n,
{
    if n > 0 {
        lemma_braces_inside(s, from, (n - 1) as nat, q, start);
        let c = q[n - 1];
        assert(s[from + (n - 1)] == c);
        assert(q.contains(c));
        assert(c != '"' && c != '\\');
    }
}

/// A time is read alike with and without the letter for seconds behind it.
pub proof fn lemma_seconds(n: u64)
    ensures
        seconds(text::decimal(n as nat)) == Some(n as nat),
        seconds(text::decimal(n as nat).push('s')) == Some(n as nat),
{
    reveal_strlit("s");
    let d = text::decimal(n as nat);
    text::lemma_decimal_reads_back(n as nat);
    assert(text::is_digit(d[0]) && text::is_digit(d[d.len() - 1]));
    assert(!text::finishes(d, "s"@)) by {
        if text::finishes(d, "s"@) {
            assert(d.subrange(d.len() - 1, d.len() - 1 + 1)[0] == d[d.len() - 1]);
        }
    }
    let e = d.push('s');
    assert(e.subrange(e.len() - 1, e.len() - 1 + 1) =~= "s"@);
    assert(e.drop_last() =~= d);
    let ends = text::lemma_trimmed(d);
    assert(ends.0 == 0) by {
        if ends.0 > 0 {
            assert(text::is_space(d[0]));
        }
    }
    assert(ends.1 == d.len()) by {
        if ends.1 < d.len() {
            assert(text::is_space(d[d.len() - 1]));
        }
    }
    assert(text::trimmed(d) =~= d);
}

/// The names of a list are its parts without the white space around them, but for those that hold
/// nothing else.
pub proof fn lemma_names_in(parts: Seq<Seq<char>>, n: nat, name: Seq<char>)
    requires
        n <= parts.len(),
    ensures
        names_in(parts, n).contains(name) <==> name.len() > 0 && exists|i: int|
            0 <= i < n && text::trimmed(#[trigger] parts[i]) == name,
    decreases n,
{
    if n > 0 {
        let before = names_in(parts, (n - 1) as nat);
        let now = names_in(parts, n);
        let p = text::trimmed(parts[n - 1]);
        lemma_names_in(parts, (n - 1) as nat, name);
        if p.len() > 0 {
            assert(now == before.push(p));
            assert(now[before.len() as int] == p);
            if before.contains(name) {
                let i = before.index_of(name);
                assert(now[i] == name);
            }
            if now.contains(name) {
                let i = now.index_of(name);
                if i < before.len() {
                    assert(before[i] == name);
                }
            }
        }
    }
}

/// An entry without a value says nothing, and an entry's name is read alike in upper and lower case.
pub proof fn lemma_entry_name(m: Metadata, key: Seq<char>, value: Seq<char>)
    ensures
        with_entry(m, key, Seq::empty()) == m,
        with_entry(m, key, value) == with_entry(m, text::lowered(key), value),
        with_entry(m, key, value).parameters == m.parameters,
{
    text::lemma_lowered_twice(key);
}

/// An entry sets what its name says, the last one of a name going before those above it.
pub proof fn lemma_entries(m: Metadata, value: Seq<char>)
    requires
        value.len() > 0,
    ensures
        with_entry(m, "description"@, value).description_en == Some(value),
        with_entry(m, "描述"@, value).description_zh == Some(value),
        with_entry(m, "功能介绍"@, value).description_zh == Some(value),
        with_entry(m, "display name"@, value).name_en == Some(value),
        with_entry(m, "显示名称"@, value).name_zh == Some(value),
        with_entry(m, "id"@, value).id == Some(value),
        with_entry(m, "group"@, value).groups == name_list(value),
        seconds(value) matches Some(n) ==> with_entry(m, "timeout"@, value).timeout == Some(
            n as u64,
        ),
        seconds(value) is None ==> with_entry(m, "timeout"@, value) == m,
        text::lowered(value) == "flags"@ ==> with_entry(m, "argv"@, value).argv == Some(
            ArgvMode::Flags,
        ),
        text::lowered(value) == "off"@ ==> with_entry(m, "argv"@, value).argv == Some(
            ArgvMode::Off,
        ),
{
    reveal_strlit("description");
    reveal_strlit("描述");
    reveal_strlit("功能介绍");
    reveal_strlit("display name");
    reveal_strlit("显示名称");
    reveal_strlit("id");
    reveal_strlit("group");
    reveal_strlit("timeout");
    reveal_strlit("argv");
    reveal_strlit("flags");
    reveal_strlit("off");
    assert(text::lowered("description"@) =~= "description"@);
    assert(text::lowered("描述"@) =~= "描述"@);
    assert(text::lowered("功能介绍"@) =~= "功能介绍"@);
    assert(text::lowered("display name"@) =~= "display name"@);
    assert(text::lowered("显示名称"@) =~= "显示名称"@);
    assert(text::lowered("id"@) =~= "id"@);
    assert(text::lowered("group"@) =~= "group"@);
    assert(text::lowered("timeout"@) =~= "timeout"@);
    assert(text::lowered("argv"@) =~= "argv"@);
    assert("描述"@[0] == '描' && "id"@[0] == 'i' && "描述"@.len() == 2 && "id"@.len() == 2);
    assert("功能介绍"@[0] == '功' && "显示名称"@[0] == '显' && "argv"@[0] == 'a');
    assert("功能介绍"@.len() == 4 && "显示名称"@.len() == 4 && "argv"@.len() == 4);
    assert("description"@.len() == 11 && "display name"@.len() == 12);
    assert("group"@.len() == 5 && "timeout"@.len() == 7);
    assert("flags"@.len() == 5 && "off"@.len() == 3);
}

/// The English description goes before the Chinese one.
pub proof fn lemma_description(m: Metadata)
    ensures
        m.description_en is Some ==> description(m) == m.description_en,
        m.description_en is None ==> description(m) == m.description_zh,
{
}

/// A script has the id that its header gives, where that can be one as it stands, and else the one
/// that its file's name gives.
pub proof fn lemma_script_id(header: &Option<String>, stem: &str, r: Option<String>)
    requires
        call_ensures(script_id, (header, stem), r),
    ensures
        *header matches Some(h) ==> (script_name(h@) == Some(h@) ==> text::opt(r) == Some(h@)),
        *header matches Some(h) ==> (script_name(h@) != Some(h@) ==> text::opt(r) == script_name(
            stem@,
        )),
        *header is None ==> text::opt(r) == script_name(stem@),
{
}

/// An id holds letters, digits and underscores alone, and there is none where a name holds no letter
/// and no digit.
pub proof fn lemma_normalized(stem: &str, r: Option<String>)
    requires
        call_ensures(normalize_script_id, (stem,), r),
    ensures
        r is None <==> forall|i: int|
            0 <= i < stem@.len() ==> !text::is_plain(#[trigger] stem@[i]),
        r matches Some(id) ==> id@.len() > 0 && !text::is_digit(id@[0]),
        r matches Some(id) ==> forall|i: int|
            0 <= i < id@.len() ==> text::is_plain(#[trigger] id@[i]) || id@[i] == '_',
        r matches Some(id) ==> (id@.len() == stem@.len() || id@.len() == stem@.len() + 7),
{
    reveal_strlit("script_");
    let prefix = "script_"@;
    assert(prefix.len() == 7);
    assert forall|i: int| 0 <= i < 7 implies text::is_plain(#[trigger] prefix[i]) || prefix[i]
        == '_' by {
        assert(i == 0 || i == 1 || i == 2 || i == 3 || i == 4 || i == 5 || i == 6);
    }
    match r {
        Some(id) => {
            assert forall|i: int| 0 <= i < id@.len() implies text::is_plain(#[trigger] id@[i])
                || id@[i] == '_' by {
                if text::is_digit(stem@[0]) {
                    if i >= 7 {
                        assert(id@[i] == underscored(stem@)[i - 7]);
                    } else {
                        assert(id@[i] == prefix[i]);
                    }
                } else {
                    assert(id@[i] == underscored(stem@)[i]);
                }
            }
        },
        None => {},
    }
}

/// A text without quotation marks is complete where it opens a brace and closes as many as it opens.
pub proof fn lemma_complete(s: Seq<char>)
    requires
        !s.contains('"'),
    ensures
        complete(s) <==> s.contains('{') && times(s, '{') == times(s, '}'),
{
    lemma_braces_are_counted(s, s.len());
    assert(s.take(s.len() as int) =~= s);
}

/// A text that ends between quotation marks is not complete.
pub proof fn lemma_open_quotes(a: Seq<char>, q: Seq<char>)
    requires
        !braces(a, a.len()).quoted,
        !braces(a, a.len()).escaped,
        !q.contains('"'),
        !q.contains('\\'),
    ensures
        !complete(a.push('"') + q),
{
    let whole = a.push('"') + q;
    assert(whole.take(a.len() as int) =~= a);
    lemma_braces_of_first(whole, a, a.len());
    let start = braces(a, a.len());
    assert(whole[a.len() as int] == '"');
    assert(braces(whole, a.len() + 1) == Braces { quoted: true, ..start });
    lemma_braces_inside(whole, a.len() + 1, q.len(), q, start);
}

}
