//! Pictures of the site's statistics pages, which a browser without a screen takes.

use super::error::ToolError;
use crate::encoding;
use crate::json::{self, Doc, Fields, Items, Json};
use crate::text;
use vstd::prelude::*;

verus! {

/// Whether `c` may stand in a page's path.
pub open spec fn allowed(c: char) -> bool {
    text::is_plain(c) || c == '=' || c == '&' || c == '?' || c == '/' || c == '_' || c == '-' || c
        == '.'
}

/// The path without white space around it and without leading slashes.
pub open spec fn page(p: Seq<char>) -> Seq<char> {
    text::without_leading(text::trimmed(p), '/')
}

/// Whether every character may stand in a page's path.
pub open spec fn all_allowed(p: Seq<char>) -> bool {
    forall|i: int| 0 <= i < p.len() ==> allowed(#[trigger] p[i])
}

/// A command that is run.
#[derive(Debug)]
pub struct ShellCommand {
    pub program: String,
    pub args: Vec<String>,
}

/// A command, as a program and its arguments.
pub open spec fn is_command(c: ShellCommand, program: Seq<char>, args: Seq<Seq<char>>) -> bool {
    c.program@ == program && text::views(c.args@) == args
}

/// How a picture is taken.
#[derive(Debug)]
pub struct ShotPlan {
    /// The page.
    pub page: String,
    /// Takes the picture and prints its size.
    pub shoot: ShellCommand,
    /// Does the same with more patience.
    pub again: ShellCommand,
    /// Prints the picture, where it was taken on another machine.
    pub fetch: Option<ShellCommand>,
}

/// Where the picture is.
pub const PICTURE: &'static str = "/tmp/aoe4world-shot.png";

/// The script that takes a picture, up to the height.
pub const SCRIPT_START: &'static str = "timeout 90 docker run --rm --shm-size=256m -v /tmp:/data zenika/alpine-chrome:latest --headless --no-sandbox --disable-gpu --disable-dev-shm-usage --hide-scrollbars --window-size=1360,";

/// The script that takes a picture, from the address on.
pub const SCRIPT_END: &'static str = "' >/dev/null 2>&1; test -s /tmp/aoe4world-shot.png && stat -c %s /tmp/aoe4world-shot.png";

/// The time that the browser gives a page.
pub const BUDGET: u32 = 20000;

/// The time that the browser gives a page when it is tried again.
pub const PATIENT_BUDGET: u32 = 45000;

/// The script that takes a picture of `page` in so many milliseconds.
pub open spec fn script(page: Seq<char>, height: nat, budget: nat) -> Seq<char> {
    SCRIPT_START@ + text::decimal(height) + " --virtual-time-budget="@ + text::decimal(budget)
        + " --screenshot=/data/aoe4world-shot.png '"@ + ("https://aoe4world.com/"@ + page)
        + SCRIPT_END@
}

fn script_text(page: &str, height: u32, budget: u32) -> (r: String)
    ensures
        r@ == script(page@, height as nat, budget as nat),
{
    let mut s = text::cat5(
        SCRIPT_START,
        text::decimal_text(height as u128).as_str(),
        " --virtual-time-budget=",
        text::decimal_text(budget as u128).as_str(),
        " --screenshot=/data/aoe4world-shot.png '",
    );
    s.append(text::cat2("https://aoe4world.com/", page).as_str());
    s.append(SCRIPT_END);
    s
}

/// The height of the picture: the one that is asked for, within limits.
pub open spec fn height_within(height: nat) -> nat {
    if height < 800 {
        800
    } else if height > 6000 {
        6000
    } else {
        height
    }
}

/// The arguments that lead to another machine; none where there is none.
pub open spec fn remote_args(host: Option<Seq<char>>) -> Seq<Seq<char>> {
    match host {
        Some(h) => if text::trimmed(h).len() > 0 {
            Seq::empty().push("-o"@).push("BatchMode=yes"@).push("-o"@).push(
                "ConnectTimeout=8"@,
            ).push("-o"@).push("StrictHostKeyChecking=accept-new"@).push(text::trimmed(h))
        } else {
            Seq::empty()
        },
        None => Seq::empty(),
    }
}

fn push_text(list: &mut Vec<String>, s: &str)
    ensures
        text::views(final(list)@) == text::views(old(list)@).push(s@),
{
    let t = s.to_owned();
    proof {
        text::lemma_views_push(list@, t);
    }
    list.push(t);
}

/// The arguments that lead to the machine that takes pictures; none where it is this one.
pub fn shot_host(host: Option<&str>) -> (r: Vec<String>)
    ensures
        text::views(r@) == remote_args(text::opt_str(host)),
{
    let mut args: Vec<String> = Vec::new();
    assert(text::views(args@) =~= Seq::<Seq<char>>::empty());
    match host {
        Some(h) => {
            let t = text::trim(h);
            if !t.as_str().is_empty() {
                push_text(&mut args, "-o");
                push_text(&mut args, "BatchMode=yes");
                push_text(&mut args, "-o");
                push_text(&mut args, "ConnectTimeout=8");
                push_text(&mut args, "-o");
                push_text(&mut args, "StrictHostKeyChecking=accept-new");
                push_text(&mut args, t.as_str());
            }
        },
        None => {},
    }
    args
}

/// The program and the arguments that run a script: here, or on another machine.
pub open spec fn run_program(remote: Seq<Seq<char>>) -> Seq<char> {
    if remote.len() > 0 {
        "ssh"@
    } else {
        "sh"@
    }
}

/// The arguments that run a script: here, or on another machine.
pub open spec fn run_args(remote: Seq<Seq<char>>, s: Seq<char>) -> Seq<Seq<char>> {
    if remote.len() > 0 {
        remote.push(s)
    } else {
        remote.push("-c"@).push(s)
    }
}

fn run_command(host: Option<&str>, s: &str) -> (r: ShellCommand)
    ensures
        is_command(
            r,
            run_program(remote_args(text::opt_str(host))),
            run_args(remote_args(text::opt_str(host)), s@),
        ),
{
    let mut args = shot_host(host);
    let ghost remote = text::views(args@);
    assert(remote.len() == args@.len());
    if args.len() > 0 {
        push_text(&mut args, s);
        ShellCommand { program: "ssh".to_owned(), args }
    } else {
        push_text(&mut args, "-c");
        push_text(&mut args, s);
        ShellCommand { program: "sh".to_owned(), args }
    }
}

/// The script that prints the picture.
pub const PRINT_SCRIPT: &'static str = "cat /tmp/aoe4world-shot.png";

/// How a picture of a page is taken. Only statistics pages are, and only where the path holds
/// nothing that a shell would take for something else.
pub fn plan_shot(path: &str, height: u32, host: Option<&str>) -> (r: Result<ShotPlan, ToolError>)
    ensures
        ({
            let p = page(path@);
            let remote = remote_args(text::opt_str(host));
            let h = height_within(height as nat);
            if p.len() == 0 || !all_allowed(p) {
                r matches Err(ToolError::PathRefused(q)) && q@ == path@
            } else if !text::begins(p, "stats/"@) {
                r matches Err(ToolError::PageRefused(q)) && q@ == path@
            } else {
                r matches Ok(plan) && {
                    &&& plan.page@ == p
                    &&& is_command(
                        plan.shoot,
                        run_program(remote),
                        run_args(remote, script(p, h, BUDGET as nat)),
                    )
                    &&& is_command(
                        plan.again,
                        run_program(remote),
                        run_args(remote, script(p, h, PATIENT_BUDGET as nat)),
                    )
                    &&& match plan.fetch {
                        Some(c) => remote.len() > 0 && is_command(
                            c,
                            "ssh"@,
                            remote.push(PRINT_SCRIPT@),
                        ),
                        None => remote.len() == 0,
                    }
                }
            }
        }),
{
    let trimmed = text::trim(path);
    let p = text::trim_start_of(trimmed.as_str(), '/');
    let cs = text::chars(p.as_str());
    let mut i: usize = 0;
    while i < cs.len()
        invariant
            i <= cs@.len(),
            cs@ == p@,
            p@ == page(path@),
            forall|k: int| 0 <= k < i ==> allowed(#[trigger] p@[k]),
        decreases cs@.len() - i,
    {
        let c: char = cs[i];
        if !(text::plain(c) || c == '=' || c == '&' || c == '?' || c == '/' || c == '_' || c == '-'
            || c == '.') {
            assert(!allowed(p@[i as int]));
            return Err(ToolError::PathRefused(path.to_owned()));
        }
        i = i + 1;
    }
    if p.as_str().is_empty() {
        return Err(ToolError::PathRefused(path.to_owned()));
    }
    if !text::starts_with(p.as_str(), "stats/") {
        return Err(ToolError::PageRefused(path.to_owned()));
    }
    let h: u32 = if height < 800 {
        800
    } else if height > 6000 {
        6000
    } else {
        height
    };
    let shoot = run_command(host, script_text(p.as_str(), h, BUDGET).as_str());
    let again = run_command(host, script_text(p.as_str(), h, PATIENT_BUDGET).as_str());
    let mut args = shot_host(host);
    let ghost remote = text::views(args@);
    assert(remote.len() == args@.len());
    let fetch = if args.len() > 0 {
        push_text(&mut args, PRINT_SCRIPT);
        Some(ShellCommand { program: "ssh".to_owned(), args })
    } else {
        None
    };
    Ok(ShotPlan { page: p, shoot, again, fetch })
}

/// The size that a command has printed; zero where it has printed none.
pub open spec fn printed_size(s: Seq<char>) -> nat {
    match text::unsigned(text::trimmed(s), u64::MAX as nat) {
        Some(n) => n,
        None => 0,
    }
}

/// The size that a command has printed.
pub fn parse_size(printed: &str) -> (r: u64)
    ensures
        r == printed_size(printed@),
{
    match text::parse_unsigned(text::trim(printed).as_str(), u64::MAX) {
        Some(n) => n,
        None => 0,
    }
}

/// A smaller picture is taken for an empty page.
pub const BLANK_BELOW: u64 = 100_000;

/// Whether the picture is taken again.
pub fn needs_retry(size: u64) -> (r: bool)
    ensures
        r == (size < BLANK_BELOW),
{
    size < BLANK_BELOW
}

/// Whether the picture can be used.
pub fn check_size(size: u64) -> (r: Result<(), ToolError>)
    ensures
        if size == 0 {
            r matches Err(ToolError::NoPicture)
        } else if size < BLANK_BELOW {
            r matches Err(ToolError::BlankPicture(n)) && n == size
        } else {
            r is Ok
        },
{
    if size == 0 {
        Err(ToolError::NoPicture)
    } else if size < BLANK_BELOW {
        Err(ToolError::BlankPicture(size))
    } else {
        Ok(())
    }
}

/// Whether a picture came back from the other machine.
pub fn check_fetched(success: bool, len: usize) -> (r: Result<(), ToolError>)
    ensures
        if !success || len == 0 {
            r matches Err(ToolError::EmptyPicture)
        } else {
            r is Ok
        },
{
    if !success || len == 0 {
        Err(ToolError::EmptyPicture)
    } else {
        Ok(())
    }
}

/// What is said with the picture.
pub open spec fn caption(page: Seq<char>, size: nat) -> Seq<char> {
    "已截取官方统计页 https://aoe4world.com/"@ + page + " ("@ + text::decimal(size)
        + " bytes)。直接把图发给用户;若用户要的是热力网格但图里只见表格,可用更大的 height(如 4000)重截。"@
}

/// The picture and what is said with it.
pub open spec fn shot_content(page: Seq<char>, size: nat, png: Seq<u8>) -> Doc {
    Doc::Array(
        json::items().push(
            Doc::Object(
                json::fields().push(("type"@, Doc::Text("text"@))).push(
                    ("text"@, Doc::Text(caption(page, size))),
                ),
            ),
        ).push(
            Doc::Object(
                json::fields().push(("type"@, Doc::Text("image"@))).push(
                    ("data"@, Doc::Text(encoding::base64(png))),
                ).push(("mimeType"@, Doc::Text("image/png"@))),
            ),
        ),
    )
}

/// The picture and what is said with it.
pub fn screenshot_stats(page: &str, size: u64, png: &[u8]) -> (r: Json)
    ensures
        r@ == shot_content(page@, size as nat, png@),
{
    let said = text::cat5(
        "已截取官方统计页 https://aoe4world.com/",
        page,
        " (",
        text::decimal_text(size as u128).as_str(),
        " bytes)。直接把图发给用户;若用户要的是热力网格但图里只见表格,可用更大的 height(如 4000)重截。",
    );
    let words = Fields::new().with("type", json::string("text")).with(
        "text",
        json::string(said.as_str()),
    ).build();
    let picture = Fields::new().with("type", json::string("image")).with(
        "data",
        json::string(encoding::to_base64(png).as_str()),
    ).with("mimeType", json::string("image/png")).build();
    Items::new().with(words).with(picture).build()
}

/// A picture is between 800 and 6000 high, and as high as is asked for within that.
pub proof fn lemma_height_within(height: nat)
    ensures
        800 <= height_within(height) <= 6000,
        800 <= height <= 6000 ==> height_within(height) == height,
        height < 800 ==> height_within(height) == 800,
        height > 6000 ==> height_within(height) == 6000,
{
}

/// The picture is taken on another machine exactly where its name holds more than white space, and
/// then that name comes last before the script.
pub proof fn lemma_where_it_runs(host: Option<Seq<char>>, s: Seq<char>)
    ensures
        ({
            let remote = remote_args(host);
            let args = run_args(remote, s);
            &&& args.len() > 0 && args.last() == s
            &&& host is Some && text::trimmed(host->0).len() > 0 ==> run_program(remote) == "ssh"@
                && args[args.len() - 2] == text::trimmed(host->0)
            &&& host is None || text::trimmed(host->0).len() == 0 ==> run_program(remote) == "sh"@
                && args == seq!["-c"@, s]
        }),
{
    let remote = remote_args(host);
    if host is None || text::trimmed(host->0).len() == 0 {
        assert(run_args(remote, s) =~= seq!["-c"@, s]);
    }
}

/// The script opens the page that is asked for, in the height and within the time that are given.
pub proof fn lemma_script(page: Seq<char>, height: nat, budget: nat)
    ensures
        text::mentions(script(page, height, budget), "https://aoe4world.com/"@ + page),
        text::mentions(script(page, height, budget), text::decimal(height)),
        text::mentions(
            script(page, height, budget),
            " --virtual-time-budget="@ + text::decimal(budget),
        ),
{
    let a = SCRIPT_START@;
    let b = text::decimal(height);
    let c = " --virtual-time-budget="@;
    let d = text::decimal(budget);
    let e = " --screenshot=/data/aoe4world-shot.png '"@;
    let f = "https://aoe4world.com/"@ + page;
    let g = SCRIPT_END@;
    let whole = script(page, height, budget);
    text::lemma_mentions_middle(a, b, c + d + e + f + g);
    assert(a + b + (c + d + e + f + g) =~= whole);
    text::lemma_mentions_middle(a + b, c + d, e + f + g);
    assert((a + b) + (c + d) + (e + f + g) =~= whole);
    text::lemma_mentions_middle(a + b + c + d + e, f, g);
}

/// The page that is opened has neither white space around it nor a slash in front.
pub proof fn lemma_page(p: Seq<char>)
    ensures
        page(p).len() > 0 ==> page(p)[0] != '/' && !text::is_space(page(p).last()),
{
    let t = text::trimmed(p);
    let ends = text::lemma_trimmed(p);
    let a = text::lemma_without_leading(t, '/');
}

/// A picture that has to be taken again would be refused as it is, and one that has not is taken.
pub proof fn lemma_sizes(size: u64, again: bool, checked: Result<(), ToolError>)
    requires
        call_ensures(needs_retry, (size,), again),
        call_ensures(check_size, (size,), checked),
    ensures
        again <==> checked is Err,
        checked is Ok <==> size >= 100_000,
        size == 0 ==> checked matches Err(ToolError::NoPicture),
        0 < size < 100_000 ==> (checked matches Err(ToolError::BlankPicture(n)) && n == size),
{
}

/// What was fetched is taken only where fetching went well and brought something.
pub proof fn lemma_fetched(success: bool, len: usize, r: Result<(), ToolError>)
    requires
        call_ensures(check_fetched, (success, len), r),
    ensures
        r is Ok <==> success && len > 0,
{
}

/// A size that is printed is read as it is, and what is no size as none.
pub proof fn lemma_printed_size(printed: &str, r: u64, n: u64)
    requires
        call_ensures(parse_size, (printed,), r),
    ensures
        text::trimmed(printed@) == text::decimal(n as nat) ==> r == n,
        !text::is_number(text::trimmed(printed@)) && !(text::trimmed(printed@).len() > 0
            && text::trimmed(printed@)[0] == '+') ==> r == 0,
{
    text::lemma_decimal_reads_back(n as nat);
    let d = text::decimal(n as nat);
    assert(text::is_digit(d[0]));
}

/// A page's address holds letters, digits and a few signs, and none that a shell would read.
pub proof fn lemma_allowed(c: char)
    ensures
        allowed('/') && allowed('_') && allowed('-') && allowed('.') && allowed('=') && allowed('&')
            && allowed('?'),
        text::is_plain(c) ==> allowed(c),
        !allowed(' ') && !allowed('\'') && !allowed('"') && !allowed(';') && !allowed('$')
            && !allowed('`') && !allowed('|') && !allowed('\n') && !allowed('\\') && !allowed('(')
            && !allowed('>'),
        allowed(c) ==> text::is_plain(c) || c == '=' || c == '&' || c == '?' || c == '/' || c == '_'
            || c == '-' || c == '.',
{
}

/// A picture that is planned is of a page of statistics. It is taken by a script that opens that page
/// in a height within the bounds, and taken again by one that waits longer; and it is fetched exactly
/// where it is taken on another machine.
pub proof fn lemma_plan(path: &str, height: u32, host: Option<&str>, r: Result<ShotPlan, ToolError>)
    requires
        call_ensures(plan_shot, (path, height, host), r),
    ensures
        r matches Ok(p) ==> text::begins(p.page@, "stats/"@) && all_allowed(p.page@),
        r matches Ok(p) ==> p.shoot.args@.len() > 0 && p.shoot.args@.last()@ == script(
            p.page@,
            height_within(height as nat),
            20000,
        ),
        r matches Ok(p) ==> p.again.args@.len() > 0 && p.again.args@.last()@ == script(
            p.page@,
            height_within(height as nat),
            45000,
        ),
        r matches Ok(p) ==> (p.fetch is Some <==> host is Some && text::trimmed(host->0@).len() > 0),
        r matches Ok(p) ==> (p.shoot.program@ == "ssh"@ <==> p.fetch is Some),
        r is Err <==> page(path@).len() == 0 || !all_allowed(page(path@)) || !text::begins(
            page(path@),
            "stats/"@,
        ),
{
    reveal_strlit("ssh");
    reveal_strlit("sh");
    assert("ssh"@.len() == 3 && "sh"@.len() == 2);
    let h = text::opt_str(host);
    match r {
        Ok(p) => {
            let a = text::views(p.shoot.args@);
            let b = text::views(p.again.args@);
            lemma_where_it_runs(h, script(p.page@, height_within(height as nat), 20000));
            lemma_where_it_runs(h, script(p.page@, height_within(height as nat), 45000));
            assert(a.last() == p.shoot.args@.last()@);
            assert(b.last() == p.again.args@.last()@);
        },
        Err(_) => {},
    }
}

}
