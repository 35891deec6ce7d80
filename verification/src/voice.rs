//! Choosing a microphone.

use crate::json::{self, Doc, Json};
use crate::text;
use vstd::prelude::*;

verus! {

/// A source of sound: the name under which it is set, and what it is called.
#[derive(Debug, Clone, PartialEq, Eq)]
pub struct InputSource {
    pub name: String,
    pub label: String,
}

/// A source of sound, apart from how it is kept.
pub struct Source {
    pub name: Seq<char>,
    pub label: Seq<char>,
}

impl View for InputSource {
    type V = Source;

    open spec fn view(&self) -> Source {
        Source { name: self.name@, label: self.label@ }
    }
}

/// Sources apart from how they are kept.
pub open spec fn source_list(v: Seq<InputSource>) -> Seq<Source> {
    v.map_values(|s: InputSource| s@)
}

/// A source that the sound server tells of: one with a name that is not what a loudspeaker plays.
/// It is called by its description where it has one.
pub open spec fn server_source(d: Doc) -> Option<Source> {
    match d.text_at("name"@) {
        None => None,
        Some(n) => {
            let name = text::trimmed(n);
            if name.len() == 0 || text::finishes(name, ".monitor"@) {
                None
            } else {
                let label = text::trimmed(d.text_or("description"@, ""@));
                Some(
                    Source {
                        name,
                        label: if label.len() == 0 {
                            name
                        } else {
                            label
                        },
                    },
                )
            }
        },
    }
}

/// The sources among the first `n` that the sound server tells of.
pub open spec fn server_sources(list: Seq<Doc>, n: nat) -> Seq<Source>
    decreases n,
{
    if n == 0 {
        Seq::empty()
    } else {
        let before = server_sources(list, (n - 1) as nat);
        match server_source(list[n - 1]) {
            Some(s) => before.push(s),
            None => before,
        }
    }
}

/// Whether a device's name is a sound card's.
pub open spec fn is_card(name: Seq<char>) -> bool {
    text::mentions(name, "CARD="@) && !text::begins(name, "surround"@)
}

/// The sound cards among the first `n` devices.
pub open spec fn cards(names: Seq<Seq<char>>, n: nat) -> Seq<Seq<char>>
    decreases n,
{
    if n == 0 {
        Seq::empty()
    } else {
        let before = cards(names, (n - 1) as nat);
        if is_card(names[n - 1]) {
            before.push(names[n - 1])
        } else {
            before
        }
    }
}

/// The sources that can be chosen: those of the sound server, and where it has none the sound
/// cards, which are called by their names.
pub open spec fn choices(server: Seq<Doc>, devices: Seq<Seq<char>>) -> Seq<Source> {
    let told = server_sources(server, server.len());
    if told.len() > 0 {
        told
    } else {
        cards(devices, devices.len()).map_values(|n: Seq<char>| Source { name: n, label: n })
    }
}

fn read_source(d: &Json) -> (r: Option<InputSource>)
    ensures
        match r {
            Some(s) => server_source(d@) == Some(s@),
            None => server_source(d@) is None,
        },
{
    match d.text_at("name") {
        None => None,
        Some(n) => {
            let name = text::trim(n);
            if name.as_str().is_empty() || text::ends_with(name.as_str(), ".monitor") {
                return None;
            }
            let label = text::trim(d.text_or("description", ""));
            if label.as_str().is_empty() {
                let label = name.clone();
                Some(InputSource { name, label })
            } else {
                Some(InputSource { name, label })
            }
        },
    }
}

/// The sources that the sound server tells of.
pub fn list_pipewire_sources(list: &Vec<Json>) -> (r: Vec<InputSource>)
    ensures
        source_list(r@) == server_sources(json::docs(list@), list@.len()),
{
    let ghost ds = json::docs(list@);
    let mut out: Vec<InputSource> = Vec::new();
    let mut i: usize = 0;
    assert(source_list(out@) =~= server_sources(ds, 0));
    while i < list.len()
        invariant
            i <= list@.len(),
            ds == json::docs(list@),
            source_list(out@) == server_sources(ds, i as nat),
        decreases list@.len() - i,
    {
        assert(ds[i as int] == list@[i as int]@);
        if let Some(s) = read_source(&list[i]) {
            let ghost before = out@;
            out.push(s);
            assert(source_list(out@) =~= source_list(before).push(s@));
        }
        i = i + 1;
    }
    out
}

/// The sound cards among the devices.
pub fn list_input_devices(names: &Vec<String>) -> (r: Vec<String>)
    ensures
        text::views(r@) == cards(text::views(names@), names@.len()),
{
    let ghost ns = text::views(names@);
    let mut out: Vec<String> = Vec::new();
    let mut i: usize = 0;
    assert(text::views(out@) =~= cards(ns, 0));
    while i < names.len()
        invariant
            i <= names@.len(),
            ns == text::views(names@),
            text::views(out@) == cards(ns, i as nat),
        decreases names@.len() - i,
    {
        assert(ns[i as int] == names@[i as int]@);
        let name = names[i].as_str();
        if text::contains(name, "CARD=") && !text::starts_with(name, "surround") {
            let copy = name.to_owned();
            proof {
                text::lemma_views_push(out@, copy);
            }
            out.push(copy);
        }
        i = i + 1;
    }
    out
}

/// The sources that can be chosen. `server` is what the sound server tells of, nothing where it
/// does not answer.
pub fn list_input_sources(server: &Vec<Json>, devices: &Vec<String>) -> (r: Vec<InputSource>)
    ensures
        source_list(r@) == choices(json::docs(server@), text::views(devices@)),
{
    let told = list_pipewire_sources(server);
    assert(source_list(told@).len() == told@.len());
    if told.len() > 0 {
        return told;
    }
    let names = list_input_devices(devices);
    let ghost all = text::views(names@).map_values(
        |n: Seq<char>| Source { name: n, label: n },
    );
    let mut out: Vec<InputSource> = Vec::new();
    let mut i: usize = 0;
    assert(source_list(out@) =~= all.take(0));
    while i < names.len()
        invariant
            i <= names@.len(),
            all == text::views(names@).map_values(|n: Seq<char>| Source { name: n, label: n }),
            source_list(out@) == all.take(i as int),
        decreases names@.len() - i,
    {
        let ghost before = out@;
        let s = InputSource { name: names[i].clone(), label: names[i].clone() };
        out.push(s);
        assert(source_list(out@) =~= source_list(before).push(s@));
        assert(all.take(i + 1) =~= all.take(i as int).push(all[i as int]));
        i = i + 1;
    }
    assert(all.take(all.len() as int) =~= all);
    out
}

/// No source that can be chosen is what a loudspeaker plays, where the sound server tells of any,
/// and each has a name.
pub proof fn lemma_no_monitors(list: Seq<Doc>, n: nat)
    requires
        n <= list.len(),
    ensures
        forall|i: int|
            0 <= i < server_sources(list, n).len() ==> {
                &&& (#[trigger] server_sources(list, n)[i]).name.len() > 0
                &&& server_sources(list, n)[i].label.len() > 0
                &&& !text::finishes(server_sources(list, n)[i].name, ".monitor"@)
            },
    decreases n,
{
    if n > 0 {
        lemma_no_monitors(list, (n - 1) as nat);
        let before = server_sources(list, (n - 1) as nat);
        let now = server_sources(list, n);
        assert forall|i: int| 0 <= i < now.len() implies {
            &&& (#[trigger] now[i]).name.len() > 0
            &&& now[i].label.len() > 0
            &&& !text::finishes(now[i].name, ".monitor"@)
        } by {
            if i < before.len() {
                assert(now[i] == before[i]);
            }
        }
    }
}

/// Which device is opened.
#[derive(Debug, Clone, Copy, PartialEq, Eq, Structural)]
pub enum DeviceChoice {
    /// The device at this place among the devices.
    Device(usize),
    /// The usual one, led to the source of the sound server that is named.
    Server,
    /// The usual one.
    Usual,
}

/// The first device of that name, from `i` on.
pub open spec fn device_from(names: Seq<Option<String>>, name: Seq<char>, i: int) -> Option<int>
    decreases names.len() - i,
{
    if i < 0 || i >= names.len() {
        None
    } else if names[i] matches Some(n) && n@ == name {
        Some(i)
    } else {
        device_from(names, name, i + 1)
    }
}

/// Which device is opened: the first that has the name that is set; where none has, the name is
/// taken for that of a source of the sound server. A device's name need not be known.
pub fn choose_device(name: &Option<String>, names: &Vec<Option<String>>) -> (r: DeviceChoice)
    ensures
        match name {
            None => r == DeviceChoice::Usual,
            Some(n) => match device_from(names@, n@, 0) {
                Some(i) => r matches DeviceChoice::Device(k) && k == i,
                None => r == DeviceChoice::Server,
            },
        },
{
    match name {
        None => DeviceChoice::Usual,
        Some(n) => {
            let mut i: usize = 0;
            while i < names.len()
                invariant
                    i <= names@.len(),
                    *name == Some(*n),
                    device_from(names@, n@, 0) == device_from(names@, n@, i as int),
                decreases names@.len() - i,
            {
                if let Some(m) = &names[i] {
                    if text::same(m.as_str(), n.as_str()) {
                        return DeviceChoice::Device(i);
                    }
                }
                i = i + 1;
            }
            DeviceChoice::Server
        },
    }
}

/// What is told of the device that was opened: the name of the sound server's source, or the
/// device's own where that is known, and how it sounds.
pub fn describe_device(
    server: &Option<String>,
    device: &Option<String>,
    rate: u32,
    channels: usize,
    format: &str,
) -> (r: String)
    ensures
        r@ == (match server {
            Some(s) => s@,
            None => match device {
                Some(d) => d@,
                None => "unknown"@,
            },
        }) + " ("@ + text::decimal(rate as nat) + "Hz "@ + text::decimal(channels as nat) + "ch "@
            + format@ + ")"@,
{
    let name = match server {
        Some(s) => s.as_str(),
        None => match device {
            Some(d) => d.as_str(),
            None => "unknown",
        },
    };
    let head = text::cat4(name, " (", text::decimal_text(rate as u128).as_str(), "Hz ");
    text::cat5(
        head.as_str(),
        text::decimal_text(channels as u128).as_str(),
        "ch ",
        format,
        ")",
    )
}

/// A source of the sound server is offered where it has a name that is no monitor's, under its
/// description or, without one, under its name.
pub proof fn lemma_server_source(d: Doc)
    ensures
        d.text_at("name"@) is None ==> server_source(d) is None,
        d.text_at("name"@) matches Some(n) ==> {
            let name = text::trimmed(n);
            let label = text::trimmed(d.text_or("description"@, ""@));
            &&& server_source(d) is None <==> name.len() == 0 || text::finishes(name, ".monitor"@)
            &&& server_source(d) matches Some(s) ==> s.name == name && (label.len() > 0 ==> s.label
                == label) && (label.len() == 0 ==> s.label == name)
        },
{
}

/// The cards that are offered are the names that are cards', and no others.
pub proof fn lemma_cards(names: Seq<Seq<char>>, n: nat, name: Seq<char>)
    requires
        n <= names.len(),
    ensures
        cards(names, n).contains(name) <==> text::mentions(name, "CARD="@) && !text::begins(
            name,
            "surround"@,
        ) && exists|i: int| 0 <= i < n && #[trigger] names[i] == name,
    decreases n,
{
    if n > 0 {
        let before = cards(names, (n - 1) as nat);
        let now = cards(names, n);
        lemma_cards(names, (n - 1) as nat, name);
        if is_card(names[n - 1]) {
            assert(now == before.push(names[n - 1]));
            assert(now[before.len() as int] == names[n - 1]);
            if before.contains(name) {
                let i = before.index_of(name);
                assert(now[i] == name);
            }
            if now.contains(name) {
                let i = now.index_of(name);
                if i < before.len() {
                    assert(before[i] == name);
                }
            }
        }
    }
}

/// The devices are offered only where the sound server has no source.
pub proof fn lemma_choices(server: Seq<Doc>, devices: Seq<Seq<char>>, i: int)
    ensures
        server_sources(server, server.len()).len() > 0 ==> choices(server, devices)
            == server_sources(server, server.len()),
        server_sources(server, server.len()).len() == 0 ==> choices(server, devices).len() == cards(
            devices,
            devices.len(),
        ).len(),
        server_sources(server, server.len()).len() == 0 && 0 <= i < choices(server, devices).len()
            ==> choices(server, devices)[i].name == choices(server, devices)[i].label && choices(
            server,
            devices,
        )[i].name == cards(devices, devices.len())[i],
{
}

/// The device of a name is the first one that has it, if there is one.
pub proof fn lemma_device_from(names: Seq<Option<String>>, name: Seq<char>, from: int)
    requires
        0 <= from <= names.len(),
    ensures
        match device_from(names, name, from) {
            Some(i) => from <= i < names.len() && text::opt(names[i]) == Some(name) && forall|k: int|
                from <= k < i ==> text::opt(#[trigger] names[k]) != Some(name),
            None => forall|k: int|
                from <= k < names.len() ==> text::opt(#[trigger] names[k]) != Some(name),
        },
    decreases names.len() - from,
{
    if from < names.len() {
        lemma_device_from(names, name, from + 1);
    }
}

/// The device that is asked for is used where it is there; else the sound server is led to it; and
/// where none is asked for the usual one is used.
pub proof fn lemma_choose_device(
    name: &Option<String>,
    names: &Vec<Option<String>>,
    r: DeviceChoice,
)
    requires
        call_ensures(choose_device, (name, names), r),
    ensures
        *name is None <==> r == DeviceChoice::Usual,
        r matches DeviceChoice::Device(k) ==> k < names@.len() && text::opt(names@[k as int])
            == text::opt(*name) && *name is Some,
        r == DeviceChoice::Server ==> forall|k: int|
            0 <= k < names@.len() ==> text::opt(#[trigger] names@[k]) != text::opt(*name),
{
    match name {
        Some(n) => {
            lemma_device_from(names@, n@, 0);
        },
        None => {},
    }
}

/// Every source of the sound server that can be offered is, and nothing else.
pub proof fn lemma_server_sources(list: Seq<Doc>, n: nat, s: Source)
    requires
        n <= list.len(),
    ensures
        server_sources(list, n).contains(s) <==> exists|i: int|
            0 <= i < n && server_source(#[trigger] list[i]) == Some(s),
    decreases n,
{
    if n > 0 {
        let before = server_sources(list, (n - 1) as nat);
        let now = server_sources(list, n);
        lemma_server_sources(list, (n - 1) as nat, s);
        match server_source(list[n - 1]) {
            Some(t) => {
                assert(now == before.push(t));
                assert(now[before.len() as int] == t);
                if before.contains(s) {
                    let i = before.index_of(s);
                    assert(now[i] == s);
                }
                if now.contains(s) {
                    let i = now.index_of(s);
                    if i < before.len() {
                        assert(before[i] == s);
                    }
                }
            },
            None => {},
        }
    }
}

}
