//! Messages that hold pictures and videos.

use crate::encoding;
use crate::json::{self, Doc, Fields, Items, Json};
use crate::text;
use vstd::prelude::*;

verus! {

/// A part of a message.
#[derive(Debug)]
pub enum ChatContentPart {
    Text { text: String },
    ImageUrl { url: String },
    VideoUrl { url: String },
}

/// What a message holds.
#[derive(Debug)]
pub enum ChatContent {
    Text(String),
    Parts(Vec<ChatContentPart>),
}

/// A message.
#[derive(Debug)]
pub struct ChatMessage {
    pub role: String,
    pub content: ChatContent,
}

/// A part of a message, apart from how it is kept.
pub enum Part {
    Text(Seq<char>),
    Image(Seq<char>),
    Video(Seq<char>),
}

impl View for ChatContentPart {
    type V = Part;

    open spec fn view(&self) -> Part {
        match self {
            ChatContentPart::Text { text } => Part::Text(text@),
            ChatContentPart::ImageUrl { url } => Part::Image(url@),
            ChatContentPart::VideoUrl { url } => Part::Video(url@),
        }
    }
}

/// The parts of a message.
pub open spec fn parts_of(v: Seq<ChatContentPart>) -> Seq<Part> {
    v.map_values(|p: ChatContentPart| p@)
}

/// The part of a message as it is sent.
pub open spec fn part_doc(p: Part) -> Doc {
    match p {
        Part::Text(t) => Doc::Object(
            json::fields().push(("type"@, Doc::Text("text"@))).push(("text"@, Doc::Text(t))),
        ),
        Part::Image(u) => Doc::Object(
            json::fields().push(("type"@, Doc::Text("image_url"@))).push(
                (
                    "image_url"@,
                    Doc::Object(json::fields().push(("url"@, Doc::Text(u)))),
                ),
            ),
        ),
        Part::Video(u) => Doc::Object(
            json::fields().push(("type"@, Doc::Text("video_url"@))).push(
                (
                    "video_url"@,
                    Doc::Object(json::fields().push(("url"@, Doc::Text(u)))),
                ),
            ),
        ),
    }
}

impl ChatContentPart {
    /// The part as it is sent.
    pub fn to_json(&self) -> (r: Json)
        ensures
            r@ == part_doc(self@),
    {
        match self {
            ChatContentPart::Text { text } => Fields::new().with("type", json::string("text")).with(
                "text",
                json::string(text.as_str()),
            ).build(),
            ChatContentPart::ImageUrl { url } => {
                let inner = Fields::new().with("url", json::string(url.as_str())).build();
                Fields::new().with("type", json::string("image_url")).with(
                    "image_url",
                    inner,
                ).build()
            },
            ChatContentPart::VideoUrl { url } => {
                let inner = Fields::new().with("url", json::string(url.as_str())).build();
                Fields::new().with("type", json::string("video_url")).with(
                    "video_url",
                    inner,
                ).build()
            },
        }
    }
}

/// What a message holds, as it is sent.
pub open spec fn content_doc(c: ChatContent) -> Doc {
    match c {
        ChatContent::Text(t) => Doc::Text(t@),
        ChatContent::Parts(v) => Doc::Array(parts_of(v@).map_values(|p: Part| part_doc(p))),
    }
}

impl ChatMessage {
    /// The message as it is sent.
    pub fn to_json(&self) -> (r: Json)
        ensures
            r@ == Doc::Object(
                json::fields().push(("role"@, Doc::Text(self.role@))).push(
                    ("content"@, content_doc(self.content)),
                ),
            ),
    {
        let content = match &self.content {
            ChatContent::Text(t) => json::string(t.as_str()),
            ChatContent::Parts(v) => {
                let ghost all = parts_of(v@).map_values(|p: Part| part_doc(p));
                let mut items = Items::new();
                let mut i: usize = 0;
                assert(all.take(0) =~= json::items());
                while i < v.len()
                    invariant
                        i <= v@.len(),
                        all == parts_of(v@).map_values(|p: Part| part_doc(p)),
                        items@ == all.take(i as int),
                    decreases v@.len() - i,
                {
                    items = items.with(v[i].to_json());
                    assert(all.take(i + 1) =~= all.take(i as int).push(all[i as int]));
                    i = i + 1;
                }
                assert(all.take(all.len() as int) =~= all);
                items.build()
            },
        };
        Fields::new().with("role", json::string(self.role.as_str())).with(
            "content",
            content,
        ).build()
    }

    /// What the system says.
    pub fn system(words: &str) -> (r: ChatMessage)
        ensures
            r.role@ == "system"@,
            r.content matches ChatContent::Text(t) && t@ == words@,
    {
        ChatMessage { role: "system".to_owned(), content: ChatContent::Text(words.to_owned()) }
    }

    fn with_media(prompt: &str, part: ChatContentPart) -> (r: ChatMessage)
        ensures
            r.role@ == "user"@,
            r.content matches ChatContent::Parts(v) && parts_of(v@) == Seq::empty().push(
                Part::Text(prompt@),
            ).push(part@),
    {
        let mut v: Vec<ChatContentPart> = Vec::new();
        let ghost p = part@;
        v.push(ChatContentPart::Text { text: prompt.to_owned() });
        v.push(part);
        assert(parts_of(v@) =~= Seq::empty().push(Part::Text(prompt@)).push(p));
        ChatMessage { role: "user".to_owned(), content: ChatContent::Parts(v) }
    }

    /// What a user asks of a picture.
    pub fn user_with_image(prompt: &str, url: &str) -> (r: ChatMessage)
        ensures
            r.role@ == "user"@,
            r.content matches ChatContent::Parts(v) && parts_of(v@) == Seq::empty().push(
                Part::Text(prompt@),
            ).push(Part::Image(url@)),
    {
        ChatMessage::with_media(prompt, ChatContentPart::ImageUrl { url: url.to_owned() })
    }

    /// What a user asks of a video.
    pub fn user_with_video(prompt: &str, url: &str) -> (r: ChatMessage)
        ensures
            r.role@ == "user"@,
            r.content matches ChatContent::Parts(v) && parts_of(v@) == Seq::empty().push(
                Part::Text(prompt@),
            ).push(Part::Video(url@)),
    {
        ChatMessage::with_media(prompt, ChatContentPart::VideoUrl { url: url.to_owned() })
    }
}

/// Marks what a tool has handed over as text.
pub const INLINE_MEDIA_KIND_TEXT: &'static str = "text";

/// Marks what a tool has handed over as a picture.
pub const INLINE_MEDIA_KIND_IMAGE: &'static str = "image";

/// Marks what a tool has handed over as a video.
pub const INLINE_MEDIA_KIND_VIDEO: &'static str = "video";

/// What a tool has handed over: the bytes themselves, or where they are.
#[derive(Debug, Clone)]
pub struct TurnInlineMedia {
    pub call_id: String,
    pub seq: u32,
    pub kind: String,
    pub mime: String,
    pub source: String,
    pub data: Option<Vec<u8>>,
}

/// The address of what was handed over: a data URL of the bytes, or where they are.
pub open spec fn media_url(m: TurnInlineMedia) -> Seq<char> {
    match m.data {
        Some(bytes) => encoding::data_url_of(m.mime@, bytes@),
        None => m.source@,
    }
}

/// The part of a message that holds what was handed over; nothing where it is not known what it
/// is, or where a text cannot be read.
pub open spec fn media_part(m: TurnInlineMedia) -> Option<Part> {
    if m.kind@ == INLINE_MEDIA_KIND_TEXT@ {
        match m.data {
            Some(bytes) => if vstd::utf8::valid_utf8(bytes@) {
                Some(Part::Text(vstd::utf8::decode_utf8(bytes@)))
            } else {
                None
            },
            None => None,
        }
    } else if m.kind@ == INLINE_MEDIA_KIND_IMAGE@ {
        Some(Part::Image(media_url(m)))
    } else if m.kind@ == INLINE_MEDIA_KIND_VIDEO@ {
        Some(Part::Video(media_url(m)))
    } else {
        None
    }
}

/// The parts of a message that holds the first `n` things that were handed over.
pub open spec fn media_parts(items: Seq<TurnInlineMedia>, n: nat) -> Seq<Part>
    decreases n,
{
    if n == 0 {
        Seq::empty()
    } else {
        let before = media_parts(items, (n - 1) as nat);
        match media_part(items[n - 1]) {
            Some(p) => before.push(p),
            None => before,
        }
    }
}

/// Whether all parts are texts.
pub open spec fn all_text(parts: Seq<Part>) -> bool {
    forall|i: int| 0 <= i < parts.len() ==> #[trigger] parts[i] is Text
}

/// The texts of parts that are all texts.
pub open spec fn part_texts(parts: Seq<Part>) -> Seq<Seq<char>> {
    parts.map_values(
        |p: Part|
            match p {
                Part::Text(t) => t,
                Part::Image(u) => u,
                Part::Video(u) => u,
            },
    )
}

fn media_url_of(m: &TurnInlineMedia) -> (r: String)
    ensures
        r@ == media_url(*m),
{
    match &m.data {
        Some(bytes) => encoding::data_url(m.mime.as_str(), bytes.as_slice()),
        None => m.source.clone(),
    }
}

fn copy_bytes(bytes: &Vec<u8>) -> (r: Vec<u8>)
    ensures
        r@ == bytes@,
{
    let mut out: Vec<u8> = Vec::new();
    let mut i: usize = 0;
    while i < bytes.len()
        invariant
            i <= bytes@.len(),
            out@ == bytes@.take(i as int),
        decreases bytes@.len() - i,
    {
        out.push(bytes[i]);
        assert(out@ =~= bytes@.take(i + 1));
        i = i + 1;
    }
    assert(bytes@.take(bytes@.len() as int) =~= bytes@);
    out
}

fn part_of(m: &TurnInlineMedia) -> (r: Option<ChatContentPart>)
    ensures
        match r {
            Some(p) => media_part(*m) == Some(p@),
            None => media_part(*m) is None,
        },
{
    if text::same(m.kind.as_str(), INLINE_MEDIA_KIND_TEXT) {
        match &m.data {
            Some(bytes) => match encoding::decode(copy_bytes(bytes)) {
                Some(t) => Some(ChatContentPart::Text { text: t }),
                None => None,
            },
            None => None,
        }
    } else if text::same(m.kind.as_str(), INLINE_MEDIA_KIND_IMAGE) {
        Some(ChatContentPart::ImageUrl { url: media_url_of(m) })
    } else if text::same(m.kind.as_str(), INLINE_MEDIA_KIND_VIDEO) {
        Some(ChatContentPart::VideoUrl { url: media_url_of(m) })
    } else {
        None
    }
}

/// The message that holds what tools have handed over: plain text where it is text alone, parts
/// where there are pictures or videos, and no message where there is nothing.
pub fn inline_media_message(items: &[TurnInlineMedia]) -> (r: Option<ChatMessage>)
    ensures
        ({
            let parts = media_parts(items@, items@.len());
            if parts.len() == 0 {
                r is None
            } else if all_text(parts) {
                r matches Some(m) && m.role@ == "user"@ && (m.content matches ChatContent::Text(t)
                    && t@ == text::joined(part_texts(parts), "\n"@))
            } else {
                r matches Some(m) && m.role@ == "user"@ && (m.content matches ChatContent::Parts(v)
                    && parts_of(v@) == parts)
            }
        }),
{
    let mut v: Vec<ChatContentPart> = Vec::new();
    let mut texts: Vec<String> = Vec::new();
    let mut only_text = true;
    let ghost mut parts: Seq<Part> = Seq::empty();
    assert(parts_of(v@) =~= parts);
    assert(text::views(texts@) =~= part_texts(parts));
    let mut i: usize = 0;
    while i < items.len()
        invariant
            i <= items@.len(),
            parts == media_parts(items@, i as nat),
            parts_of(v@) == parts,
            only_text == all_text(parts),
            only_text ==> text::views(texts@) == part_texts(parts),
        decreases items@.len() - i,
    {
        match part_of(&items[i]) {
            Some(p) => {
                let ghost pv = p@;
                let ghost before = parts;
                proof {
                    parts = parts.push(pv);
                    assert(parts_of(v@.push(p)) =~= before.push(pv));
                    assert forall|k: int| 0 <= k < before.len() implies #[trigger] before[k]
                        == parts[k] by {}
                    assert(parts[before.len() as int] == pv);
                    assert(all_text(parts) ==> all_text(before)) by {
                        if all_text(parts) {
                            assert forall|k: int| 0 <= k < before.len() implies #[trigger] before[k] is Text by {
                                assert(parts[k] is Text);
                            }
                        }
                    }
                }
                match &p {
                    ChatContentPart::Text { text } => {
                        let t = text.clone();
                        proof {
                            text::lemma_views_push(texts@, t);
                            assert(part_texts(parts) =~= part_texts(before).push(t@));
                        }
                        texts.push(t);
                    },
                    _ => {
                        only_text = false;
                        assert(!(parts[before.len() as int] is Text));
                    },
                }
                v.push(p);
            },
            None => {},
        }
        i = i + 1;
    }
    assert(parts.len() == v@.len());
    if v.len() == 0 {
        None
    } else if only_text {
        Some(
            ChatMessage {
                role: "user".to_owned(),
                content: ChatContent::Text(text::join(&texts, "\n")),
            },
        )
    } else {
        Some(ChatMessage { role: "user".to_owned(), content: ChatContent::Parts(v) })
    }
}

/// A picture or a video is shown by its contents where they are kept, and by its address where they
/// are not; text is shown where its contents are text; and nothing else is shown.
pub proof fn lemma_media_part(m: TurnInlineMedia)
    ensures
        m.kind@ == "image"@ && m.data is None ==> media_part(m) == Some(Part::Image(m.source@)),
        m.kind@ == "video"@ && m.data is None ==> media_part(m) == Some(Part::Video(m.source@)),
        m.kind@ == "text"@ && m.data is None ==> media_part(m) is None,
        m.data matches Some(bytes) ==> {
            &&& m.kind@ == "image"@ ==> media_part(m) == Some(
                Part::Image(encoding::data_url_of(m.mime@, bytes@)),
            )
            &&& m.kind@ == "video"@ ==> media_part(m) == Some(
                Part::Video(encoding::data_url_of(m.mime@, bytes@)),
            )
            &&& m.kind@ == "text"@ && vstd::utf8::valid_utf8(bytes@) ==> media_part(m) == Some(
                Part::Text(vstd::utf8::decode_utf8(bytes@)),
            )
            &&& m.kind@ == "text"@ && !vstd::utf8::valid_utf8(bytes@) ==> media_part(m) is None
        },
        m.kind@ != "image"@ && m.kind@ != "video"@ && m.kind@ != "text"@ ==> media_part(m) is None,
{
    reveal_strlit("text");
    reveal_strlit("image");
    reveal_strlit("video");
    assert("text"@.len() == 4);
    assert("image"@[0] == 'i');
    assert("video"@[0] == 'v');
    assert("image"@.len() == 5 && "video"@.len() == 5);
}

/// What is shown of some media and of more is what is shown of the first and then of the others.
pub proof fn lemma_media_parts_join(a: Seq<TurnInlineMedia>, b: Seq<TurnInlineMedia>)
    ensures
        media_parts(a + b, (a + b).len()) == media_parts(a, a.len()) + media_parts(b, b.len()),
    decreases b.len(),
{
    if b.len() == 0 {
        assert(a + b =~= a);
        assert(media_parts(b, 0) =~= Seq::empty());
    } else {
        lemma_media_parts_join(a, b.drop_last());
        lemma_media_parts_take(a + b, ((a + b).len() - 1) as nat);
        lemma_media_parts_take(b, (b.len() - 1) as nat);
        assert((a + b).take((a + b).len() - 1) =~= a + b.drop_last());
        assert(b.take(b.len() - 1) =~= b.drop_last());
        assert(media_parts(a + b, (a + b).len()) =~= media_parts(a, a.len()) + media_parts(
            b,
            b.len(),
        ));
    }
}

proof fn lemma_media_parts_take(items: Seq<TurnInlineMedia>, n: nat)
    requires
        n <= items.len(),
    ensures
        media_parts(items, n) == media_parts(items.take(n as int), n),
    decreases n,
{
    if n > 0 {
        lemma_media_parts_take(items, (n - 1) as nat);
        lemma_media_parts_take(items.take(n as int), (n - 1) as nat);
        assert(items.take(n as int).take(n - 1) =~= items.take(n - 1));
    }
}

/// Media are told of exactly where there is anything to show; as plain text where that is all text,
/// and part by part as soon as there is a picture or a video.
pub proof fn lemma_inline_media(items: &[TurnInlineMedia], r: Option<ChatMessage>)
    requires
        call_ensures(inline_media_message, (items,), r),
    ensures
        ({
            let parts = media_parts(items@, items@.len());
            &&& r is None <==> parts.len() == 0
            &&& r matches Some(m) ==> m.role@ == "user"@
            &&& r matches Some(m) ==> (m.content is Parts <==> exists|i: int|
                0 <= i < parts.len() && !(#[trigger] parts[i] is Text))
            &&& r matches Some(m) ==> (m.content matches ChatContent::Parts(v) ==> parts_of(v@)
                == parts)
        }),
{
}

/// What is shown of one item alone is its part, if it has one.
pub proof fn lemma_one_media_part(m: TurnInlineMedia)
    ensures
        media_part(m) matches Some(p) ==> media_parts(seq![m], 1) == seq![p],
        media_part(m) is None ==> media_parts(seq![m], 1).len() == 0,
{
    reveal_with_fuel(media_parts, 2);
    assert(seq![m][0] == m);
    if media_part(m) is Some {
        assert(media_parts(seq![m], 1) =~= seq![media_part(m)->0]);
    }
}

}
