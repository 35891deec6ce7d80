//! Which files are pictures and which are videos, and where they lie.

use crate::encoding;
use crate::path;
use crate::text;
use vstd::prelude::*;

verus! {

/// The type of the video that an ending stands for.
pub open spec fn video_type(ending: Seq<char>) -> Option<Seq<char>> {
    if ending == "mp4"@ || ending == "m4v"@ {
        Some("video/mp4"@)
    } else if ending == "mkv"@ {
        Some("video/x-matroska"@)
    } else if ending == "mpeg"@ || ending == "mpg"@ {
        Some("video/mpeg"@)
    } else if ending == "mov"@ {
        Some("video/mov"@)
    } else if ending == "webm"@ {
        Some("video/webm"@)
    } else {
        None
    }
}

/// The ending of a path or an address, without what follows a question mark, in lower case.
pub open spec fn ending(value: Seq<char>) -> Seq<char> {
    text::last_piece(text::lowered(text::before(value, "?"@)), '.')
}

/// The type of a video, by the ending of its path or address; nothing where it is no video.
pub fn video_mime(value: &str) -> (r: Option<&'static str>)
    ensures
        text::opt_str(r) == video_type(ending(value@)),
{
    let bare = text::until(value, "?");
    let lower = text::to_ascii_lowercase(bare.as_str());
    let e = text::after_last(lower.as_str(), '.');
    let ext = e.as_str();
    if text::same(ext, "mp4") || text::same(ext, "m4v") {
        Some("video/mp4")
    } else if text::same(ext, "mkv") {
        Some("video/x-matroska")
    } else if text::same(ext, "mpeg") || text::same(ext, "mpg") {
        Some("video/mpeg")
    } else if text::same(ext, "mov") {
        Some("video/mov")
    } else if text::same(ext, "webm") {
        Some("video/webm")
    } else {
        None
    }
}

/// The largest video that is sent, in bytes.
pub const MAX_VIDEO_BYTES: u64 = 209_715_200;

/// Why a file cannot be sent.
#[derive(Debug)]
pub enum MediaError {
    /// The picture is no file.
    ImageNotAFile { path: String },
    /// The picture is too large.
    ImageTooLarge { bytes: u64 },
    /// The video is no file.
    VideoNotAFile { path: String },
    /// The video, of so many megabytes, is too large.
    VideoTooLarge { megabytes: String },
    /// The ending is not that of a picture.
    UnsupportedExtension { extension: String },
}

impl MediaError {
    /// What is said of it.
    pub open spec fn said(self) -> Seq<char> {
        match self {
            MediaError::ImageNotAFile { path } => "image path is not a file: "@ + path@,
            MediaError::ImageTooLarge { bytes } => "image too large: "@ + text::decimal(
                bytes as nat,
            ) + " bytes"@,
            MediaError::VideoNotAFile { path } => "video path is not a file: "@ + path@,
            MediaError::VideoTooLarge { megabytes } => "video is "@ + megabytes@
                + " MB; the limit is "@ + text::decimal(
                (MAX_VIDEO_BYTES / 1024 / 1024) as nat,
            )
                + " MB — trim or compress it first (e.g. ffmpeg -ss/-t or lower the resolution)"@,
            MediaError::UnsupportedExtension { extension } => "unsupported image extension: "@
                + extension@ + "; supported: jpg, jpeg, png, webp, gif"@,
        }
    }

    /// What is said of it.
    pub fn message(&self) -> (r: String)
        ensures
            r@ == self.said(),
    {
        match self {
            MediaError::ImageNotAFile { path } => text::cat2(
                "image path is not a file: ",
                path.as_str(),
            ),
            MediaError::ImageTooLarge { bytes } => text::cat3(
                "image too large: ",
                text::decimal_text(*bytes as u128).as_str(),
                " bytes",
            ),
            MediaError::VideoNotAFile { path } => text::cat2(
                "video path is not a file: ",
                path.as_str(),
            ),
            MediaError::VideoTooLarge { megabytes } => text::cat5(
                "video is ",
                megabytes.as_str(),
                " MB; the limit is ",
                text::decimal_text((MAX_VIDEO_BYTES / 1024 / 1024) as u128).as_str(),
                " MB — trim or compress it first (e.g. ffmpeg -ss/-t or lower the resolution)",
            ),
            MediaError::UnsupportedExtension { extension } => text::cat3(
                "unsupported image extension: ",
                extension.as_str(),
                "; supported: jpg, jpeg, png, webp, gif",
            ),
        }
    }
}

/// Checks that a video can be sent. `megabytes` is its size as it is told.
pub fn check_video(path: &str, is_file: bool, len: u64, megabytes: &str) -> (r: Result<
    (),
    MediaError,
>)
    ensures
        if !is_file {
            r matches Err(MediaError::VideoNotAFile { path: p }) && p@ == path@
        } else if len > MAX_VIDEO_BYTES {
            r matches Err(MediaError::VideoTooLarge { megabytes: m }) && m@ == megabytes@
        } else {
            r is Ok
        },
{
    if !is_file {
        Err(MediaError::VideoNotAFile { path: path.to_owned() })
    } else if len > MAX_VIDEO_BYTES {
        Err(MediaError::VideoTooLarge { megabytes: megabytes.to_owned() })
    } else {
        Ok(())
    }
}

/// Checks that a picture of at most `limit` bytes can be sent.
pub fn check_image(path: &str, is_file: bool, len: u64, limit: u64) -> (r: Result<(), MediaError>)
    ensures
        if !is_file {
            r matches Err(MediaError::ImageNotAFile { path: p }) && p@ == path@
        } else if len > limit {
            r matches Err(MediaError::ImageTooLarge { bytes }) && bytes == len
        } else {
            r is Ok
        },
{
    if !is_file {
        Err(MediaError::ImageNotAFile { path: path.to_owned() })
    } else if len > limit {
        Err(MediaError::ImageTooLarge { bytes: len })
    } else {
        Ok(())
    }
}

/// The last of the first `n` parts of a path that names something.
pub open spec fn last_name(parts: Seq<Seq<char>>, n: nat) -> Option<Seq<char>>
    decreases n,
{
    if n == 0 {
        None
    } else if parts[n - 1].len() == 0 || parts[n - 1] == "."@ {
        last_name(parts, (n - 1) as nat)
    } else {
        Some(parts[n - 1])
    }
}

/// The name of the file that a path leads to.
pub open spec fn file_name(p: Seq<char>) -> Option<Seq<char>> {
    let parts = text::pieces(p, '/');
    match last_name(parts, parts.len()) {
        Some(name) => if name == ".."@ {
            None
        } else {
            Some(name)
        },
        None => None,
    }
}

/// The place of the last full stop among the first `n` characters.
pub open spec fn last_stop(name: Seq<char>, n: nat) -> Option<int>
    decreases n,
{
    if n == 0 {
        None
    } else if name[n - 1] == '.' {
        Some(n - 1)
    } else {
        last_stop(name, (n - 1) as nat)
    }
}

/// The ending of a file's name, in lower case: what stands behind its last full stop, unless that
/// is its first character. Nothing where there is none.
pub open spec fn extension(p: Seq<char>) -> Seq<char> {
    match file_name(p) {
        Some(name) => match last_stop(name, name.len()) {
            Some(i) => if i > 0 {
                text::lowered(name.skip(i + 1))
            } else {
                Seq::empty()
            },
            None => Seq::empty(),
        },
        None => Seq::empty(),
    }
}

fn file_name_of(p: &str) -> (r: Option<String>)
    ensures
        text::opt(r) == file_name(p@),
{
    let parts = text::split(p, '/');
    let ghost all = text::views(parts@);
    assert(all.len() == parts@.len());
    let mut n: usize = parts.len();
    while n > 0
        invariant
            n <= parts@.len(),
            all == text::views(parts@),
            all == text::pieces(p@, '/'),
            last_name(all, all.len()) == last_name(all, n as nat),
        decreases n,
    {
        let part = parts[n - 1].as_str();
        assert(all[n - 1] == part@);
        if part.is_empty() || text::same(part, ".") {
            n = n - 1;
        } else if text::same(part, "..") {
            return None;
        } else {
            return Some(part.to_owned());
        }
    }
    None
}

fn extension_of(p: &str) -> (r: String)
    ensures
        r@ == extension(p@),
{
    let name = match file_name_of(p) {
        Some(s) => s,
        None => {
            return String::new();
        },
    };
    let cs = text::chars(name.as_str());
    let mut n: usize = cs.len();
    while n > 0
        invariant
            n <= cs@.len(),
            cs@ == name@,
            file_name(p@) == Some(name@),
            last_stop(name@, name@.len()) == last_stop(name@, n as nat),
        decreases n,
    {
        if cs[n - 1] == '.' {
            if n == 1 {
                return String::new();
            }
            let e = text::slice(&cs, n, cs.len());
            assert(e@ =~= name@.skip(n as int));
            return text::to_ascii_lowercase(e.as_str());
        }
        n = n - 1;
    }
    String::new()
}

/// The type of the picture that an ending stands for.
pub open spec fn image_type(ending: Seq<char>) -> Option<Seq<char>> {
    if ending == "jpg"@ || ending == "jpeg"@ {
        Some("image/jpeg"@)
    } else if ending == "png"@ {
        Some("image/png"@)
    } else if ending == "webp"@ {
        Some("image/webp"@)
    } else if ending == "gif"@ {
        Some("image/gif"@)
    } else {
        None
    }
}

/// The type of a picture, by the ending of its path.
pub fn mime_from_path(path: &str) -> (r: Result<&'static str, MediaError>)
    ensures
        ({
            let e = extension(path@);
            match image_type(e) {
                Some(mime) => r matches Ok(m) && m@ == mime,
                None => r matches Err(MediaError::UnsupportedExtension { extension: x }) && x@ == e,
            }
        }),
{
    let e = extension_of(path);
    if text::same(e.as_str(), "jpg") || text::same(e.as_str(), "jpeg") {
        Ok("image/jpeg")
    } else if text::same(e.as_str(), "png") {
        Ok("image/png")
    } else if text::same(e.as_str(), "webp") {
        Ok("image/webp")
    } else if text::same(e.as_str(), "gif") {
        Ok("image/gif")
    } else {
        Err(MediaError::UnsupportedExtension { extension: e })
    }
}

/// The data URL of the picture in a file.
pub fn local_image_data_url(path: &str, bytes: &[u8]) -> (r: Result<String, MediaError>)
    ensures
        ({
            let e = extension(path@);
            match image_type(e) {
                Some(mime) => r matches Ok(url) && url@ == encoding::data_url_of(mime, bytes@),
                None => r matches Err(MediaError::UnsupportedExtension { extension: x }) && x@ == e,
            }
        }),
{
    match mime_from_path(path) {
        Ok(mime) => Ok(encoding::data_url(mime, bytes)),
        Err(e) => Err(e),
    }
}

/// Where a path leads that was typed: below the home directory, where it says so, or below the
/// working directory, unless it is absolute.
pub open spec fn expanded(value: Seq<char>, home: Option<Seq<char>>, workdir: Seq<char>) -> Seq<
    char,
> {
    let v = text::trimmed(value);
    if text::begins(v, "~/"@) && home is Some {
        path::below(home->0, v.skip("~/"@.len() as int))
    } else {
        path::below(workdir, v)
    }
}

/// Where a path leads that was typed.
pub fn expand_path(value: &str, home: Option<&str>, workdir: &str) -> (r: String)
    ensures
        r@ == expanded(value@, text::opt_str(home), workdir@),
{
    let v = text::trim(value);
    match text::strip_prefix(v.as_str(), "~/") {
        Some(rest) => match home {
            Some(h) => {
                return path::join(h, rest.as_str());
            },
            None => {},
        },
        None => {},
    }
    path::join(workdir, v.as_str())
}

/// A video's type is found whatever the case of its ending, and whatever follows a question mark.
pub proof fn lemma_query_does_not_matter(value: Seq<char>, query: Seq<char>)
    requires
        !text::mentions(value, "?"@),
    ensures
        ending(value + "?"@ + query) == ending(value),
{
    let whole = value + "?"@ + query;
    reveal_strlit("?");
    text::lemma_first_at(whole, "?"@);
    text::lemma_first_at(value, "?"@);
    let n = value.len() as int;
    assert(text::occurs_at(whole, "?"@, n)) by {
        assert(whole.subrange(n, n + 1) =~= "?"@);
    }
    match text::first_at(whole, "?"@) {
        Some(i) => {
            if i < n {
                assert(value.subrange(i, i + 1) =~= whole.subrange(i, i + 1));
                assert(text::occurs_at(value, "?"@, i));
            }
            assert(i == n);
            assert(whole.take(n) =~= value);
        },
        None => {},
    }
}

/// The ending of a name is what stands behind its last full stop, in lower case.
pub proof fn lemma_ending(stem: Seq<char>, end: Seq<char>)
    requires
        !stem.contains('?'),
        !end.contains('?'),
        !end.contains('.'),
    ensures
        ending(stem.push('.') + end) == text::lowered(end),
{
    reveal_strlit("?");
    let value = stem.push('.') + end;
    assert forall|i: int| 0 <= i < value.len() implies #[trigger] value[i] != '?' by {
        if i < stem.len() {
            assert(stem[i] != '?');
        } else if i > stem.len() {
            assert(end[i - stem.len() - 1] != '?');
        }
    }
    text::lemma_before(value, "?"@, value.len() as int);
    assert(text::before(value, "?"@) =~= value);
    let low = text::lowered(stem);
    let tail = text::lowered(end);
    assert(text::lowered(value) =~= low.push('.') + tail);
    assert(!tail.contains('.')) by {
        if tail.contains('.') {
            let i = tail.index_of('.');
            assert(end[i] == '.') by {
                assert(tail[i] == text::lower(end[i]));
            }
        }
    }
    text::lemma_last_piece(low, '.', tail);
}

/// The extension of a file is what stands behind the last full stop of its name, in lower case,
/// whatever directory it is in; a name that only begins with one has none.
pub proof fn lemma_extension(dir: Seq<char>, stem: Seq<char>, end: Seq<char>)
    requires
        stem.len() > 0,
        !stem.contains('/'),
        !end.contains('/'),
        !end.contains('.'),
        end.len() > 0,
    ensures
        extension(dir.push('/') + (stem.push('.') + end)) == text::lowered(end),
        extension(stem.push('.') + end) == text::lowered(end),
        extension(seq!['.'] + end).len() == 0,
{
    reveal_strlit(".");
    reveal_strlit("..");
    let name = stem.push('.') + end;
    assert(!name.contains('/')) by {
        if name.contains('/') {
            let i = name.index_of('/');
            if i < stem.len() {
                assert(stem[i] == '/');
            } else if i > stem.len() {
                assert(end[i - stem.len() - 1] == '/');
            }
        }
    }
    text::lemma_last_piece(dir, '/', name);
    assert(name.len() >= 3);
    assert(name.last() == end.last());
    assert(end[end.len() - 1] != '.');
    assert(name != ".."@);
    assert(name != "."@);
    lemma_last_stop(name, stem.len() as int, name.len());
    assert(name.skip(stem.len() as int + 1) =~= end);
    let hidden = seq!['.'] + end;
    assert(!hidden.contains('/')) by {
        if hidden.contains('/') {
            let i = hidden.index_of('/');
            if i > 0 {
                assert(end[i - 1] == '/');
            }
        }
    }
    text::lemma_last_piece(dir, '/', hidden);
    assert(hidden.last() != '.');
    lemma_last_stop(hidden, 0, hidden.len());
}

proof fn lemma_last_stop(name: Seq<char>, at: int, n: nat)
    requires
        0 <= at < n <= name.len(),
        name[at] == '.',
        forall|i: int| at < i < n ==> #[trigger] name[i] != '.',
    ensures
        last_stop(name, n) == Some(at),
    decreases n,
{
    if n - 1 > at {
        assert(name[n - 1] != '.');
        lemma_last_stop(name, at, (n - 1) as nat);
    }
}

/// A file below the home directory is found there where that is known, and every other one from the
/// working directory.
pub proof fn lemma_expanded(value: Seq<char>, home: Option<Seq<char>>, workdir: Seq<char>)
    ensures
        text::begins(text::trimmed(value), "~/"@) && home is Some ==> expanded(value, home, workdir)
            == path::below(home->0, text::trimmed(value).skip(2)),
        !text::begins(text::trimmed(value), "~/"@) || home is None ==> expanded(
            value,
            home,
            workdir,
        ) == path::below(workdir, text::trimmed(value)),
{
    reveal_strlit("~/");
    assert("~/"@.len() == 2);
}

/// A picture or a video is taken only where it is a file and no larger than its limit.
pub proof fn lemma_checks(
    path: &str,
    is_file: bool,
    len: u64,
    limit: u64,
    megabytes: &str,
    image: Result<(), MediaError>,
    video: Result<(), MediaError>,
)
    requires
        call_ensures(check_image, (path, is_file, len, limit), image),
        call_ensures(check_video, (path, is_file, len, megabytes), video),
    ensures
        image is Ok <==> is_file && len <= limit,
        video is Ok <==> is_file && len <= 200 * 1024 * 1024,
        !is_file ==> image matches Err(MediaError::ImageNotAFile { .. }),
        !is_file ==> video matches Err(MediaError::VideoNotAFile { .. }),
        is_file && len > limit ==> (image matches Err(MediaError::ImageTooLarge { bytes }) && bytes
            == len),
{
}

/// A picture is sent as what its extension says that it is, and is refused where that is nothing
/// known.
pub proof fn lemma_image_type(path: &str, r: Result<&'static str, MediaError>)
    requires
        call_ensures(mime_from_path, (path,), r),
    ensures
        extension(path@) == "png"@ ==> (r matches Ok(m) && m@ == "image/png"@),
        extension(path@) == "jpg"@ || extension(path@) == "jpeg"@ ==> (r matches Ok(m) && m@
            == "image/jpeg"@),
        extension(path@) == "webp"@ ==> (r matches Ok(m) && m@ == "image/webp"@),
        extension(path@) == "gif"@ ==> (r matches Ok(m) && m@ == "image/gif"@),
        r is Ok ==> extension(path@) == "png"@ || extension(path@) == "jpg"@ || extension(path@)
            == "jpeg"@ || extension(path@) == "webp"@ || extension(path@) == "gif"@,
{
    reveal_strlit("png");
    reveal_strlit("jpg");
    reveal_strlit("jpeg");
    reveal_strlit("webp");
    reveal_strlit("gif");
    assert("png"@.len() == 3 && "png"@[0] == 'p');
    assert("jpg"@.len() == 3 && "jpg"@[0] == 'j');
    assert("gif"@.len() == 3 && "gif"@[0] == 'g');
    assert("jpeg"@.len() == 4 && "jpeg"@[0] == 'j');
    assert("webp"@.len() == 4 && "webp"@[0] == 'w');
}

/// A video is told by its ending, and what has another ending is none.
pub proof fn lemma_video_type(value: &str, r: Option<&'static str>)
    requires
        call_ensures(video_mime, (value,), r),
    ensures
        r is Some <==> ending(value@) == "mp4"@ || ending(value@) == "m4v"@ || ending(value@)
            == "mkv"@ || ending(value@) == "mpeg"@ || ending(value@) == "mpg"@ || ending(value@)
            == "mov"@ || ending(value@) == "webm"@,
        ending(value@) == "mp4"@ || ending(value@) == "m4v"@ ==> (r matches Some(m) && m@
            == "video/mp4"@),
        ending(value@) == "mkv"@ ==> (r matches Some(m) && m@ == "video/x-matroska"@),
        ending(value@) == "mpeg"@ || ending(value@) == "mpg"@ ==> (r matches Some(m) && m@
            == "video/mpeg"@),
        ending(value@) == "mov"@ ==> (r matches Some(m) && m@ == "video/mov"@),
        ending(value@) == "webm"@ ==> (r matches Some(m) && m@ == "video/webm"@),
{
    reveal_strlit("mp4");
    reveal_strlit("m4v");
    reveal_strlit("mkv");
    reveal_strlit("mpeg");
    reveal_strlit("mpg");
    reveal_strlit("mov");
    reveal_strlit("webm");
    assert("mp4"@.len() == 3 && "mp4"@[1] == 'p' && "mp4"@[2] == '4');
    assert("m4v"@.len() == 3 && "m4v"@[1] == '4');
    assert("mkv"@.len() == 3 && "mkv"@[1] == 'k');
    assert("mpg"@.len() == 3 && "mpg"@[1] == 'p' && "mpg"@[2] == 'g');
    assert("mov"@.len() == 3 && "mov"@[1] == 'o');
    assert("mpeg"@.len() == 4 && "mpeg"@[0] == 'm');
    assert("webm"@.len() == 4 && "webm"@[0] == 'w');
}

}
