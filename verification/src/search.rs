//! The snapshot search API of niconico: the request that lists the newest
//! videos with a tag, and what is made of its answer.
use vstd::prelude::*;

use crate::text::{decimal, push_decimal};
use crate::video::{watch_url, NicoVideo, Timestamp, VideoView};

verus! {

/// How many videos one search asks for.
pub const MAX_VIDEO_COUNT: u8 = 20;

/// The upper-case hexadecimal digit of a value below sixteen.
pub open spec fn hex_digit(d: nat) -> char {
    if d < 10 {
        ((d + 48) as u8) as char
    } else {
        ((d + 55) as u8) as char
    }
}

/// The bytes that the form encoding leaves as they are: ASCII letters and
/// digits, `*`, `-`, `.` and `_`.
pub open spec fn unchanged_byte(b: u8) -> bool {
    b == 42 || b == 45 || b == 46 || (48 <= b <= 57) || (65 <= b <= 90) || b == 95 || (97 <= b <= 122)
}

/// The form encoding of one byte: itself where it is left as it is, `+` for a
/// space, else `%` and two upper-case hexadecimal digits.
pub open spec fn encode_byte(b: u8) -> Seq<char> {
    if unchanged_byte(b) {
        seq![b as char]
    } else if b == 32 {
        seq!['+']
    } else {
        seq!['%', hex_digit(b as nat / 16), hex_digit(b as nat % 16)]
    }
}

/// The `application/x-www-form-urlencoded` byte serialization of `bytes`.
pub open spec fn form_urlencoded(bytes: Seq<u8>) -> Seq<char>
    decreases bytes.len(),
{
    if bytes.len() == 0 {
        Seq::empty()
    } else {
        form_urlencoded(bytes.drop_last()) + encode_byte(bytes.last())
    }
}

/// `form_urlencoded::byte_serialize`, its pieces joined: each byte that is an
/// ASCII letter or digit or one of `*-._` stays, a space becomes `+`, and any
/// other byte becomes `%` and its value in two upper-case hexadecimal digits.
#[verifier::external_body]
fn byte_serialize(bytes: &[u8]) -> (r: String)
    ensures
        r@ == form_urlencoded(bytes@),
{
    form_urlencoded::byte_serialize(bytes).collect()
}

/// The search keyword as it stands in the query string: its UTF-8 bytes, form
/// encoded.
pub fn search_query(keyword: &str) -> (r: String)
    ensures
        r@ == form_urlencoded(vstd::utf8::encode_utf8(keyword@)),
{
    byte_serialize(keyword.as_bytes())
}

/// The address of the search for the videos with the tag `query` (already
/// encoded), newest first, at most `MAX_VIDEO_COUNT` of them.
pub open spec fn search_url_of(query: Seq<char>) -> Seq<char> {
    "https://snapshot.search.nicovideo.jp/api/v2/snapshot/video/contents/search?q="@ + query
        + "&targets=tags&fields=contentId,title,startTime&_sort=-startTime&_limit="@
        + decimal(MAX_VIDEO_COUNT as nat)
}

/// The address of the search for the videos with the tag `query`.
pub fn search_url(query: &str) -> (r: String)
    ensures
        r@ == search_url_of(query@),
{
    let mut url = String::from_str(
        "https://snapshot.search.nicovideo.jp/api/v2/snapshot/video/contents/search?q=",
    );
    url.append(query);
    url.append("&targets=tags&fields=contentId,title,startTime&_sort=-startTime&_limit=");
    push_decimal(&mut url, MAX_VIDEO_COUNT as u64);
    url
}

/// A video as the search answers it: the title may hold XML character
/// references.
pub struct ApiVideo {
    pub title: String,
    pub content_id: String,
    pub start_time: Timestamp,
}

/// Whether a text holds an ampersand, with which every XML reference starts.
pub open spec fn has_reference(text: Seq<char>) -> bool {
    text.contains('&')
}

/// The text that `quick_xml::escape::unescape` makes of `raw`, where it
/// accepts it.
pub uninterp spec fn xml_unescaped(raw: Seq<char>) -> Option<Seq<char>>;

/// `quick_xml::escape::unescape`: the text with its XML entity and character
/// references replaced, or `None` where a reference is not recognized or not
/// terminated. A text without `&` comes back as it is.
#[verifier::external_body]
fn unescape_xml(raw: &str) -> (r: Option<String>)
    ensures
        r.is_some() == xml_unescaped(raw@).is_some(),
        r.is_some() ==> xml_unescaped(raw@) == Some(r.unwrap()@),
        !has_reference(raw@) ==> r.is_some() && r.unwrap()@ == raw@,
{
    quick_xml::escape::unescape(raw).ok().map(|text| text.into_owned())
}

/// The title of a video: the unescaped title where there is one, else the
/// title as it came.
pub open spec fn title_of(raw: Seq<char>, unescaped: Option<Seq<char>>) -> Seq<char> {
    match unescaped {
        Some(t) => t,
        None => raw,
    }
}

/// The video that an answered item stands for, given what unescaping made of
/// its title.
pub open spec fn video_of(raw: ApiVideo, unescaped: Option<Seq<char>>) -> VideoView {
    VideoView {
        title: title_of(raw.title@, unescaped),
        content_id: raw.content_id@,
        url: watch_url(raw.content_id@),
        start_time: raw.start_time,
    }
}

/// The video that an answered item stands for, where `unescaped` is what
/// unescaping made of its title.
pub fn video_from_api(raw: ApiVideo, unescaped: Option<String>) -> (r: NicoVideo)
    ensures
        r@ == video_of(raw, match unescaped { Some(t) => Some(t@), None => None }),
{
    let title = match unescaped {
        Some(t) => t,
        None => raw.title,
    };
    NicoVideo::new(title, raw.content_id, raw.start_time)
}

/// The video that an answered item stands for: its title unescaped where
/// that succeeds.
pub fn parse_video(raw: ApiVideo) -> (r: NicoVideo)
    ensures
        r@ == video_of(raw, xml_unescaped(raw.title@)),
{
    let unescaped = unescape_xml(raw.title.as_str());
    video_from_api(raw, unescaped)
}

/// The videos of the search's answer, in its order.
pub fn parse_videos(data: Vec<ApiVideo>) -> (r: Vec<NicoVideo>)
    ensures
        r@.len() == data@.len(),
        forall|i: int| 0 <= i < data@.len() ==> #[trigger] r@[i]@ == video_of(data@[i], xml_unescaped(data@[i].title@)),
{
    let mut data = data;
    let ghost items = data@;
    let mut rev: Vec<NicoVideo> = Vec::new();
    while data.len() > 0
        invariant
            data@ == items.take(data@.len() as int),
            rev@.len() + data@.len() == items.len(),
            forall|i: int| 0 <= i < rev@.len() ==> #[trigger] rev@[i]@ == video_of(
                items[items.len() - 1 - i],
                xml_unescaped(items[items.len() - 1 - i].title@),
            ),
        decreases data@.len(),
    {
        let raw = data.pop().unwrap();
        rev.push(parse_video(raw));
    }
    let mut r: Vec<NicoVideo> = Vec::new();
    while rev.len() > 0
        invariant
            r@.len() + rev@.len() == items.len(),
            forall|i: int| 0 <= i < rev@.len() ==> #[trigger] rev@[i]@ == video_of(
                items[items.len() - 1 - i],
                xml_unescaped(items[items.len() - 1 - i].title@),
            ),
            forall|i: int| 0 <= i < r@.len() ==> #[trigger] r@[i]@ == video_of(
                items[i],
                xml_unescaped(items[i].title@),
            ),
        decreases rev@.len(),
    {
        let v = rev.pop().unwrap();
        r.push(v);
    }
    r
}

/// The title of a parsed video is the whole text that unescaping gave, where
/// it gave one, and else the whole title as it came; its content id is the
/// item's, its address the watch page of that id, and its start time the
/// item's.
pub proof fn lemma_video_of_fields(raw: ApiVideo, unescaped: Option<Seq<char>>)
    ensures
        unescaped matches Some(t) ==> video_of(raw, unescaped).title == t,
        unescaped is None ==> video_of(raw, unescaped).title == raw.title@,
        video_of(raw, unescaped).content_id == raw.content_id@,
        video_of(raw, unescaped).url == "https://www.nicovideo.jp/watch/"@ + raw.content_id@,
        video_of(raw, unescaped).start_time == raw.start_time,
{
}

/// The search address is the fixed beginning, the whole encoded query, and
/// the fixed rest; two different queries give two different addresses.
pub proof fn lemma_search_url_holds_query(q: Seq<char>, q2: Seq<char>)
    ensures
        ({
            let head = "https://snapshot.search.nicovideo.jp/api/v2/snapshot/video/contents/search?q="@;
            let url = search_url_of(q);
            &&& url.len() as int >= head.len() as int + q.len() as int
            &&& url.subrange(0, head.len() as int) == head
            &&& url.subrange(head.len() as int, head.len() as int + q.len() as int) == q
            &&& url.skip(head.len() as int + q.len() as int) == "&targets=tags&fields=contentId,title,startTime&_sort=-startTime&_limit="@
                + decimal(MAX_VIDEO_COUNT as nat)
        }),
        search_url_of(q) == search_url_of(q2) ==> q == q2,
{
    let head = "https://snapshot.search.nicovideo.jp/api/v2/snapshot/video/contents/search?q="@;
    let tail = "&targets=tags&fields=contentId,title,startTime&_sort=-startTime&_limit="@
        + decimal(MAX_VIDEO_COUNT as nat);
    let url = search_url_of(q);
    assert(url =~= head + q + tail);
    assert(url.subrange(0, head.len() as int) =~= head);
    assert(url.subrange(head.len() as int, head.len() as int + q.len() as int) =~= q);
    assert(url.skip(head.len() as int + q.len() as int) =~= tail);
    let url2 = search_url_of(q2);
    assert(url2 =~= head + q2 + tail);
    if url == url2 {
        assert(q.len() as int == q2.len() as int);
        assert(url2.subrange(head.len() as int, head.len() as int + q2.len() as int) =~= q2);
    }
}

} // verus!
