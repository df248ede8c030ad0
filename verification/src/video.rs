//! The value objects: a point in time and a video of niconico.
use vstd::prelude::*;

verus! {

/// A point in time as the number of whole seconds since the UNIX epoch and
/// the nanoseconds within that second (the second component of a leap second
/// may reach past one billion, as it does in `chrono`).
#[derive(Clone, Copy, Debug, PartialEq, Eq, Structural)]
pub struct Timestamp {
    pub secs: i64,
    pub nanos: u32,
}

/// `a` lies strictly after `b`: seconds first, then nanoseconds.
pub open spec fn later(a: Timestamp, b: Timestamp) -> bool {
    a.secs > b.secs || (a.secs == b.secs && a.nanos > b.nanos)
}

impl Timestamp {
    /// Whether `self` lies strictly after `other`.
    pub fn is_after(&self, other: &Timestamp) -> (r: bool)
        ensures
            r == later(*self, *other),
    {
        self.secs > other.secs || (self.secs == other.secs && self.nanos > other.nanos)
    }

    /// Whether `self` lies after `other` or is the same instant.
    pub fn is_at_or_after(&self, other: &Timestamp) -> (r: bool)
        ensures
            r == !later(*other, *self),
    {
        !other.is_after(self)
    }
}

/// What a video is, as mathematical values.
pub struct VideoView {
    pub title: Seq<char>,
    pub content_id: Seq<char>,
    pub url: Seq<char>,
    pub start_time: Timestamp,
}

/// A video of niconico: its title, its content id (such as `sm9`), the URL
/// of its watch page and the time at which it was posted.
#[derive(Debug, PartialEq, Eq, Clone)]
pub struct NicoVideo {
    pub title: String,
    pub content_id: String,
    pub url: String,
    pub start_time: Timestamp,
}

impl View for NicoVideo {
    type V = VideoView;

    open spec fn view(&self) -> VideoView {
        VideoView {
            title: self.title@,
            content_id: self.content_id@,
            url: self.url@,
            start_time: self.start_time,
        }
    }
}

/// The address of the watch page of the video with the given content id.
pub open spec fn watch_url(content_id: Seq<char>) -> Seq<char> {
    "https://www.nicovideo.jp/watch/"@ + content_id
}

impl NicoVideo {
    /// A video with the given title, content id and start time; its URL is the
    /// watch page of the content id.
    pub fn new(title: String, content_id: String, start_time: Timestamp) -> (r: NicoVideo)
        ensures
            r@ == (VideoView {
                title: title@,
                content_id: content_id@,
                url: watch_url(content_id@),
                start_time,
            }),
    {
        let url = Self::content_id_to_url(content_id.as_str());
        NicoVideo { title, content_id, url, start_time }
    }

    /// The address of the watch page of `content_id`.
    pub fn content_id_to_url(content_id: &str) -> (r: String)
        ensures
            r@ == watch_url(content_id@),
    {
        let base = String::from_str("https://www.nicovideo.jp/watch/");
        base.concat(content_id)
    }

    /// A copy of this video with the same fields.
    pub fn duplicate(&self) -> (r: NicoVideo)
        ensures
            r@ == self@,
    {
        NicoVideo {
            title: self.title.clone(),
            content_id: self.content_id.clone(),
            url: self.url.clone(),
            start_time: self.start_time,
        }
    }
}

} // verus!
