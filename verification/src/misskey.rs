//! What is posted to Misskey.
use vstd::prelude::*;

use crate::video::NicoVideo;

verus! {

/// The Misskey note announcing a video: a bold heading, the title, the short
/// link of the video on the next line, and the footer after an empty line.
pub open spec fn note_text_of(title: Seq<char>, content_id: Seq<char>, footer: Seq<char>) -> Seq<char> {
    "**【新着動画】**"@ + title + "\nhttps://nico.ms/"@ + content_id + "\n\n"@ + footer
}

/// The text of the note announcing `video`, ended by `footer`.
pub fn note_text(video: &NicoVideo, footer: &str) -> (r: String)
    ensures
        r@ == note_text_of(video.title@, video.content_id@, footer@),
{
    let mut text = String::from_str("**【新着動画】**");
    text.append(video.title.as_str());
    text.append("\nhttps://nico.ms/");
    text.append(video.content_id.as_str());
    text.append("\n\n");
    text.append(footer);
    text
}

/// The address of the endpoint that creates a note on the server `domain`.
pub open spec fn notes_create_url_of(domain: Seq<char>) -> Seq<char> {
    "https://"@ + domain + "/api/notes/create"@
}

/// The address of the endpoint that creates a note on the server `domain`.
pub fn notes_create_url(domain: &str) -> (r: String)
    ensures
        r@ == notes_create_url_of(domain@),
{
    let mut url = String::from_str("https://");
    url.append(domain);
    url.append("/api/notes/create");
    url
}

/// The body of a request that creates a note: the access token, the text,
/// and two switches.
pub struct CreateNote {
    pub i: String,
    pub text: String,
    pub local_only: bool,
    pub no_extract_mentions: bool,
}

impl CreateNote {
    /// The body of the request that creates, with `token`, a note with
    /// `text` that stays on the local timeline and whose mentions are not
    /// extracted.
    pub fn new(token: &str, text: String) -> (r: CreateNote)
        ensures
            r.i@ == token@,
            r.text@ == text@,
            r.local_only,
            r.no_extract_mentions,
    {
        CreateNote { i: String::from_str(token), text, local_only: true, no_extract_mentions: true }
    }
}

/// The note is the heading, the whole title, the short-link prefix, the
/// whole content id, an empty line and the whole footer; two notes of
/// different content ids (with the same title and footer) differ.
pub proof fn lemma_note_text_parts(title: Seq<char>, content_id: Seq<char>, footer: Seq<char>, content_id2: Seq<char>)
    ensures
        ({
            let head = "**【新着動画】**"@;
            let link = "\nhttps://nico.ms/"@;
            let gap = "\n\n"@;
            let n = note_text_of(title, content_id, footer);
            let at = head.len() as int + title.len() as int + link.len() as int;
            &&& n.len() as int == at + content_id.len() as int + gap.len() as int + footer.len() as int
            &&& n.subrange(0, head.len() as int) == head
            &&& n.subrange(head.len() as int, head.len() as int + title.len() as int) == title
            &&& n.subrange(head.len() as int + title.len() as int, at) == link
            &&& n.subrange(at, at + content_id.len() as int) == content_id
            &&& n.subrange(at + content_id.len() as int, at + content_id.len() as int + gap.len() as int) == gap
            &&& n.skip(at + content_id.len() as int + gap.len() as int) == footer
        }),
        note_text_of(title, content_id, footer) == note_text_of(title, content_id2, footer)
            ==> content_id == content_id2,
{
    let head = "**【新着動画】**"@;
    let link = "\nhttps://nico.ms/"@;
    let gap = "\n\n"@;
    let n = note_text_of(title, content_id, footer);
    let at = head.len() as int + title.len() as int + link.len() as int;
    assert(n =~= head + title + link + content_id + gap + footer);
    assert(n.subrange(0, head.len() as int) =~= head);
    assert(n.subrange(head.len() as int, head.len() as int + title.len() as int) =~= title);
    assert(n.subrange(head.len() as int + title.len() as int, at) =~= link);
    assert(n.subrange(at, at + content_id.len() as int) =~= content_id);
    assert(n.subrange(at + content_id.len() as int, at + content_id.len() as int + gap.len() as int) =~= gap);
    assert(n.skip(at + content_id.len() as int + gap.len() as int) =~= footer);
    let n2 = note_text_of(title, content_id2, footer);
    assert(n2 =~= head + title + link + content_id2 + gap + footer);
    if n == n2 {
        assert(content_id.len() as int == content_id2.len() as int);
        assert(n2.subrange(at, at + content_id2.len() as int) =~= content_id2);
    }
}

} // verus!
