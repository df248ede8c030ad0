//! What is posted to Discord.
use vstd::prelude::*;

use crate::video::NicoVideo;

verus! {

/// The Discord message announcing a video: a bold heading, the title, and
/// the watch page on the next line.
pub open spec fn discord_message_of(title: Seq<char>, url: Seq<char>) -> Seq<char> {
    "**【新着動画】**"@ + title + "\n"@ + url
}

/// The Discord message announcing `video`.
pub fn discord_message(video: &NicoVideo) -> (r: String)
    ensures
        r@ == discord_message_of(video.title@, video.url@),
{
    let mut msg = String::from_str("**【新着動画】**");
    msg.append(video.title.as_str());
    msg.append("\n");
    msg.append(video.url.as_str());
    msg
}

/// The Discord message is the heading, the whole title, a line break and the
/// whole address of the watch page; two messages of the same title with
/// different addresses differ.
pub proof fn lemma_discord_message_parts(title: Seq<char>, url: Seq<char>, url2: Seq<char>)
    ensures
        ({
            let head = "**【新着動画】**"@;
            let m = discord_message_of(title, url);
            &&& m.len() as int == head.len() as int + title.len() as int + 1 + url.len() as int
            &&& m.subrange(0, head.len() as int) == head
            &&& m.subrange(head.len() as int, head.len() as int + title.len() as int) == title
            &&& m[head.len() as int + title.len() as int] == '\n'
            &&& m.skip(head.len() as int + title.len() as int + 1) == url
        }),
        discord_message_of(title, url) == discord_message_of(title, url2) ==> url == url2,
{
    reveal_strlit("\n");
    let head = "**【新着動画】**"@;
    let m = discord_message_of(title, url);
    assert(m.subrange(0, head.len() as int) =~= head);
    assert(m.subrange(head.len() as int, head.len() as int + title.len() as int) =~= title);
    assert(m.skip(head.len() as int + title.len() as int + 1) =~= url);
    let m2 = discord_message_of(title, url2);
    assert(m2.skip(head.len() as int + title.len() as int + 1) =~= url2);
}

} // verus!
