use niconico_watcher::discord::discord_message;
use niconico_watcher::misskey::{note_text, notes_create_url, CreateNote};
use niconico_watcher::text::decimal_string;
use niconico_watcher::video::{NicoVideo, Timestamp};

fn video() -> NicoVideo {
    NicoVideo::new("Title".to_string(), "sm42".to_string(), Timestamp { secs: 0, nanos: 0 })
}

#[test]
fn discord_text() {
    assert_eq!(
        discord_message(&video()),
        "**【新着動画】**Title\nhttps://www.nicovideo.jp/watch/sm42"
    );
}

#[test]
fn misskey_text() {
    assert_eq!(
        note_text(&video(), "#footer"),
        "**【新着動画】**Title\nhttps://nico.ms/sm42\n\n#footer"
    );
}

#[test]
fn misskey_url() {
    assert_eq!(notes_create_url("misskey.io"), "https://misskey.io/api/notes/create");
}

#[test]
fn misskey_body() {
    let body = CreateNote::new("tok", "text".to_string());
    assert_eq!(body.i, "tok");
    assert_eq!(body.text, "text");
    assert!(body.local_only);
    assert!(body.no_extract_mentions);
}

#[test]
fn decimals() {
    assert_eq!(decimal_string(0), "0");
    assert_eq!(decimal_string(7), "7");
    assert_eq!(decimal_string(20), "20");
    assert_eq!(decimal_string(1234567890), "1234567890");
    assert_eq!(decimal_string(u64::MAX), "18446744073709551615");
}
