use niconico_watcher::search::{parse_video, parse_videos, search_query, search_url, video_from_api, ApiVideo};
use niconico_watcher::video::Timestamp;

fn api(title: &str, id: &str, secs: i64) -> ApiVideo {
    ApiVideo { title: title.to_string(), content_id: id.to_string(), start_time: Timestamp { secs, nanos: 0 } }
}

#[test]
fn query_encoding() {
    assert_eq!(search_query("abc-XYZ_0.9*"), "abc-XYZ_0.9*");
    assert_eq!(search_query("a b"), "a+b");
    assert_eq!(search_query("a&b=c"), "a%26b%3Dc");
    assert_eq!(search_query("ニコ"), "%E3%83%8B%E3%82%B3");
    assert_eq!(search_query(""), "");
}

#[test]
fn url_of_search() {
    assert_eq!(
        search_url("abc"),
        "https://snapshot.search.nicovideo.jp/api/v2/snapshot/video/contents/search?q=abc&targets=tags&fields=contentId,title,startTime&_sort=-startTime&_limit=20"
    );
}

#[test]
fn titles_are_unescaped() {
    let v = parse_video(api("Tom &amp; Jerry &lt;3 &#65;", "sm9", 100));
    assert_eq!(v.title, "Tom & Jerry <3 A");
    assert_eq!(v.content_id, "sm9");
    assert_eq!(v.url, "https://www.nicovideo.jp/watch/sm9");
    assert_eq!(v.start_time, Timestamp { secs: 100, nanos: 0 });
}

#[test]
fn bad_reference_keeps_title() {
    let v = parse_video(api("a &unknown; b", "sm1", 0));
    assert_eq!(v.title, "a &unknown; b");
    let v = parse_video(api("a & b", "sm1", 0));
    assert_eq!(v.title, "a & b");
}

#[test]
fn plain_title_stays() {
    let v = parse_video(api("plain title", "sm2", 5));
    assert_eq!(v.title, "plain title");
}

#[test]
fn unescaped_result_is_taken() {
    let v = video_from_api(api("raw", "sm3", 1), Some("cooked".to_string()));
    assert_eq!(v.title, "cooked");
    let v = video_from_api(api("raw", "sm3", 1), None);
    assert_eq!(v.title, "raw");
}

#[test]
fn parse_keeps_order() {
    let vs = parse_videos(vec![api("a", "sm3", 3), api("b&amp;c", "sm2", 2), api("d", "sm1", 1)]);
    let ids: Vec<&str> = vs.iter().map(|v| v.content_id.as_str()).collect();
    assert_eq!(ids, vec!["sm3", "sm2", "sm1"]);
    assert_eq!(vs[1].title, "b&c");
    assert!(parse_videos(vec![]).is_empty());
}
