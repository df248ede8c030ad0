use chrono::{DateTime, Duration, Utc};
use niconico_watcher::model::State;
use niconico_watcher::video::{NicoVideo, Timestamp};

fn timestamp(t: DateTime<Utc>) -> Timestamp {
    Timestamp { secs: t.timestamp(), nanos: t.timestamp_subsec_nanos() }
}

fn test_datum() -> (NicoVideo, NicoVideo, NicoVideo) {
    let mut test_datum = Vec::new();
    for i in 0..3 {
        test_datum.push(test_data(i));
    }
    let newer = test_datum.pop().unwrap();
    let n = test_datum.pop().unwrap();
    let older = test_datum.pop().unwrap();
    (older, n, newer)
}

fn test_data(i: i32) -> NicoVideo {
    let title = String::new();
    let content_id = format!("sm{}", i);
    let start_time = DateTime::parse_from_rfc3339(&format!("2022-02-{:02}T00:00:00Z", i + 13))
        .unwrap()
        .with_timezone(&Utc);

    NicoVideo::new(title, content_id, timestamp(start_time))
}

#[test]
fn test_movie_not_contains_in_prev() {
    let (older, nb, newer) = test_datum();
    let (_, n, _) = test_datum();
    let contains = false;
    let not_contains = true;
    assert_eq!(State::movie_not_contains_in_prev(&n, &[]), not_contains);
    assert_eq!(State::movie_not_contains_in_prev(&n, &[older]), not_contains);
    assert_eq!(State::movie_not_contains_in_prev(&n, &[nb]), contains);
    assert_eq!(State::movie_not_contains_in_prev(&n, &[newer]), not_contains);
}

#[test]
fn test_movie_newer_than_oldest_prev() {
    let (older, nb, newer) = test_datum();
    let (_, n, _) = test_datum();
    let old = false;
    let new = true;
    assert_eq!(State::movie_newer_than_oldest_prev(&n, None), new);
    assert_eq!(State::movie_newer_than_oldest_prev(&n, Some(&older)), new);
    assert_eq!(State::movie_newer_than_oldest_prev(&n, Some(&nb)), old);
    assert_eq!(State::movie_newer_than_oldest_prev(&n, Some(&newer)), old);
}

#[test]
fn test_movie_newer_eq_than_oldest_prev() {
    let (older, nb, newer) = test_datum();
    let (_, n, _) = test_datum();
    assert!(State::movie_newer_eq_than_oldest_prev(&n, None));
    assert!(State::movie_newer_eq_than_oldest_prev(&n, Some(&older)));
    assert!(State::movie_newer_eq_than_oldest_prev(&n, Some(&nb)));
    assert!(!State::movie_newer_eq_than_oldest_prev(&n, Some(&newer)));
}

#[test]
fn test_movie_postable() {
    let assert = |prev: Vec<NicoVideo>, next: Vec<NicoVideo>, expected: Vec<NicoVideo>| {
        let mut r = Vec::new();
        for n in next {
            if State::movie_postable(&n, &prev, prev.first()) {
                r.push(n);
            }
        }
        assert_eq!(expected, r);
    };

    assert(vec![test_data(1)], vec![test_data(1), test_data(2)], vec![test_data(2)]);
    assert(
        vec![test_data(1), test_data(3)],
        vec![test_data(1), test_data(2), test_data(3)],
        vec![test_data(2)],
    );
    assert(vec![test_data(1), test_data(2)], vec![test_data(1)], vec![]);
    assert(vec![test_data(1), test_data(2)], vec![test_data(3)], vec![test_data(3)]);
}

fn test_next_state_assert(movies_retrieve_turn: &[&[NicoVideo]], actual_posted: &[NicoVideo]) {
    test_next_state_assert_queue(movies_retrieve_turn, actual_posted, None);
}

fn test_next_state_assert_queue(
    movies_retrieve_turn: &[&[NicoVideo]],
    actual_posted: &[NicoVideo],
    queue: Option<&[NicoVideo]>,
) {
    let mut posted: Vec<NicoVideo> = Vec::new();

    let mut state = State::Unretrieved;
    for movies in movies_retrieve_turn {
        let mut new_posts = state.next_state(Some(Vec::from(*movies)));
        posted.append(&mut new_posts);
    }
    assert_eq!(actual_posted, posted);

    if let Some(queue) = queue {
        if let State::RetrievedLast { movies } = state {
            assert_eq!(queue, movies);
        } else {
            assert_eq!(queue, vec![]);
        }
    }
}

#[test]
fn test_next_state_1() {
    test_next_state_assert(
        &[
            &[test_data(1)],
            &[test_data(2), test_data(1)],
            &[test_data(3), test_data(2), test_data(1)],
            &[test_data(4), test_data(3), test_data(2), test_data(1)],
        ],
        &[test_data(2), test_data(3), test_data(4)],
    );
}

#[test]
fn test_next_state_2() {
    test_next_state_assert(
        &[
            &[test_data(4), test_data(2), test_data(1)],
            &[test_data(4), test_data(3), test_data(2)],
        ],
        &[test_data(3)],
    );
}

#[test]
fn test_next_state_3() {
    test_next_state_assert(
        &[
            &[test_data(4), test_data(3), test_data(2)],
            &[test_data(4), test_data(2), test_data(1)],
        ],
        &[],
    );
}

#[test]
fn test_next_state_4() {
    test_next_state_assert(&[&[], &[test_data(1)]], &[test_data(1)]);
}

#[test]
fn test_next_state_5() {
    test_next_state_assert(&[&[test_data(1)], &[]], &[]);
}

#[test]
fn test_next_state_6() {
    test_next_state_assert(
        &[
            &[test_data(4), test_data(3), test_data(2)],
            &[test_data(4), test_data(2), test_data(1)],
            &[test_data(4), test_data(3), test_data(2)],
            &[test_data(4), test_data(2), test_data(1)],
            &[test_data(4), test_data(3), test_data(2)],
        ],
        &[],
    );
}

#[test]
fn test_next_state_7() {
    test_next_state_assert(
        &[
            &[test_data(6), test_data(4), test_data(3)],
            &[test_data(6), test_data(5), test_data(4)],
            &[test_data(6), test_data(4), test_data(3)],
            &[test_data(6), test_data(5), test_data(4)],
            &[test_data(6), test_data(4), test_data(3)],
            &[test_data(7), test_data(6), test_data(4)],
            &[test_data(7), test_data(6), test_data(5)],
        ],
        &[test_data(5), test_data(7)],
    );
}

#[test]
fn test_next_state_8() {
    test_next_state_assert(
        &[
            &[test_data(7), test_data(6), test_data(5)],
            &[test_data(3), test_data(2), test_data(1)],
            &[test_data(7), test_data(6), test_data(5)],
        ],
        &[],
    );
}

#[test]
fn test_next_state_9() {
    test_next_state_assert_queue(
        &[&[test_data(1)], &[test_data(2), test_data(1)]],
        &[test_data(2)],
        Some(&[test_data(1), test_data(2)]),
    );
}

#[test]
fn test_next_state_10() {
    test_next_state_assert_queue(
        &[
            &[test_data(3), test_data(2), test_data(1)],
            &[test_data(6), test_data(5), test_data(4)],
        ],
        &[test_data(4), test_data(5), test_data(6)],
        Some(&[test_data(4), test_data(5), test_data(6)]),
    );
}

#[test]
fn test_next_state_11() {
    test_next_state_assert(
        &[
            &[test_data(3)],
            &[test_data(4), test_data(3)],
            &[test_data(6), test_data(4), test_data(3)],
            &[test_data(7), test_data(6), test_data(4), test_data(3)],
            &[test_data(7), test_data(5), test_data(4), test_data(1)],
        ],
        &[test_data(4), test_data(6), test_data(7), test_data(5)],
    );
}

fn vg(id: &str, datetime: DateTime<Utc>) -> NicoVideo {
    NicoVideo::new(id.to_string(), id.to_string(), timestamp(datetime))
}

#[test]
fn test_no_error() {
    let time = DateTime::parse_from_rfc3339("2020-09-01T00:00:00Z")
        .unwrap()
        .with_timezone(&Utc);
    let day1 = Duration::days(1);
    let mut state = State::RetrievedLast { movies: Vec::new() };
    let posted = state.next_state(Some(vec![vg("2", time), vg("1", time - day1)]));
    assert_eq!(posted, vec![vg("1", time - day1), vg("2", time)]);
}

#[test]
fn failed_retrieval_changes_nothing() {
    let mut state = State::RetrievedLast { movies: vec![test_data(1), test_data(2)] };
    let posted = state.next_state(None);
    assert!(posted.is_empty());
    match state {
        State::RetrievedLast { movies } => assert_eq!(movies, vec![test_data(1), test_data(2)]),
        State::Unretrieved => panic!("state was forgotten"),
    }

    let mut state = State::Unretrieved;
    assert!(state.next_state(None).is_empty());
    assert!(matches!(state, State::Unretrieved));
}

#[test]
fn first_retrieval_posts_nothing_and_remembers_oldest_first() {
    let mut state = State::Unretrieved;
    let posted = state.next_state(Some(vec![test_data(3), test_data(2), test_data(1)]));
    assert!(posted.is_empty());
    match state {
        State::RetrievedLast { movies } => {
            assert_eq!(movies, vec![test_data(1), test_data(2), test_data(3)])
        }
        State::Unretrieved => panic!("nothing remembered"),
    }
}

#[test]
fn same_list_twice_posts_once() {
    let list = vec![test_data(6), test_data(5), test_data(2)];
    let mut state = State::RetrievedLast { movies: vec![test_data(1), test_data(3)] };
    let first = state.next_state(Some(list.clone()));
    assert_eq!(first, vec![test_data(5), test_data(6)]);
    let queue_after_first = match &state {
        State::RetrievedLast { movies } => movies.clone(),
        State::Unretrieved => panic!("nothing remembered"),
    };
    assert_eq!(queue_after_first, vec![test_data(3), test_data(5), test_data(6)]);
    let second = state.next_state(Some(list));
    assert!(second.is_empty());
    match state {
        State::RetrievedLast { movies } => assert_eq!(movies, queue_after_first),
        State::Unretrieved => panic!("nothing remembered"),
    }
}

#[test]
fn video_url_is_watch_page() {
    let v = test_data(1);
    assert_eq!(v.url, "https://www.nicovideo.jp/watch/sm1");
    assert_eq!(v.duplicate(), v);
}

#[test]
fn timestamp_order() {
    let a = Timestamp { secs: 10, nanos: 5 };
    let b = Timestamp { secs: 10, nanos: 6 };
    let c = Timestamp { secs: 11, nanos: 0 };
    assert!(b.is_after(&a));
    assert!(!a.is_after(&b));
    assert!(c.is_after(&b));
    assert!(a.is_at_or_after(&a));
    assert!(!a.is_after(&a));
}

#[test]
fn unordered_list_twice_posts_once() {
    // The list is not ordered newest first: the second arrival still posts
    // nothing, though it forgets the video older than the list's last one.
    let list = vec![test_data(1), test_data(5)];
    let mut state = State::RetrievedLast { movies: Vec::new() };
    let first = state.next_state(Some(list.clone()));
    assert_eq!(first, vec![test_data(5), test_data(1)]);
    let second = state.next_state(Some(list));
    assert!(second.is_empty());
    match state {
        State::RetrievedLast { movies } => assert_eq!(movies, vec![test_data(5)]),
        State::Unretrieved => panic!("nothing remembered"),
    }
}

#[test]
fn late_listed_video_is_remembered_in_time_order() {
    // Remembered f, g; the list brings v, which started between them.
    let f = test_data(1);
    let v = test_data(2);
    let g = test_data(3);
    let mut state = State::RetrievedLast { movies: vec![f.clone(), g.clone()] };
    let posted = state.next_state(Some(vec![g.clone(), v.clone(), f.clone()]));
    assert_eq!(posted, vec![v.clone()]);
    match state {
        State::RetrievedLast { movies } => assert_eq!(movies, vec![f, v, g]),
        State::Unretrieved => panic!("nothing remembered"),
    }
}

#[test]
fn test_next_state_11_queue_oldest_first() {
    test_next_state_assert_queue(
        &[
            &[test_data(3)],
            &[test_data(4), test_data(3)],
            &[test_data(6), test_data(4), test_data(3)],
            &[test_data(7), test_data(6), test_data(4), test_data(3)],
            &[test_data(7), test_data(5), test_data(4), test_data(1)],
        ],
        &[test_data(4), test_data(6), test_data(7), test_data(5)],
        Some(&[test_data(3), test_data(4), test_data(5), test_data(6), test_data(7)]),
    );
}
