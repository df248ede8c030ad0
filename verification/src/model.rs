//! The watcher's state: which videos it remembers, and what it posts when a
//! new list of videos arrives.
use vstd::prelude::*;

use crate::video::{later, NicoVideo, VideoView};

verus! {

broadcast use vstd::seq_lib::group_seq_properties;

/// What the watcher knows.
pub enum State {
    /// No list of videos has been retrieved yet.
    Unretrieved,
    /// The videos remembered from the lists retrieved so far, the first
    /// oldest, the last newest.
    RetrievedLast { movies: Vec<NicoVideo> },
}

/// A state as mathematical values.
pub enum StateView {
    Unretrieved,
    RetrievedLast(Seq<VideoView>),
}

/// The views of a sequence of videos.
pub open spec fn views(s: Seq<NicoVideo>) -> Seq<VideoView> {
    s.map_values(|v: NicoVideo| v@)
}

/// The view of an optional video.
pub open spec fn opt_view(o: Option<&NicoVideo>) -> Option<VideoView> {
    match o {
        Some(v) => Some(v@),
        None => None,
    }
}

/// The view of an optional list of videos.
pub open spec fn list_view(o: Option<Vec<NicoVideo>>) -> Option<Seq<VideoView>> {
    match o {
        Some(v) => Some(views(v@)),
        None => None,
    }
}

impl View for State {
    type V = StateView;

    open spec fn view(&self) -> StateView {
        match self {
            State::Unretrieved => StateView::Unretrieved,
            State::RetrievedLast { movies } => StateView::RetrievedLast(views(movies@)),
        }
    }
}

/// The first element of a sequence, if any.
pub open spec fn first_of(s: Seq<VideoView>) -> Option<VideoView> {
    if s.len() == 0 { None } else { Some(s[0]) }
}

/// The last element of a sequence, if any.
pub open spec fn last_of(s: Seq<VideoView>) -> Option<VideoView> {
    if s.len() == 0 { None } else { Some(s[s.len() - 1]) }
}

/// No video of `previous` has the content id of `target`.
pub open spec fn not_contained(target: VideoView, previous: Seq<VideoView>) -> bool {
    forall|i: int| 0 <= i < previous.len() ==> previous[i].content_id != target.content_id
}

/// `target` started strictly after `oldest`, or there is no `oldest`.
pub open spec fn newer_than(target: VideoView, oldest: Option<VideoView>) -> bool {
    match oldest {
        Some(o) => later(target.start_time, o.start_time),
        None => true,
    }
}

/// `target` started no earlier than `oldest`, or there is no `oldest`.
pub open spec fn newer_eq_than(target: VideoView, oldest: Option<VideoView>) -> bool {
    match oldest {
        Some(o) => !later(o.start_time, target.start_time),
        None => true,
    }
}

/// `target` is to be posted: it is not remembered in `previous`, and it is
/// newer than `oldest`.
pub open spec fn postable(target: VideoView, previous: Seq<VideoView>, oldest: Option<VideoView>) -> bool {
    not_contained(target, previous) && newer_than(target, oldest)
}

/// Which remembered videos stay when `next` arrives: those no older than the
/// last (oldest) video of `next`.
pub open spec fn keep_pred(next: Seq<VideoView>) -> spec_fn(VideoView) -> bool {
    |m: VideoView| newer_eq_than(m, last_of(next))
}

/// Which arriving videos are new, given the videos `kept` in memory.
pub open spec fn post_pred(kept: Seq<VideoView>) -> spec_fn(VideoView) -> bool {
    |v: VideoView| postable(v, kept, first_of(kept))
}

/// The remembered videos that stay when `next` arrives, in their order.
pub open spec fn retained(current: Seq<VideoView>, next: Seq<VideoView>) -> Seq<VideoView> {
    current.filter(keep_pred(next))
}

/// The videos of `next` (newest first) that are to be posted, oldest first.
pub open spec fn fresh(kept: Seq<VideoView>, next: Seq<VideoView>) -> Seq<VideoView> {
    next.reverse().filter(post_pred(kept))
}

/// `v` put into `q` right after the last video of `q` that did not start
/// after it (at the front where every video of `q` started after it).
pub open spec fn insert_by_time(q: Seq<VideoView>, v: VideoView) -> Seq<VideoView>
    decreases q.len(),
{
    if q.len() == 0 {
        seq![v]
    } else if later(q.last().start_time, v.start_time) {
        insert_by_time(q.drop_last(), v).push(q.last())
    } else {
        q.push(v)
    }
}

/// The videos of `s` put into `q` one after another, each by its start time.
pub open spec fn insert_all_by_time(q: Seq<VideoView>, s: Seq<VideoView>) -> Seq<VideoView>
    decreases s.len(),
{
    if s.len() == 0 {
        q
    } else {
        insert_by_time(insert_all_by_time(q, s.drop_last()), s.last())
    }
}

/// One step of the watcher: from the state and the list of videos that was
/// retrieved (newest first; `None` where retrieving failed) to the next state
/// and the videos to post, in the order in which they are posted.
pub open spec fn step(s: StateView, fetched: Option<Seq<VideoView>>) -> (StateView, Seq<VideoView>) {
    match fetched {
        None => (s, Seq::empty()),
        Some(next) => match s {
            StateView::Unretrieved => (StateView::RetrievedLast(next.reverse()), Seq::empty()),
            StateView::RetrievedLast(current) => {
                let kept = retained(current, next);
                let new_movies = fresh(kept, next);
                (StateView::RetrievedLast(insert_all_by_time(kept, new_movies)), new_movies)
            },
        },
    }
}

impl State {
    /// Whether no video of `previous` has the content id of `target`.
    pub fn movie_not_contains_in_prev(target: &NicoVideo, previous: &[NicoVideo]) -> (r: bool)
        ensures
            r == not_contained(target@, views(previous@)),
    {
        let mut i: usize = 0;
        while i < previous.len()
            invariant
                i <= previous@.len(),
                forall|j: int| 0 <= j < i ==> previous@[j].content_id@ != target.content_id@,
            decreases previous@.len() - i,
        {
            if target.content_id == previous[i].content_id {
                assert(views(previous@)[i as int].content_id == target@.content_id);
                return false;
            }
            i = i + 1;
        }
        true
    }

    /// Whether `target` started strictly after `oldest` (true where there is
    /// no `oldest`).
    pub fn movie_newer_than_oldest_prev(target: &NicoVideo, oldest: Option<&NicoVideo>) -> (r: bool)
        ensures
            r == newer_than(target@, opt_view(oldest)),
    {
        match oldest {
            Some(prev_most_old) => target.start_time.is_after(&prev_most_old.start_time),
            None => true,
        }
    }

    /// Whether `target` started no earlier than `oldest` (true where there is
    /// no `oldest`).
    pub fn movie_newer_eq_than_oldest_prev(target: &NicoVideo, oldest: Option<&NicoVideo>) -> (r: bool)
        ensures
            r == newer_eq_than(target@, opt_view(oldest)),
    {
        match oldest {
            Some(prev_most_old) => target.start_time.is_at_or_after(&prev_most_old.start_time),
            None => true,
        }
    }

    /// Whether `target` is to be posted: not among `previous`, and newer than
    /// `oldest`.
    pub fn movie_postable(target: &NicoVideo, previous: &[NicoVideo], oldest: Option<&NicoVideo>) -> (r: bool)
        ensures
            r == postable(target@, views(previous@), opt_view(oldest)),
    {
        State::movie_not_contains_in_prev(target, previous)
            && State::movie_newer_than_oldest_prev(target, oldest)
    }
    /// The last video of `videos`, if any.
    fn last_video(videos: &Vec<NicoVideo>) -> (r: Option<&NicoVideo>)
        ensures
            opt_view(r) == last_of(views(videos@)),
    {
        if videos.len() == 0 {
            None
        } else {
            Some(&videos[videos.len() - 1])
        }
    }

    /// The first video of `videos`, if any.
    fn first_video(videos: &Vec<NicoVideo>) -> (r: Option<&NicoVideo>)
        ensures
            opt_view(r) == first_of(views(videos@)),
    {
        if videos.len() == 0 {
            None
        } else {
            Some(&videos[0])
        }
    }

    /// The videos of `current` that stay in memory when `next` arrives.
    fn retain_newer(current: &Vec<NicoVideo>, next: &Vec<NicoVideo>) -> (kept: Vec<NicoVideo>)
        ensures
            views(kept@) == retained(views(current@), views(next@)),
    {
        let ghost cv = views(current@);
        let ghost pred = keep_pred(views(next@));
        let next_oldest = State::last_video(next);
        let mut kept: Vec<NicoVideo> = Vec::new();
        let mut i: usize = 0;
        while i < current.len()
            invariant
                i <= current@.len(),
                cv == views(current@),
                pred == keep_pred(views(next@)),
                opt_view(next_oldest) == last_of(views(next@)),
                views(kept@) == cv.take(i as int).filter(pred),
            decreases current@.len() - i,
        {
            assert(cv.take(i + 1) =~= cv.take(i as int).push(cv[i as int]));
            proof { cv.take(i as int).lemma_filter_push(cv[i as int], pred); }
            if State::movie_newer_eq_than_oldest_prev(&current[i], next_oldest) {
                let ghost before = kept@;
                kept.push(current[i].duplicate());
                assert(views(kept@) =~= views(before).push(cv[i as int]));
            }
            i = i + 1;
        }
        assert(cv.take(current@.len() as int) =~= cv);
        kept
    }

    /// The videos of `next` (newest first) that are new with respect to
    /// `kept`, oldest first.
    fn collect_fresh(kept: &Vec<NicoVideo>, next: &Vec<NicoVideo>) -> (r: Vec<NicoVideo>)
        ensures
            views(r@) == fresh(views(kept@), views(next@)),
    {
        let ghost rv = views(next@).reverse();
        let ghost pred = post_pred(views(kept@));
        let kept_oldest = State::first_video(kept);
        let mut r: Vec<NicoVideo> = Vec::new();
        let mut i: usize = next.len();
        while i > 0
            invariant
                i <= next@.len(),
                rv == views(next@).reverse(),
                pred == post_pred(views(kept@)),
                opt_view(kept_oldest) == first_of(views(kept@)),
                views(r@) == rv.take(next@.len() - i).filter(pred),
            decreases i,
        {
            i = i - 1;
            let ghost k = next@.len() - 1 - i;
            assert(rv[k] == views(next@)[i as int]);
            assert(rv.take(k + 1) =~= rv.take(k).push(rv[k]));
            proof { rv.take(k).lemma_filter_push(rv[k], pred); }
            if State::movie_postable(&next[i], kept.as_slice(), kept_oldest) {
                let ghost before = r@;
                r.push(next[i].duplicate());
                assert(views(r@) =~= views(before).push(rv[k]));
            }
        }
        assert(rv.take(next@.len() as int) =~= rv);
        r
    }

    /// Puts `v` into `queue` right after the last video that did not start
    /// after it.
    fn insert_by_start_time(queue: &mut Vec<NicoVideo>, v: NicoVideo)
        ensures
            views(final(queue)@) == insert_by_time(views(old(queue)@), v@),
    {
        let ghost qv = views(queue@);
        let mut i: usize = queue.len();
        while i > 0 && queue[i - 1].start_time.is_after(&v.start_time)
            invariant
                i <= queue@.len(),
                qv == views(queue@),
                insert_by_time(qv, v@) == insert_by_time(qv.take(i as int), v@) + qv.skip(i as int),
            decreases i,
        {
            let ghost t = qv.take(i as int);
            assert(t.drop_last() =~= qv.take(i - 1));
            assert(t.last() == qv[i - 1]);
            assert(insert_by_time(t, v@) == insert_by_time(qv.take(i - 1), v@).push(qv[i - 1]));
            assert(insert_by_time(qv.take(i - 1), v@).push(qv[i - 1]) + qv.skip(i as int)
                =~= insert_by_time(qv.take(i - 1), v@) + qv.skip(i - 1));
            i = i - 1;
        }
        let ghost vv = v@;
        if i > 0 {
            assert(qv.take(i as int).last() == qv[i - 1]);
            assert(insert_by_time(qv.take(i as int), vv) == qv.take(i as int).push(vv));
        }
        queue.insert(i, v);
        assert(views(queue@) =~= qv.insert(i as int, vv));
        assert(qv.insert(i as int, vv) =~= insert_by_time(qv, vv));
    }

    /// Takes in the list of videos that was retrieved (newest first; `None`
    /// where retrieving failed) and returns the videos to post, oldest first.
    ///
    /// The first list that arrives is remembered and nothing is posted. From
    /// then on, the remembered videos older than the oldest arriving video are
    /// forgotten, and an arriving video is posted and remembered where no
    /// remembered video has its content id and it is newer than the first
    /// remembered video. Each posted video is remembered at its place by start
    /// time, right after the last remembered video that did not start after
    /// it.
    pub fn next_state(&mut self, fetched: Option<Vec<NicoVideo>>) -> (posted: Vec<NicoVideo>)
        ensures
            (final(self)@, views(posted@)) == step(old(self)@, list_view(fetched)),
    {
        match fetched {
            None => Vec::new(),
            Some(next) => {
                match self {
                    State::Unretrieved => {
                        let mut movies: Vec<NicoVideo> = Vec::new();
                        let mut i: usize = next.len();
                        let ghost nv = views(next@);
                        while i > 0
                            invariant
                                i <= next@.len(),
                                nv == views(next@),
                                views(movies@) == nv.reverse().take(next@.len() - i),
                            decreases i,
                        {
                            i = i - 1;
                            let ghost before = movies@;
                            movies.push(next[i].duplicate());
                            let ghost k = next@.len() - 1 - i;
                            assert(nv.reverse()[k] == nv[i as int]);
                            assert(views(movies@) =~= views(before).push(nv[i as int]));
                            assert(nv.reverse().take(k + 1) =~= nv.reverse().take(k).push(nv.reverse()[k]));
                            assert(views(movies@) =~= nv.reverse().take(next@.len() - i));
                        }
                        assert(nv.reverse().take(next@.len() as int) =~= nv.reverse());
                        *self = State::RetrievedLast { movies };
                        Vec::new()
                    },
                    State::RetrievedLast { movies } => {
                        let ghost nv = views(next@);
                        let mut kept = State::retain_newer(movies, &next);
                        let new_movies = State::collect_fresh(&kept, &next);
                        let ghost kv = views(kept@);
                        let mut j: usize = 0;
                        while j < new_movies.len()
                            invariant
                                j <= new_movies@.len(),
                                views(kept@) == insert_all_by_time(kv, views(new_movies@).take(j as int)),
                            decreases new_movies@.len() - j,
                        {
                            let ghost nm = views(new_movies@);
                            State::insert_by_start_time(&mut kept, new_movies[j].duplicate());
                            assert(nm.take(j + 1).drop_last() =~= nm.take(j as int));
                            assert(nm.take(j + 1).last() == nm[j as int]);
                            j = j + 1;
                        }
                        assert(views(new_movies@).take(new_movies@.len() as int) =~= views(new_movies@));
                        *movies = kept;
                        new_movies
                    },
                }
            },
        }
    }
}

/// The videos of `s` are ordered newest first: no video started after one
/// that comes before it.
pub open spec fn newest_first(s: Seq<VideoView>) -> bool {
    forall|i: int, j: int| 0 <= i < j < s.len() ==> !later(s[j].start_time, s[i].start_time)
}

/// The videos of `s` are ordered oldest first: no video started before one
/// that comes before it.
pub open spec fn oldest_first(s: Seq<VideoView>) -> bool {
    forall|i: int, j: int| 0 <= i < j < s.len() ==> !later(s[i].start_time, s[j].start_time)
}

/// Filtering by a predicate that every element meets keeps the sequence.
proof fn lemma_filter_keeps_all(s: Seq<VideoView>, p: spec_fn(VideoView) -> bool)
    requires
        forall|i: int| 0 <= i < s.len() ==> p(s[i]),
    ensures
        s.filter(p) == s,
    decreases s.len(),
{
    reveal(Seq::filter);
    if s.len() > 0 {
        lemma_filter_keeps_all(s.drop_last(), p);
        assert(s.drop_last().push(s.last()) =~= s);
    }
}

/// Filtering by a predicate that no element meets leaves nothing.
proof fn lemma_filter_drops_all(s: Seq<VideoView>, p: spec_fn(VideoView) -> bool)
    requires
        forall|i: int| 0 <= i < s.len() ==> !p(s[i]),
    ensures
        s.filter(p) == Seq::<VideoView>::empty(),
    decreases s.len(),
{
    reveal(Seq::filter);
    if s.len() > 0 {
        lemma_filter_drops_all(s.drop_last(), p);
    }
}

/// Every element of a filtered sequence is an element of the sequence and
/// meets the predicate.
proof fn lemma_filter_elements(s: Seq<VideoView>, p: spec_fn(VideoView) -> bool)
    ensures
        forall|i: int| 0 <= i < s.filter(p).len() ==> p(#[trigger] s.filter(p)[i]) && s.contains(s.filter(p)[i]),
{
    broadcast use vstd::seq_lib::group_filter_ensures;
    assert forall|i: int| 0 <= i < s.filter(p).len() implies p(#[trigger] s.filter(p)[i]) && s.contains(s.filter(p)[i]) by {
        assert(s.filter(p).contains(s.filter(p)[i]));
        s.lemma_filter_contains_rev(p, s.filter(p)[i]);
    }
}

/// Where the first element meets the predicate, the filtered sequence starts
/// with it.
proof fn lemma_filter_first(s: Seq<VideoView>, p: spec_fn(VideoView) -> bool)
    requires
        s.len() > 0,
        p(s[0]),
    ensures
        s.filter(p).len() > 0,
        s.filter(p)[0] == s[0],
    decreases s.len(),
{
    reveal(Seq::filter);
    if s.len() > 1 {
        lemma_filter_first(s.drop_last(), p);
    } else {
        lemma_filter_keeps_all(s.drop_last(), p);
    }
}

/// Filtering keeps a sequence ordered oldest first.
proof fn lemma_filter_oldest_first(s: Seq<VideoView>, p: spec_fn(VideoView) -> bool)
    requires
        oldest_first(s),
    ensures
        oldest_first(s.filter(p)),
    decreases s.len(),
{
    reveal(Seq::filter);
    if s.len() > 0 {
        let d = s.drop_last();
        assert forall|i: int, j: int| 0 <= i < j < d.len() implies !later(d[i].start_time, d[j].start_time) by {
            assert(d[i] == s[i]);
            assert(d[j] == s[j]);
        }
        lemma_filter_oldest_first(d, p);
        lemma_filter_elements(d, p);
        let f = d.filter(p);
        assert forall|i: int| 0 <= i < f.len() implies !later(#[trigger] f[i].start_time, s.last().start_time) by {
            let k = choose|k: int| 0 <= k < d.len() && d[k] == f[i];
            assert(s[k] == d[k]);
            assert(!later(s[k].start_time, s[s.len() - 1].start_time));
        }
    }
}

/// What inserting by time holds: the videos of `q` and `v`, and nothing else.
proof fn lemma_insert_contents(q: Seq<VideoView>, v: VideoView)
    ensures
        insert_by_time(q, v).len() == q.len() + 1,
        forall|x: VideoView| #[trigger] insert_by_time(q, v).contains(x) <==> (q.contains(x) || x == v),
    decreases q.len(),
{
    if q.len() > 0 && later(q.last().start_time, v.start_time) {
        let d = q.drop_last();
        lemma_insert_contents(d, v);
        assert forall|x: VideoView| #[trigger] insert_by_time(q, v).contains(x) <==> (q.contains(x) || x == v) by {
            if q.contains(x) {
                let k = choose|k: int| 0 <= k < q.len() && q[k] == x;
                if k < q.len() - 1 {
                    assert(d[k] == x);
                }
            }
            if insert_by_time(d, v).contains(x) {
                if x != v {
                    let k = choose|k: int| 0 <= k < d.len() && d[k] == x;
                    assert(q[k] == x);
                }
            }
        }
    } else if q.len() == 0 {
        assert(insert_by_time(q, v) =~= seq![v]);
    }
}

/// Inserting by time leaves the first video in front where it did not start
/// after the inserted one.
proof fn lemma_insert_first(q: Seq<VideoView>, v: VideoView)
    requires
        q.len() > 0,
        !later(q[0].start_time, v.start_time),
    ensures
        insert_by_time(q, v)[0] == q[0],
    decreases q.len(),
{
    lemma_insert_contents(q, v);
    if later(q.last().start_time, v.start_time) {
        lemma_insert_first(q.drop_last(), v);
        lemma_insert_contents(q.drop_last(), v);
    }
}

/// Inserting by time keeps a sequence ordered oldest first.
proof fn lemma_insert_oldest_first(q: Seq<VideoView>, v: VideoView)
    requires
        oldest_first(q),
    ensures
        oldest_first(insert_by_time(q, v)),
    decreases q.len(),
{
    if q.len() > 0 {
        let d = q.drop_last();
        assert forall|i: int, j: int| 0 <= i < j < d.len() implies !later(d[i].start_time, d[j].start_time) by {
            assert(d[i] == q[i]);
            assert(d[j] == q[j]);
        }
        if later(q.last().start_time, v.start_time) {
            lemma_insert_oldest_first(d, v);
            lemma_insert_contents(d, v);
            let r = insert_by_time(d, v);
            assert forall|i: int| 0 <= i < r.len() implies !later(#[trigger] r[i].start_time, q.last().start_time) by {
                assert(r.contains(r[i]));
                if r[i] != v {
                    let k = choose|k: int| 0 <= k < d.len() && d[k] == r[i];
                    assert(q[k] == d[k]);
                    assert(!later(q[k].start_time, q[q.len() - 1].start_time));
                }
            }
            let t = r.push(q.last());
            assert(t == insert_by_time(q, v));
            assert forall|i: int, j: int| 0 <= i < j < t.len() implies !later(t[i].start_time, t[j].start_time) by {
                if j < r.len() {
                    assert(t[i] == r[i]);
                    assert(t[j] == r[j]);
                    assert(!later(r[i].start_time, r[j].start_time));
                } else {
                    assert(t[i] == r[i]);
                    assert(!later(r[i].start_time, q.last().start_time));
                }
            }
        } else {
            let t = q.push(v);
            assert(t == insert_by_time(q, v));
            assert(q.last() == q[q.len() - 1]);
            assert(!later(q[q.len() - 1].start_time, v.start_time));
            assert forall|i: int, j: int| 0 <= i < j < t.len() implies !later(t[i].start_time, t[j].start_time) by {
                if j < q.len() {
                    assert(t[i] == q[i]);
                    assert(t[j] == q[j]);
                    assert(!later(q[i].start_time, q[j].start_time));
                } else {
                    assert(t[i] == q[i]);
                    assert(t[j] == v);
                    if i < q.len() - 1 {
                        assert(!later(q[i].start_time, q[q.len() - 1].start_time));
                    }
                }
            }
        }
    }
}

/// What inserting a sequence by time holds: the videos of both.
proof fn lemma_insert_all_contents(q: Seq<VideoView>, s: Seq<VideoView>)
    ensures
        insert_all_by_time(q, s).len() == q.len() + s.len(),
        forall|x: VideoView| #[trigger] insert_all_by_time(q, s).contains(x) <==> (q.contains(x) || s.contains(x)),
    decreases s.len(),
{
    if s.len() > 0 {
        let d = s.drop_last();
        lemma_insert_all_contents(q, d);
        lemma_insert_contents(insert_all_by_time(q, d), s.last());
        assert forall|x: VideoView| #[trigger] insert_all_by_time(q, s).contains(x) <==> (q.contains(x) || s.contains(x)) by {
            if s.contains(x) && x != s.last() {
                let k = choose|k: int| 0 <= k < s.len() && s[k] == x;
                assert(d[k] == x);
            }
            if d.contains(x) {
                let k = choose|k: int| 0 <= k < d.len() && d[k] == x;
                assert(s[k] == x);
            }
        }
    }
}

/// Inserting videos that all started after the first video of `q` leaves
/// that video in front.
proof fn lemma_insert_all_first(q: Seq<VideoView>, s: Seq<VideoView>)
    requires
        q.len() > 0,
        forall|i: int| 0 <= i < s.len() ==> later(#[trigger] s[i].start_time, q[0].start_time),
    ensures
        insert_all_by_time(q, s)[0] == q[0],
    decreases s.len(),
{
    if s.len() > 0 {
        let d = s.drop_last();
        assert forall|i: int| 0 <= i < d.len() implies later(#[trigger] d[i].start_time, q[0].start_time) by {
            assert(d[i] == s[i]);
        }
        lemma_insert_all_first(q, d);
        lemma_insert_all_contents(q, d);
        assert(later(s[s.len() - 1].start_time, q[0].start_time));
        lemma_insert_first(insert_all_by_time(q, d), s.last());
    }
}

/// Inserting a sequence by time keeps a sequence ordered oldest first.
proof fn lemma_insert_all_oldest_first(q: Seq<VideoView>, s: Seq<VideoView>)
    requires
        oldest_first(q),
    ensures
        oldest_first(insert_all_by_time(q, s)),
    decreases s.len(),
{
    if s.len() > 0 {
        lemma_insert_all_oldest_first(q, s.drop_last());
        lemma_insert_oldest_first(insert_all_by_time(q, s.drop_last()), s.last());
    }
}

/// The memory after a step, where the step ends with one.
pub open spec fn memory_of(s: StateView) -> Seq<VideoView> {
    match s {
        StateView::RetrievedLast(q) => q,
        StateView::Unretrieved => Seq::empty(),
    }
}

/// What a step remembers: where it ends with a memory, the videos kept and
/// those posted, and nothing else.
proof fn lemma_step_memory(current: Seq<VideoView>, next: Seq<VideoView>)
    ensures
        ({
            let kept = retained(current, next);
            let queue = memory_of(step(StateView::RetrievedLast(current), Some(next)).0);
            forall|x: VideoView| #[trigger] queue.contains(x) <==> (kept.contains(x) || fresh(kept, next).contains(x))
        }),
{
    let kept = retained(current, next);
    lemma_insert_all_contents(kept, fresh(kept, next));
}

/// A list that arrives newest first is remembered oldest first, and a memory
/// ordered oldest first stays so after any list arrives: the remembered
/// videos run from the oldest to the newest.
pub proof fn lemma_memory_stays_oldest_first(s: StateView, next: Seq<VideoView>)
    requires
        newest_first(next),
        s matches StateView::RetrievedLast(q) ==> oldest_first(q),
    ensures
        step(s, Some(next)).0 matches StateView::RetrievedLast(q) && oldest_first(q),
{
    match s {
        StateView::Unretrieved => {
            let r = next.reverse();
            assert forall|i: int, j: int| 0 <= i < j < r.len() implies !later(r[i].start_time, r[j].start_time) by {
                assert(r[i] == next[next.len() - 1 - i]);
                assert(r[j] == next[next.len() - 1 - j]);
                assert(!later(next[next.len() - 1 - i].start_time, next[next.len() - 1 - j].start_time));
            }
            assert(oldest_first(r));
            assert(step(s, Some(next)).0 == StateView::RetrievedLast(r));
        },
        StateView::RetrievedLast(current) => {
            let kept = retained(current, next);
            lemma_filter_oldest_first(current, keep_pred(next));
            lemma_insert_all_oldest_first(kept, fresh(kept, next));
        },
    }
}

/// Where the same list of videos arrives twice in a row, the second arrival
/// posts nothing, whatever the state before and whatever the order of the
/// list: a video is not posted twice for one list.
pub proof fn lemma_same_list_posts_nothing(s: StateView, next: Seq<VideoView>)
    ensures
        step(step(s, Some(next)).0, Some(next)).1 == Seq::<VideoView>::empty(),
{
    broadcast use vstd::seq_lib::group_filter_ensures;
    let rv = next.reverse();
    let kp = keep_pred(next);
    let queue = memory_of(step(s, Some(next)).0);
    let kept2 = queue.filter(kp);
    lemma_filter_elements(queue, kp);
    // A video that is in the memory and meets `kp` stays in memory.
    assert forall|x: VideoView| queue.contains(x) && kp(x) implies #[trigger] kept2.contains(x) by {
        let k = choose|k: int| 0 <= k < queue.len() && queue[k] == x;
    }
    if let StateView::RetrievedLast(current) = s {
        lemma_step_memory(current, next);
        lemma_filter_elements(current, kp);
        let kept = retained(current, next);
        lemma_filter_elements(rv, post_pred(kept));
        lemma_insert_all_contents(kept, fresh(kept, next));
    }
    // Where the list is not empty, the memory keeps a video.
    if next.len() > 0 {
        let last = next[next.len() - 1];
        assert(rv[0] == last);
        assert(kp(last));
        match s {
            StateView::Unretrieved => {
                assert(queue[0] == last);
                assert(queue.contains(last));
                assert(kept2.contains(last));
            },
            StateView::RetrievedLast(current) => {
                let kept = retained(current, next);
                if kept.len() == 0 {
                    lemma_filter_keeps_all(rv, post_pred(kept));
                    assert(fresh(kept, next)[0] == last);
                    assert(fresh(kept, next).contains(last));
                    assert(queue.contains(last));
                    assert(kept2.contains(last));
                } else {
                    assert(kept.contains(kept[0]));
                    assert(queue.contains(kept[0]));
                    assert(kp(kept[0]));
                    assert(kept2.contains(kept[0]));
                }
            },
        }
        assert(kept2.len() > 0);
    }
    let pp = post_pred(kept2);
    assert forall|i: int| 0 <= i < rv.len() implies !pp(rv[i]) by {
        let v = rv[i];
        assert(v == next[next.len() - 1 - i]);
        if kp(v) {
            match s {
                StateView::Unretrieved => {
                    assert(queue[i] == v);
                    assert(kept2.contains(v));
                },
                StateView::RetrievedLast(current) => {
                    let kept = retained(current, next);
                    let new_movies = fresh(kept, next);
                    if post_pred(kept)(v) {
                        assert(new_movies.contains(v));
                        assert(kept2.contains(v));
                    } else if !not_contained(v, kept) {
                        let k = choose|k: int| 0 <= k < kept.len() && kept[k].content_id == v.content_id;
                        assert(kept.contains(kept[k]));
                        assert(kept2.contains(kept[k]));
                        let j = choose|j: int| 0 <= j < kept2.len() && kept2[j] == kept[k];
                    } else {
                        assert forall|m: int| 0 <= m < new_movies.len() implies later(
                            #[trigger] new_movies[m].start_time,
                            kept[0].start_time,
                        ) by {
                            assert(post_pred(kept)(new_movies[m]));
                        }
                        lemma_insert_all_first(kept, new_movies);
                        assert(kp(kept[0]));
                        lemma_filter_first(queue, kp);
                    }
                },
            }
        } else {
            assert(kp(kept2[0]));
        }
    }
    lemma_filter_drops_all(rv, pp);
}

/// Where the same list of videos, ordered newest first as the search returns
/// it, arrives twice in a row, the second arrival posts nothing and leaves
/// the state as the first arrival left it.
pub proof fn lemma_next_state_idempotent(s: StateView, next: Seq<VideoView>)
    requires
        newest_first(next),
    ensures
        step(step(s, Some(next)).0, Some(next)) == (step(s, Some(next)).0, Seq::<VideoView>::empty()),
{
    broadcast use vstd::seq_lib::group_filter_ensures;
    lemma_same_list_posts_nothing(s, next);
    let rv = next.reverse();
    let kp = keep_pred(next);
    // Every arriving video is no older than the last arriving video.
    assert forall|i: int| 0 <= i < rv.len() implies kp(rv[i]) by {
        let j = next.len() - 1 - i;
        assert(rv[i] == next[j]);
        if j < next.len() - 1 {
            assert(!later(next[next.len() - 1].start_time, next[j].start_time));
        }
    }
    let queue = memory_of(step(s, Some(next)).0);
    match s {
        StateView::Unretrieved => {
            lemma_filter_keeps_all(rv, kp);
        },
        StateView::RetrievedLast(current) => {
            let kept = retained(current, next);
            let new_movies = fresh(kept, next);
            lemma_filter_elements(current, kp);
            lemma_filter_elements(rv, post_pred(kept));
            lemma_insert_all_contents(kept, new_movies);
            assert forall|i: int| 0 <= i < queue.len() implies kp(queue[i]) by {
                assert(queue.contains(queue[i]));
                if kept.contains(queue[i]) {
                    let k = choose|k: int| 0 <= k < kept.len() && kept[k] == queue[i];
                } else {
                    let k = choose|k: int| 0 <= k < new_movies.len() && new_movies[k] == queue[i];
                    let m = choose|m: int| 0 <= m < rv.len() && rv[m] == new_movies[k];
                }
            }
            lemma_filter_keeps_all(queue, kp);
        },
    }
}

/// Every video that a step posts arrived in the list, is not remembered (by
/// its content id) among the videos that stay in memory, and started after
/// the first of them.
pub proof fn lemma_posted_are_new(current: Seq<VideoView>, next: Seq<VideoView>)
    ensures
        ({
            let kept = retained(current, next);
            let posted = step(StateView::RetrievedLast(current), Some(next)).1;
            forall|i: int|
                0 <= i < posted.len() ==> next.contains(#[trigger] posted[i])
                    && not_contained(posted[i], kept) && newer_than(posted[i], first_of(kept))
        }),
{
    let kept = retained(current, next);
    let rv = next.reverse();
    lemma_filter_elements(rv, post_pred(kept));
    let posted = rv.filter(post_pred(kept));
    assert forall|i: int| 0 <= i < posted.len() implies next.contains(#[trigger] posted[i]) by {
        let k = choose|k: int| 0 <= k < rv.len() && rv[k] == posted[i];
        assert(next[next.len() - 1 - k] == posted[i]);
    }
}

/// The videos that stay in memory when a list arrives are exactly the
/// remembered videos that did not start before the list's last (oldest)
/// video; all remembered videos stay when the list is empty.
pub proof fn lemma_retained_contents(current: Seq<VideoView>, next: Seq<VideoView>)
    ensures
        forall|x: VideoView| #[trigger] retained(current, next).contains(x) <==> (current.contains(x) && (
            next.len() == 0 || !later(next[next.len() - 1].start_time, x.start_time))),
{
    broadcast use vstd::seq_lib::group_filter_ensures;
    let kp = keep_pred(next);
    assert forall|x: VideoView| #[trigger] retained(current, next).contains(x) <==> (current.contains(x) && (
        next.len() == 0 || !later(next[next.len() - 1].start_time, x.start_time))) by {
        if retained(current, next).contains(x) {
            current.lemma_filter_contains_rev(kp, x);
            let k = choose|k: int| 0 <= k < current.filter(kp).len() && current.filter(kp)[k] == x;
            assert(kp(current.filter(kp)[k]));
        }
        if current.contains(x) && (next.len() == 0 || !later(next[next.len() - 1].start_time, x.start_time)) {
            let k = choose|k: int| 0 <= k < current.len() && current[k] == x;
            assert(kp(current[k]));
        }
    }
}

/// Every video of the arriving list that no video staying in memory matches
/// by content id, and that started strictly after the first video staying
/// in memory (or with nothing staying in memory), is posted.
pub proof fn lemma_new_videos_are_posted(current: Seq<VideoView>, next: Seq<VideoView>)
    ensures
        ({
            let kept = retained(current, next);
            let posted = step(StateView::RetrievedLast(current), Some(next)).1;
            forall|t: VideoView|
                next.contains(t)
                    && (forall|i: int| 0 <= i < kept.len() ==> kept[i].content_id != t.content_id)
                    && (kept.len() == 0 || later(t.start_time, kept[0].start_time))
                    ==> #[trigger] posted.contains(t)
        }),
{
    broadcast use vstd::seq_lib::group_filter_ensures;
    let kept = retained(current, next);
    let rv = next.reverse();
    let pp = post_pred(kept);
    assert forall|t: VideoView|
        next.contains(t)
            && (forall|i: int| 0 <= i < kept.len() ==> kept[i].content_id != t.content_id)
            && (kept.len() == 0 || later(t.start_time, kept[0].start_time))
        implies #[trigger] rv.filter(pp).contains(t) by {
        let k = choose|k: int| 0 <= k < next.len() && next[k] == t;
        let j = next.len() - 1 - k;
        assert(rv[j] == t);
        assert(pp(rv[j]));
    }
}

} // verus!
