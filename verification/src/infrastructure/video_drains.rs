//! The active video drains of a LiveKit session, one per subscribed video
//! track, and the decisions the session's event loop takes on each event.
//!
//! A drain is whatever the caller runs to consume one track's frames (in the
//! application, a subscription handle and the task that drains it); this
//! module only keeps the books: which track has which drain, and which
//! drains must be stopped when.

use vstd::prelude::*;

verus! {

/// The map of track ids to drains that a list of entries stands for.
pub open spec fn pairs_map<D>(s: Seq<(String, D)>) -> Map<Seq<char>, D>
    decreases s.len(),
{
    if s.len() == 0 {
        Map::empty()
    } else {
        pairs_map(s.drop_last()).insert(s.last().0@, s.last().1)
    }
}

/// No track id occurs twice among the entries.
pub open spec fn distinct_keys<D>(s: Seq<(String, D)>) -> bool {
    forall|i: int, j: int| 0 <= i < j < s.len() ==> s[i].0@ != s[j].0@
}

proof fn lemma_pairs_map_dom<D>(s: Seq<(String, D)>, k: Seq<char>)
    ensures
        pairs_map(s).contains_key(k) <==> exists|i: int| 0 <= i < s.len() && s[i].0@ == k,
    decreases s.len(),
{
    if s.len() > 0 {
        lemma_pairs_map_dom(s.drop_last(), k);
        if pairs_map(s.drop_last()).contains_key(k) {
            let i: int = choose|i: int| 0 <= i < s.drop_last().len() && s.drop_last()[i].0@ == k;
            assert(s[i].0@ == k);
        }
        if exists|i: int| 0 <= i < s.len() && s[i].0@ == k {
            let i: int = choose|i: int| 0 <= i < s.len() && s[i].0@ == k;
            if i < s.len() - 1 {
                assert(s.drop_last()[i].0@ == k);
            }
        }
    }
}

proof fn lemma_pairs_map_value<D>(s: Seq<(String, D)>, i: int)
    requires
        distinct_keys(s),
        0 <= i < s.len(),
    ensures
        pairs_map(s).contains_key(s[i].0@),
        pairs_map(s)[s[i].0@] == s[i].1,
    decreases s.len(),
{
    if i < s.len() - 1 {
        let t = s.drop_last();
        assert(t[i] == s[i]);
        lemma_pairs_map_value(t, i);
        assert(s[i].0@ != s.last().0@);
    }
}

proof fn lemma_pairs_map_push<D>(s: Seq<(String, D)>, key: String, value: D)
    requires
        distinct_keys(s),
        !pairs_map(s).contains_key(key@),
    ensures
        pairs_map(s.push((key, value))) == pairs_map(s).insert(key@, value),
        distinct_keys(s.push((key, value))),
{
    assert(s.push((key, value)).drop_last() =~= s);
    assert forall|i: int, j: int| 0 <= i < j < s.len() + 1 implies s.push((key, value))[i].0@
        != s.push((key, value))[j].0@ by {
        if j == s.len() {
            lemma_pairs_map_dom(s, key@);
            assert(s.push((key, value))[i] == s[i]);
        }
    }
}

proof fn lemma_pairs_map_remove<D>(s: Seq<(String, D)>, i: int)
    requires
        distinct_keys(s),
        0 <= i < s.len(),
    ensures
        pairs_map(s.remove(i)) == pairs_map(s).remove(s[i].0@),
        distinct_keys(s.remove(i)),
    decreases s.len(),
{
    let t = s.drop_last();
    let k = s[i].0@;
    assert(distinct_keys(t));
    if i == s.len() - 1 {
        assert(s.remove(i) =~= t);
        assert(!pairs_map(t).contains_key(k)) by {
            lemma_pairs_map_dom(t, k);
        }
        assert(pairs_map(s).remove(k) =~= pairs_map(t));
    } else {
        lemma_pairs_map_remove(t, i);
        assert(s.remove(i) =~= t.remove(i).push(s.last()));
        assert(s.remove(i).drop_last() =~= t.remove(i));
        assert(s[i].0@ != s.last().0@);
        assert(pairs_map(s.remove(i)) =~= pairs_map(s).remove(k));
        assert forall|a: int, b: int| 0 <= a < b < s.remove(i).len() implies s.remove(i)[a].0@
            != s.remove(i)[b].0@ by {
            let ia: int = if a < i { a } else { a + 1 };
            let ib: int = if b < i { b } else { b + 1 };
            assert(s.remove(i)[a] == s[ia]);
            assert(s.remove(i)[b] == s[ib]);
        }
    }
}

proof fn lemma_pairs_map_empty<D>(s: Seq<(String, D)>)
    ensures
        pairs_map(s) == Map::<Seq<char>, D>::empty() <==> s.len() == 0,
{
    if s.len() > 0 {
        assert(pairs_map(s).contains_key(s.last().0@));
    }
}

/// The drains of the video tracks a session currently receives, at most one
/// per track id.
pub struct ActiveVideoDrains<D> {
    entries: Vec<(String, D)>,
}

impl<D> View for ActiveVideoDrains<D> {
    type V = Map<Seq<char>, D>;

    closed spec fn view(&self) -> Map<Seq<char>, D> {
        pairs_map(self.entries@)
    }
}

impl<D> ActiveVideoDrains<D> {
    /// Each track id has at most one entry.
    pub closed spec fn wf(&self) -> bool {
        distinct_keys(self.entries@)
    }

    /// No drains.
    pub fn new() -> (res: Self)
        ensures
            res.wf(),
            res@ == Map::<Seq<char>, D>::empty(),
    {
        ActiveVideoDrains { entries: Vec::new() }
    }

    fn position(&self, sid: &String) -> (res: Option<usize>)
        requires
            self.wf(),
        ensures
            match res {
                Some(i) => i < self.entries@.len() && self.entries@[i as int].0@ == sid@,
                None => !self@.contains_key(sid@),
            },
    {
        let n: usize = self.entries.len();
        let mut i: usize = 0;
        while i < n
            invariant
                n == self.entries@.len(),
                i <= n,
                forall|j: int| 0 <= j < i ==> self.entries@[j].0@ != sid@,
            decreases n - i,
        {
            if self.entries[i].0 == *sid {
                return Some(i);
            }
            i = i + 1;
        }
        proof {
            lemma_pairs_map_dom(self.entries@, sid@);
        }
        None
    }

    fn take_at(&mut self, sid: &String) -> (res: Option<D>)
        requires
            old(self).wf(),
        ensures
            final(self).wf(),
            final(self)@ == old(self)@.remove(sid@),
            res == (if old(self)@.contains_key(sid@) {
                Some(old(self)@[sid@])
            } else {
                None::<D>
            }),
    {
        match self.position(sid) {
            Some(i) => {
                proof {
                    lemma_pairs_map_value(self.entries@, i as int);
                    lemma_pairs_map_remove(self.entries@, i as int);
                }
                let (_, drain) = self.entries.remove(i);
                Some(drain)
            },
            None => {
                assert(self@.remove(sid@) =~= self@);
                None
            },
        }
    }

    /// Records `drain` as the drain of track `sid`, and hands back the drain
    /// it replaces, if the track had one: the caller stops that one.
    pub fn insert(&mut self, sid: String, drain: D) -> (res: Option<D>)
        requires
            old(self).wf(),
        ensures
            final(self).wf(),
            final(self)@ == old(self)@.insert(sid@, drain),
            res == (if old(self)@.contains_key(sid@) {
                Some(old(self)@[sid@])
            } else {
                None::<D>
            }),
    {
        let previous = self.take_at(&sid);
        proof {
            lemma_pairs_map_push(self.entries@, sid, drain);
        }
        let ghost mid = self@;
        self.entries.push((sid, drain));
        assert(self@ =~= old(self)@.insert(sid@, drain)) by {
            assert(mid.insert(sid@, drain) =~= old(self)@.insert(sid@, drain));
        }
        previous
    }

    /// Removes the drain of track `sid` and hands it back, if there is one:
    /// the caller stops it.
    pub fn remove(&mut self, sid: &str) -> (res: Option<D>)
        requires
            old(self).wf(),
        ensures
            final(self).wf(),
            final(self)@ == old(self)@.remove(sid@),
            res == (if old(self)@.contains_key(sid@) {
                Some(old(self)@[sid@])
            } else {
                None::<D>
            }),
    {
        let key = String::from_str(sid);
        self.take_at(&key)
    }

    /// Removes every drain and hands them all back with their track ids.
    pub fn take_all(&mut self) -> (res: Vec<(String, D)>)
        requires
            old(self).wf(),
        ensures
            final(self).wf(),
            final(self)@ == Map::<Seq<char>, D>::empty(),
            distinct_keys(res@),
            pairs_map(res@) == old(self)@,
    {
        let mut all: Vec<(String, D)> = Vec::new();
        std::mem::swap(&mut all, &mut self.entries);
        all
    }

    /// Whether there are no drains.
    pub fn is_empty(&self) -> (res: bool)
        ensures
            res == (self@ == Map::<Seq<char>, D>::empty()),
    {
        proof {
            lemma_pairs_map_empty(self.entries@);
        }
        self.entries.len() == 0
    }
}

impl<D> Default for ActiveVideoDrains<D> {
    fn default() -> (res: Self)
        ensures
            res.wf(),
            res@ == Map::<Seq<char>, D>::empty(),
    {
        Self::new()
    }
}

/// What happened in a session's event loop.
pub enum SessionEvent<D> {
    /// The session was asked to stop.
    Cancelled,
    /// The room's event stream ended.
    EventsClosed,
    /// A remote video track was subscribed; `drain` consumes its frames.
    VideoTrackSubscribed { sid: String, drain: D },
    /// A track was unsubscribed.
    TrackUnsubscribed { sid: String },
    /// Any other room event.
    Other,
}

/// What the event loop does next.
pub enum SessionAction<D> {
    /// Unsubscribe from each of these tracks and stop its drain, then close
    /// the room; the session ends.
    UnsubscribeAllAndClose(Vec<(String, D)>),
    /// Stop each of these drains; the session ends.
    AbortAll(Vec<(String, D)>),
    /// Stop the drain that a new subscription replaced, if any; the session
    /// goes on.
    AbortReplaced(Option<D>),
    /// Stop the drain of the unsubscribed track, if it had one; the session
    /// goes on.
    AbortRemoved(Option<D>),
    /// Nothing to do; the session goes on.
    Continue,
}

/// Whether the session ends after `action`.
pub open spec fn spec_ends_session<D>(action: SessionAction<D>) -> bool {
    action is UnsubscribeAllAndClose || action is AbortAll
}

impl<D> SessionAction<D> {
    /// Whether the event loop stops after this action.
    pub fn ends_session(&self) -> (res: bool)
        ensures
            res == spec_ends_session(*self),
            res <==> (self is UnsubscribeAllAndClose || self is AbortAll),
            self is AbortReplaced ==> !res,
            self is AbortRemoved ==> !res,
            self is Continue ==> !res,
    {
        match self {
            SessionAction::UnsubscribeAllAndClose(_) => true,
            SessionAction::AbortAll(_) => true,
            _ => false,
        }
    }
}

impl<D> ActiveVideoDrains<D> {
    /// Takes the decision for one event of the session: on a stop request or
    /// the end of the event stream, every drain leaves and must be stopped
    /// (after unsubscribing, on a stop request); a new video track's drain is
    /// recorded, and the one it replaces stopped; an unsubscribed track's
    /// drain leaves and is stopped; other events change nothing.
    pub fn handle_event(&mut self, event: SessionEvent<D>) -> (res: SessionAction<D>)
        requires
            old(self).wf(),
        ensures
            final(self).wf(),
            spec_ends_session(res) <==> (event is Cancelled || event is EventsClosed),
            match event {
                SessionEvent::Cancelled => {
                    &&& final(self)@ == Map::<Seq<char>, D>::empty()
                    &&& res matches SessionAction::UnsubscribeAllAndClose(all) && distinct_keys(all@)
                        && pairs_map(all@) == old(self)@
                },
                SessionEvent::EventsClosed => {
                    &&& final(self)@ == Map::<Seq<char>, D>::empty()
                    &&& res matches SessionAction::AbortAll(all) && distinct_keys(all@) && pairs_map(
                        all@,
                    ) == old(self)@
                },
                SessionEvent::VideoTrackSubscribed { sid, drain } => {
                    &&& final(self)@ == old(self)@.insert(sid@, drain)
                    &&& res == SessionAction::AbortReplaced(
                        if old(self)@.contains_key(sid@) {
                            Some(old(self)@[sid@])
                        } else {
                            None::<D>
                        },
                    )
                },
                SessionEvent::TrackUnsubscribed { sid } => {
                    &&& final(self)@ == old(self)@.remove(sid@)
                    &&& res == SessionAction::AbortRemoved(
                        if old(self)@.contains_key(sid@) {
                            Some(old(self)@[sid@])
                        } else {
                            None::<D>
                        },
                    )
                },
                SessionEvent::Other => {
                    &&& final(self)@ == old(self)@
                    &&& res == SessionAction::<D>::Continue
                },
            },
    {
        match event {
            SessionEvent::Cancelled => SessionAction::UnsubscribeAllAndClose(self.take_all()),
            SessionEvent::EventsClosed => SessionAction::AbortAll(self.take_all()),
            SessionEvent::VideoTrackSubscribed { sid, drain } => SessionAction::AbortReplaced(
                self.insert(sid, drain),
            ),
            SessionEvent::TrackUnsubscribed { sid } => SessionAction::AbortRemoved(
                self.remove(sid.as_str()),
            ),
            SessionEvent::Other => SessionAction::Continue,
        }
    }
}

/// The drains handed out when a session ends are the registry's drains,
/// each once: every entry is a recorded track with its own drain, and every
/// recorded track has an entry.
pub proof fn lemma_handed_out_drains<D>(all: Seq<(String, D)>)
    requires
        distinct_keys(all),
    ensures
        forall|i: int|
            0 <= i < all.len() ==> #[trigger] pairs_map(all).contains_key(all[i].0@) && pairs_map(
                all,
            )[all[i].0@] == all[i].1,
        forall|k: Seq<char>|
            #[trigger] pairs_map(all).contains_key(k) ==> exists|i: int|
                0 <= i < all.len() && all[i].0@ == k && all[i].1 == pairs_map(all)[k],
{
    assert forall|i: int| 0 <= i < all.len() implies #[trigger] pairs_map(all).contains_key(
        all[i].0@,
    ) && pairs_map(all)[all[i].0@] == all[i].1 by {
        lemma_pairs_map_value(all, i);
    }
    assert forall|k: Seq<char>| #[trigger] pairs_map(all).contains_key(k) implies exists|i: int|
        0 <= i < all.len() && all[i].0@ == k && all[i].1 == pairs_map(all)[k] by {
        lemma_pairs_map_dom(all, k);
        let i: int = choose|i: int| 0 <= i < all.len() && all[i].0@ == k;
        lemma_pairs_map_value(all, i);
    }
}

/// Removing a track right after its drain was recorded hands back that
/// drain, and leaves the other tracks as they were before the recording.
pub proof fn lemma_insert_then_remove<D>(drains: Map<Seq<char>, D>, sid: Seq<char>, drain: D)
    ensures
        drains.insert(sid, drain).contains_key(sid),
        drains.insert(sid, drain)[sid] == drain,
        drains.insert(sid, drain).remove(sid) == drains.remove(sid),
{
    assert(drains.insert(sid, drain).remove(sid) =~= drains.remove(sid));
}

/// Recording a second drain for a track hands back the first and keeps only
/// the second.
pub proof fn lemma_insert_twice<D>(drains: Map<Seq<char>, D>, sid: Seq<char>, first: D, second: D)
    ensures
        drains.insert(sid, first).contains_key(sid),
        drains.insert(sid, first)[sid] == first,
        drains.insert(sid, first).insert(sid, second) == drains.insert(sid, second),
{
    assert(drains.insert(sid, first).insert(sid, second) =~= drains.insert(sid, second));
}

/// Only a stop request or the end of the event stream ends a session: the
/// actions that stop every drain end it, and the actions for a subscribed
/// track, an unsubscribed track (known or not) or any other event keep the
/// session going.
pub proof fn lemma_only_shutdown_actions_end_session<D>(
    all: Vec<(String, D)>,
    drain: Option<D>,
)
    ensures
        spec_ends_session(SessionAction::UnsubscribeAllAndClose(all)),
        spec_ends_session(SessionAction::<D>::AbortAll(all)),
        !spec_ends_session(SessionAction::AbortReplaced(drain)),
        !spec_ends_session(SessionAction::AbortRemoved(drain)),
        !spec_ends_session(SessionAction::<D>::Continue),
{
}

/// Recording a drain for a newly subscribed track, or removing the drain of
/// an unsubscribed one, leaves the session running, whatever the registry
/// held; only a stop request or the end of the events ends it.
pub proof fn lemma_track_events_keep_session<D>(event: SessionEvent<D>, action: SessionAction<D>)
    requires
        event is VideoTrackSubscribed ==> action is AbortReplaced,
        event is TrackUnsubscribed ==> action is AbortRemoved,
        event is Other ==> action is Continue,
        event is Cancelled ==> action is UnsubscribeAllAndClose,
        event is EventsClosed ==> action is AbortAll,
    ensures
        spec_ends_session(action) <==> (event is Cancelled || event is EventsClosed),
{
}

} // verus!
