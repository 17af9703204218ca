//! In-memory live-activity ring buffer.
//!
//! The indexer and the per-rule cycles publish small events here as they
//! process assets; the web client polls for everything after the last `seq`
//! it saw. Every event gets a `seq` one above the previous one, so the buffer
//! stays in `seq` order. The buffer keeps at most [`CAP`] events; once full
//! the oldest is dropped, and the high-water `seq` still advances past the
//! gap. Each event carries its owner's user id and [`ActivityBus::since`]
//! returns only the caller's own events.
//!
//! The bus is a plain value; sharing it between tasks (behind a lock) is the
//! caller's business.

use std::collections::VecDeque;

use vstd::prelude::*;

verus! {

broadcast use vstd::std_specs::vecdeque::group_vec_dequeue_axioms;

/// Maximum number of events retained, across all users.
pub const CAP: usize = 500;

/// What happened: one line of the live log.
#[derive(Debug, Clone, PartialEq)]
pub enum ActivityKind {
    /// The indexer stored one asset's metadata.
    Indexed {
        asset_id: String,
        filename: String,
        person_count: i64,
        has_gps: bool,
        taken_at: Option<i64>,
    },
    /// A rule matched an asset.
    Matched { rule_id: String, rule_name: String, asset_id: String, filename: Option<String> },
    /// A rule skipped an asset, with the reason slug.
    Skipped {
        rule_id: String,
        rule_name: String,
        asset_id: String,
        filename: Option<String>,
        reason: String,
    },
    /// A rule filed `added_count` newly matched assets into its album.
    AlbumAdd { rule_id: String, rule_name: String, album_id: String, added_count: i64 },
    /// End of one indexer sweep for a user.
    SweepDone { indexed: i64, took_ms: i64 },
}

/// A live-log entry: a `seq`-stamped, time-stamped, user-scoped event.
#[derive(Debug, Clone, PartialEq)]
pub struct ActivityEvent {
    pub seq: u64,
    /// Unix seconds at which the event was published.
    pub at: i64,
    /// Owning user; never shown to clients.
    pub user_id: String,
    pub kind: ActivityKind,
}

/// Mathematical view of an [`ActivityKind`].
pub enum ActivityKindV {
    Indexed {
        asset_id: Seq<char>,
        filename: Seq<char>,
        person_count: i64,
        has_gps: bool,
        taken_at: Option<i64>,
    },
    Matched { rule_id: Seq<char>, rule_name: Seq<char>, asset_id: Seq<char>, filename: Option<Seq<char>> },
    Skipped {
        rule_id: Seq<char>,
        rule_name: Seq<char>,
        asset_id: Seq<char>,
        filename: Option<Seq<char>>,
        reason: Seq<char>,
    },
    AlbumAdd { rule_id: Seq<char>, rule_name: Seq<char>, album_id: Seq<char>, added_count: i64 },
    SweepDone { indexed: i64, took_ms: i64 },
}

/// Mathematical view of an [`ActivityEvent`].
pub struct ActivityEventV {
    pub seq: u64,
    pub at: i64,
    pub user_id: Seq<char>,
    pub kind: ActivityKindV,
}

/// View of an optional string.
pub open spec fn opt_view(o: Option<String>) -> Option<Seq<char>> {
    match o {
        Some(s) => Some(s@),
        None => None,
    }
}

impl View for ActivityKind {
    type V = ActivityKindV;

    open spec fn view(&self) -> ActivityKindV {
        match self {
            ActivityKind::Indexed { asset_id, filename, person_count, has_gps, taken_at } => ActivityKindV::Indexed {
                asset_id: asset_id@,
                filename: filename@,
                person_count: *person_count,
                has_gps: *has_gps,
                taken_at: *taken_at,
            },
            ActivityKind::Matched { rule_id, rule_name, asset_id, filename } => ActivityKindV::Matched {
                rule_id: rule_id@,
                rule_name: rule_name@,
                asset_id: asset_id@,
                filename: opt_view(*filename),
            },
            ActivityKind::Skipped { rule_id, rule_name, asset_id, filename, reason } => ActivityKindV::Skipped {
                rule_id: rule_id@,
                rule_name: rule_name@,
                asset_id: asset_id@,
                filename: opt_view(*filename),
                reason: reason@,
            },
            ActivityKind::AlbumAdd { rule_id, rule_name, album_id, added_count } => ActivityKindV::AlbumAdd {
                rule_id: rule_id@,
                rule_name: rule_name@,
                album_id: album_id@,
                added_count: *added_count,
            },
            ActivityKind::SweepDone { indexed, took_ms } => ActivityKindV::SweepDone {
                indexed: *indexed,
                took_ms: *took_ms,
            },
        }
    }
}

impl View for ActivityEvent {
    type V = ActivityEventV;

    open spec fn view(&self) -> ActivityEventV {
        ActivityEventV { seq: self.seq, at: self.at, user_id: self.user_id@, kind: self.kind@ }
    }
}

/// The views of a sequence of events.
pub open spec fn events_view(s: Seq<ActivityEvent>) -> Seq<ActivityEventV> {
    s.map_values(|e: ActivityEvent| e@)
}

/// Each event's `seq` is below the next one's.
pub open spec fn seq_ascending(log: Seq<ActivityEventV>) -> bool {
    forall|i: int, j: int| 0 <= i < j < log.len() ==> #[trigger] log[i].seq < #[trigger] log[j].seq
}

/// The log after room is made for one more event: the oldest is dropped
/// when the buffer is full.
pub open spec fn make_room(log: Seq<ActivityEventV>) -> Seq<ActivityEventV> {
    if log.len() >= CAP {
        log.drop_first()
    } else {
        log
    }
}

/// The events of `log` owned by `user` with `seq` above `after`, in order.
pub open spec fn visible_since(log: Seq<ActivityEventV>, user: Seq<char>, after: u64) -> Seq<ActivityEventV> {
    log.filter(|e: ActivityEventV| e.user_id == user && e.seq > after)
}

/// A point in wall-clock time, as the standard library keeps it.
#[verifier::external_type_specification]
#[verifier::external_body]
pub struct ExSystemTime(std::time::SystemTime);

/// The current wall-clock time, by `std::time::SystemTime::now`; nothing is
/// promised of it, since it is the machine's clock.
#[verifier::external_body]
fn system_time_now() -> std::time::SystemTime {
    std::time::SystemTime::now()
}

/// The time from the Unix epoch to `t`, by `SystemTime::duration_since`
/// with `UNIX_EPOCH`; none for a time before the epoch. Nothing is
/// promised of the value.
#[verifier::external_body]
fn since_unix_epoch(t: &std::time::SystemTime) -> Option<std::time::Duration> {
    match t.duration_since(std::time::UNIX_EPOCH) {
        Ok(d) => Some(d),
        Err(_) => None,
    }
}

/// The whole seconds of `d`, by `Duration::as_secs`; nothing is promised
/// of the value.
#[verifier::external_body]
fn whole_seconds(d: &std::time::Duration) -> u64 {
    d.as_secs()
}

/// Wall-clock time in Unix seconds: 0 for a clock set before 1970, and the
/// seconds count taken as an `i64` bit for bit.
pub(crate) fn now_unix_seconds() -> i64 {
    match since_unix_epoch(&system_time_now()) {
        Some(d) => {
            let secs = whole_seconds(&d);
            #[verifier::truncate]
            (secs as i64)
        },
        None => 0,
    }
}

pub(crate) fn copy_text(o: &Option<String>) -> (r: Option<String>)
    ensures
        r == *o,
{
    match o {
        Some(s) => Some(s.clone()),
        None => None,
    }
}

fn copy_kind(k: &ActivityKind) -> (r: ActivityKind)
    ensures
        r == *k,
{
    match k {
        ActivityKind::Indexed { asset_id, filename, person_count, has_gps, taken_at } => ActivityKind::Indexed {
            asset_id: asset_id.clone(),
            filename: filename.clone(),
            person_count: *person_count,
            has_gps: *has_gps,
            taken_at: *taken_at,
        },
        ActivityKind::Matched { rule_id, rule_name, asset_id, filename } => ActivityKind::Matched {
            rule_id: rule_id.clone(),
            rule_name: rule_name.clone(),
            asset_id: asset_id.clone(),
            filename: copy_text(filename),
        },
        ActivityKind::Skipped { rule_id, rule_name, asset_id, filename, reason } => ActivityKind::Skipped {
            rule_id: rule_id.clone(),
            rule_name: rule_name.clone(),
            asset_id: asset_id.clone(),
            filename: copy_text(filename),
            reason: reason.clone(),
        },
        ActivityKind::AlbumAdd { rule_id, rule_name, album_id, added_count } => ActivityKind::AlbumAdd {
            rule_id: rule_id.clone(),
            rule_name: rule_name.clone(),
            album_id: album_id.clone(),
            added_count: *added_count,
        },
        ActivityKind::SweepDone { indexed, took_ms } => ActivityKind::SweepDone { indexed: *indexed, took_ms: *took_ms },
    }
}

fn copy_event(e: &ActivityEvent) -> (r: ActivityEvent)
    ensures
        r == *e,
{
    ActivityEvent { seq: e.seq, at: e.at, user_id: e.user_id.clone(), kind: copy_kind(&e.kind) }
}

fn owned_text(s: &str) -> (r: String)
    ensures
        r@ == s@,
{
    s.to_owned()
}

fn owned_opt_text(s: Option<&str>) -> (r: Option<String>)
    ensures
        opt_view(r) == match s {
            Some(t) => Some(t@),
            None => None::<Seq<char>>,
        },
{
    match s {
        Some(t) => Some(owned_text(t)),
        None => None,
    }
}

/// Bounded ring buffer of recent processing events, filterable per user.
#[derive(Debug)]
pub struct ActivityBus {
    events: VecDeque<ActivityEvent>,
    seq: u64,
}

impl ActivityBus {
    /// The retained events, oldest first.
    pub closed spec fn log(&self) -> Seq<ActivityEventV> {
        events_view(self.events@)
    }

    /// The `seq` of the latest event published, 0 before the first.
    pub closed spec fn high_water(&self) -> u64 {
        self.seq
    }

    /// The buffer's invariant: at most [`CAP`] events, in ascending `seq`
    /// order, none above the high-water mark.
    pub open spec fn wf(&self) -> bool {
        &&& self.log().len() <= CAP
        &&& seq_ascending(self.log())
        &&& forall|i: int| 0 <= i < self.log().len() ==> 1 <= #[trigger] self.log()[i].seq <= self.high_water()
    }

    /// An empty bus; the first event gets `seq` 1.
    pub fn new() -> (bus: Self)
        ensures
            bus.wf(),
            bus.log().len() == 0,
            bus.high_water() == 0,
    {
        let bus = ActivityBus { events: VecDeque::new(), seq: 0 };
        proof {
            assert(bus.log() =~= Seq::<ActivityEventV>::empty());
        }
        bus
    }

    /// The high-water `seq`: that of the latest event published.
    pub fn last_seq(&self) -> (s: u64)
        ensures
            s == self.high_water(),
    {
        self.seq
    }

    /// Appends one event for `user_id`, stamped with the next `seq` and
    /// time `at`; drops the oldest event when the buffer is full.
    fn push(&mut self, user_id: &str, kind: ActivityKind, at: i64)
        requires
            old(self).wf(),
            old(self).high_water() < u64::MAX,
        ensures
            final(self).wf(),
            final(self).high_water() == old(self).high_water() + 1,
            final(self).log() == make_room(old(self).log()).push(
                ActivityEventV { seq: final(self).high_water(), at, user_id: user_id@, kind: kind@ },
            ),
    {
        let ghost before = self.log();
        let seq = self.seq + 1;
        self.seq = seq;
        if self.events.len() >= CAP {
            let _ = self.events.pop_front();
        }
        let ghost kept = events_view(self.events@);
        proof {
            assert(kept =~= make_room(before));
        }
        let ev = ActivityEvent { seq, at, user_id: owned_text(user_id), kind };
        self.events.push_back(ev);
        proof {
            assert(self.log() =~= kept.push(ev@));
            assert forall|i: int| 0 <= i < kept.len() implies #[trigger] kept[i].seq < seq && 1 <= kept[i].seq by {
                if before.len() >= CAP {
                    assert(kept[i] == before[i + 1]);
                } else {
                    assert(kept[i] == before[i]);
                }
            }
            assert forall|i: int, j: int| 0 <= i < j < self.log().len() implies #[trigger] self.log()[i].seq < #[trigger] self.log()[j].seq by {
                if j < kept.len() {
                    if before.len() >= CAP {
                        assert(kept[i] == before[i + 1] && kept[j] == before[j + 1]);
                    } else {
                        assert(kept[i] == before[i] && kept[j] == before[j]);
                    }
                }
            }
        }
    }

    /// The indexer stored `filename` (asset `asset_id`) for `user_id`.
    pub fn indexed(
        &mut self,
        user_id: &str,
        asset_id: &str,
        filename: &str,
        person_count: i64,
        has_gps: bool,
        taken_at: Option<i64>,
    )
        requires
            old(self).wf(),
            old(self).high_water() < u64::MAX,
        ensures
            final(self).wf(),
            final(self).high_water() == old(self).high_water() + 1,
            final(self).log() == make_room(old(self).log()).push(ActivityEventV {
                seq: final(self).high_water(),
                at: final(self).log().last().at,
                user_id: user_id@,
                kind: ActivityKindV::Indexed { asset_id: asset_id@, filename: filename@, person_count, has_gps, taken_at },
            }),
    {
        let kind = ActivityKind::Indexed {
            asset_id: owned_text(asset_id),
            filename: owned_text(filename),
            person_count,
            has_gps,
            taken_at,
        };
        let at = now_unix_seconds();
        self.push(user_id, kind, at);
    }

    /// Rule `rule_name` matched `asset_id` for `user_id`.
    pub fn matched(&mut self, user_id: &str, rule_id: &str, rule_name: &str, asset_id: &str, filename: Option<&str>)
        requires
            old(self).wf(),
            old(self).high_water() < u64::MAX,
        ensures
            final(self).wf(),
            final(self).high_water() == old(self).high_water() + 1,
            final(self).log() == make_room(old(self).log()).push(ActivityEventV {
                seq: final(self).high_water(),
                at: final(self).log().last().at,
                user_id: user_id@,
                kind: ActivityKindV::Matched {
                    rule_id: rule_id@,
                    rule_name: rule_name@,
                    asset_id: asset_id@,
                    filename: match filename {
                        Some(t) => Some(t@),
                        None => None,
                    },
                },
            }),
    {
        let kind = ActivityKind::Matched {
            rule_id: owned_text(rule_id),
            rule_name: owned_text(rule_name),
            asset_id: owned_text(asset_id),
            filename: owned_opt_text(filename),
        };
        let at = now_unix_seconds();
        self.push(user_id, kind, at);
    }

    /// Rule `rule_name` skipped `asset_id` for `user_id` with `reason`.
    pub fn skipped(
        &mut self,
        user_id: &str,
        rule_id: &str,
        rule_name: &str,
        asset_id: &str,
        filename: Option<&str>,
        reason: &str,
    )
        requires
            old(self).wf(),
            old(self).high_water() < u64::MAX,
        ensures
            final(self).wf(),
            final(self).high_water() == old(self).high_water() + 1,
            final(self).log() == make_room(old(self).log()).push(ActivityEventV {
                seq: final(self).high_water(),
                at: final(self).log().last().at,
                user_id: user_id@,
                kind: ActivityKindV::Skipped {
                    rule_id: rule_id@,
                    rule_name: rule_name@,
                    asset_id: asset_id@,
                    filename: match filename {
                        Some(t) => Some(t@),
                        None => None,
                    },
                    reason: reason@,
                },
            }),
    {
        let kind = ActivityKind::Skipped {
            rule_id: owned_text(rule_id),
            rule_name: owned_text(rule_name),
            asset_id: owned_text(asset_id),
            filename: owned_opt_text(filename),
            reason: owned_text(reason),
        };
        let at = now_unix_seconds();
        self.push(user_id, kind, at);
    }

    /// Rule `rule_name` filed `added_count` assets into `album_id`.
    pub fn album_add(&mut self, user_id: &str, rule_id: &str, rule_name: &str, album_id: &str, added_count: i64)
        requires
            old(self).wf(),
            old(self).high_water() < u64::MAX,
        ensures
            final(self).wf(),
            final(self).high_water() == old(self).high_water() + 1,
            final(self).log() == make_room(old(self).log()).push(ActivityEventV {
                seq: final(self).high_water(),
                at: final(self).log().last().at,
                user_id: user_id@,
                kind: ActivityKindV::AlbumAdd {
                    rule_id: rule_id@,
                    rule_name: rule_name@,
                    album_id: album_id@,
                    added_count,
                },
            }),
    {
        let kind = ActivityKind::AlbumAdd {
            rule_id: owned_text(rule_id),
            rule_name: owned_text(rule_name),
            album_id: owned_text(album_id),
            added_count,
        };
        let at = now_unix_seconds();
        self.push(user_id, kind, at);
    }

    /// Publishes an event of any kind for `user_id`, stamped with the next
    /// `seq` and the current time.
    pub fn publish(&mut self, user_id: &str, kind: ActivityKind)
        requires
            old(self).wf(),
            old(self).high_water() < u64::MAX,
        ensures
            final(self).wf(),
            final(self).high_water() == old(self).high_water() + 1,
            final(self).log() == make_room(old(self).log()).push(ActivityEventV {
                seq: final(self).high_water(),
                at: final(self).log().last().at,
                user_id: user_id@,
                kind: kind@,
            }),
    {
        let at = now_unix_seconds();
        self.push(user_id, kind, at);
    }

    /// One indexer sweep for `user_id` finished.
    pub fn sweep_done(&mut self, user_id: &str, indexed: i64, took_ms: i64)
        requires
            old(self).wf(),
            old(self).high_water() < u64::MAX,
        ensures
            final(self).wf(),
            final(self).high_water() == old(self).high_water() + 1,
            final(self).log() == make_room(old(self).log()).push(ActivityEventV {
                seq: final(self).high_water(),
                at: final(self).log().last().at,
                user_id: user_id@,
                kind: ActivityKindV::SweepDone { indexed, took_ms },
            }),
    {
        let at = now_unix_seconds();
        self.push(user_id, ActivityKind::SweepDone { indexed, took_ms }, at);
    }

    /// The events of `user_id` with `seq` above `after`, oldest first, and
    /// the high-water `seq`, which lets a poller move its cursor past events
    /// that were dropped.
    pub fn since(&self, user_id: &str, after: u64) -> (out: (Vec<ActivityEvent>, u64))
        ensures
            events_view(out.0@) == visible_since(self.log(), user_id@, after),
            out.1 == self.high_water(),
    {
        let ghost log = self.log();
        let ghost pred = |e: ActivityEventV| e.user_id == user_id@ && e.seq > after;
        let mut events: Vec<ActivityEvent> = Vec::new();
        let mut i: usize = 0;
        while i < self.events.len()
            invariant
                i <= self.events@.len(),
                log == self.log(),
                log == events_view(self.events@),
                pred == (|e: ActivityEventV| e.user_id == user_id@ && e.seq > after),
                events_view(events@) == log.take(i as int).filter(pred),
            decreases self.events@.len() - i,
        {
            let e = &self.events[i];
            let mine = crate::text::str_eq(e.user_id.as_str(), user_id) && e.seq > after;
            proof {
                reveal(Seq::filter);
                assert(log.take(i + 1).drop_last() =~= log.take(i as int));
                assert(log.take(i + 1).last() == e@);
                assert(mine == pred(e@));
            }
            if mine {
                events.push(copy_event(e));
            }
            proof {
                assert(events_view(events@) =~= log.take(i + 1).filter(pred));
            }
            i += 1;
        }
        proof {
            assert(log.take(self.events@.len() as int) =~= log);
        }
        (events, self.seq)
    }
}

/// Query of the activity feed: the highest `seq` the client has seen
/// (0 on the first poll).
#[derive(Debug, Clone, Copy, PartialEq, Eq)]
pub struct StreamQuery {
    pub after: u64,
}

/// One poll of the activity feed: the caller's new events and the
/// high-water `seq` to poll after next.
#[derive(Debug, Clone, PartialEq)]
pub struct StreamResponse {
    pub events: Vec<ActivityEvent>,
    pub last_seq: u64,
}

/// Answers a poll of `user_id`'s activity feed.
pub fn activity_stream(bus: &ActivityBus, user_id: &str, query: StreamQuery) -> (r: StreamResponse)
    ensures
        events_view(r.events@) == visible_since(bus.log(), user_id@, query.after),
        r.last_seq == bus.high_water(),
{
    let (events, last_seq) = bus.since(user_id, query.after);
    StreamResponse { events, last_seq }
}

impl Default for ActivityBus {
    fn default() -> (bus: Self)
        ensures
            bus.wf(),
            bus.log().len() == 0,
            bus.high_water() == 0,
    {
        ActivityBus::new()
    }
}

/// What a poll returns is the caller's own events, newer than the cursor,
/// in strictly ascending `seq` order, each at most the high-water `seq`.
pub proof fn lemma_poll_is_ordered_and_private(bus: ActivityBus, user: Seq<char>, after: u64)
    requires
        bus.wf(),
    ensures
        seq_ascending(visible_since(bus.log(), user, after)),
        forall|i: int| 0 <= i < visible_since(bus.log(), user, after).len() ==> {
            let e = #[trigger] visible_since(bus.log(), user, after)[i];
            &&& e.user_id == user
            &&& after < e.seq <= bus.high_water()
        },
{
    let pred = |e: ActivityEventV| e.user_id == user && e.seq > after;
    lemma_filter_keeps_order(bus.log(), pred);
    let out = bus.log().filter(pred);
    assert forall|i: int| 0 <= i < out.len() implies {
        let e = #[trigger] out[i];
        &&& e.user_id == user
        &&& after < e.seq <= bus.high_water()
    } by {
        bus.log().lemma_filter_pred(pred, i);
        bus.log().lemma_filter_contains_rev(pred, out[i]);
    }
}

/// Filtering an ascending log keeps it ascending.
pub proof fn lemma_filter_keeps_order(log: Seq<ActivityEventV>, pred: spec_fn(ActivityEventV) -> bool)
    requires
        seq_ascending(log),
    ensures
        seq_ascending(log.filter(pred)),
    decreases log.len(),
{
    reveal(Seq::filter);
    if log.len() > 0 {
        let front = log.drop_last();
        assert(seq_ascending(front)) by {
            assert forall|i: int, j: int| 0 <= i < j < front.len() implies #[trigger] front[i].seq < #[trigger] front[j].seq by {
                assert(front[i] == log[i] && front[j] == log[j]);
            }
        }
        lemma_filter_keeps_order(front, pred);
        let sub = front.filter(pred);
        if pred(log.last()) {
            let out = sub.push(log.last());
            assert forall|i: int, j: int| 0 <= i < j < out.len() implies #[trigger] out[i].seq < #[trigger] out[j].seq by {
                if j == sub.len() {
                    front.lemma_filter_contains_rev(pred, sub[i]);
                    let k = choose|k: int| 0 <= k < front.len() && front[k] == sub[i];
                    assert(log[k] == sub[i]);
                    assert(log[log.len() - 1] == log.last());
                }
            }
        }
    }
}

} // verus!
