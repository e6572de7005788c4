use vstd::prelude::*;

use crate::plex::library::{find_library, spec_find_library, Library, LibraryView};
use crate::plex::models::{
    empty_metadata, spec_play_labels, Media, MediaView, Metadata, MetadataView,
    TranscodeSession,
};
use crate::metrics::{spec_active_session_label_names, spec_play_label_names};
use crate::text::{decimal_string, spec_decimal};

verus! {

/// Playback state of a Plex session.
#[derive(Debug, Clone, Copy, PartialEq, Eq, Structural)]
pub enum SessionState {
    Playing,
    Stopped,
    Paused,
    Buffering,
}

/// The state that Plex's textual state name stands for: every name other
/// than "playing", "paused" and "buffering" means the session stopped.
pub open spec fn spec_from_plex(state: Seq<char>) -> SessionState {
    if state == "playing"@ {
        SessionState::Playing
    } else if state == "paused"@ {
        SessionState::Paused
    } else if state == "buffering"@ {
        SessionState::Buffering
    } else {
        SessionState::Stopped
    }
}

/// The textual name of a state.
pub open spec fn spec_as_str(state: SessionState) -> Seq<char> {
    match state {
        SessionState::Playing => "playing"@,
        SessionState::Paused => "paused"@,
        SessionState::Buffering => "buffering"@,
        SessionState::Stopped => "stopped"@,
    }
}

/// Whether `s` holds the same characters as `lit`.
pub(crate) fn str_equals(s: &str, lit: &str) -> (r: bool)
    ensures
        r == (s@ == lit@),
{
    let a = s.to_owned();
    let b = lit.to_owned();
    a == b
}

impl SessionState {
    pub fn from_plex(state: &str) -> (r: Self)
        ensures
            r == spec_from_plex(state@),
    {
        if str_equals(state, "playing") {
            SessionState::Playing
        } else if str_equals(state, "paused") {
            SessionState::Paused
        } else if str_equals(state, "buffering") {
            SessionState::Buffering
        } else {
            SessionState::Stopped
        }
    }

    pub fn as_str(&self) -> (r: &'static str)
        ensures
            r@ == spec_as_str(*self),
    {
        match self {
            SessionState::Playing => "playing",
            SessionState::Paused => "paused",
            SessionState::Buffering => "buffering",
            SessionState::Stopped => "stopped",
        }
    }
}

/// Reading a state's name back gives the same state.
pub proof fn lemma_from_plex_as_str(state: SessionState)
    ensures
        spec_from_plex(spec_as_str(state)) == state,
{
    reveal_strlit("playing");
    reveal_strlit("paused");
    reveal_strlit("buffering");
    reveal_strlit("stopped");
    // The four names differ in their length or in their second character.
    assert("paused"@[1] != "playing"@[1]);
    assert("buffering"@.len() != "playing"@.len());
    assert("buffering"@.len() != "paused"@.len());
    assert("stopped"@[1] != "playing"@[1]);
    assert("stopped"@[1] != "paused"@[1]);
    assert("stopped"@[1] != "buffering"@[1]);
}

// ---------------------------------------------------------------------------
// Time and arithmetic.
// ---------------------------------------------------------------------------

/// How long (in nanoseconds) a stopped session is kept after its last update.
pub const SESSION_TIMEOUT_NS: u64 = 60_000_000_000;

/// Nanoseconds from `since` to `now`; zero when `now` is not later.
pub open spec fn elapsed_ns(since: u64, now: u64) -> u64 {
    if now >= since {
        (now - since) as u64
    } else {
        0
    }
}

pub open spec fn saturating_add_u64(a: u64, b: u64) -> u64 {
    if a + b > u64::MAX {
        u64::MAX
    } else {
        (a + b) as u64
    }
}

/// `x`, held within the range of `i128`.
pub open spec fn clamp_i128(x: int) -> i128 {
    if x > i128::MAX {
        i128::MAX
    } else if x < i128::MIN {
        i128::MIN
    } else {
        x as i128
    }
}

fn elapsed_since(since: u64, now: u64) -> (r: u64)
    ensures
        r == elapsed_ns(since, now),
{
    if now >= since {
        now - since
    } else {
        0
    }
}

fn add_clamped(a: i128, b: i128) -> (r: i128)
    ensures
        r == clamp_i128(a + b),
{
    match a.checked_add(b) {
        Some(s) => s,
        None => if b > 0 {
            i128::MAX
        } else {
            i128::MIN
        },
    }
}

/// Kilobits sent at `bitrate` kbit/s during `elapsed` nanoseconds, counted in
/// kbit·ns (10^-9 kbit).
fn kbit_ns(elapsed: u64, bitrate: i64) -> (r: i128)
    ensures
        r as int == elapsed as int * bitrate as int,
{
    let e = elapsed as i128;
    let b = bitrate as i128;
    assert(-0x8000_0000_0000_0000_0000_0000_0000_0000 < e * b < 0x8000_0000_0000_0000_0000_0000_0000_0000) by (nonlinear_arith)
        requires
            0 <= e < 0x1_0000_0000_0000_0000,
            -0x8000_0000_0000_0000 <= b < 0x8000_0000_0000_0000,
    ;
    e * b
}

// ---------------------------------------------------------------------------
// Tracked sessions.
// ---------------------------------------------------------------------------

/// What is known of one playback session. Times are nanoseconds on a
/// monotonic clock.
#[derive(Debug)]
pub struct SessionEntry {
    pub session: Metadata,
    pub media: Metadata,
    pub state: Option<SessionState>,
    pub last_update: Option<u64>,
    pub play_started: Option<u64>,
    pub prev_played: u64,
}

pub struct SessionEntryView {
    pub session: MetadataView,
    pub media: MetadataView,
    pub state: Option<SessionState>,
    pub last_update: Option<u64>,
    pub play_started: Option<u64>,
    pub prev_played: u64,
}

impl View for SessionEntry {
    type V = SessionEntryView;

    open spec fn view(&self) -> SessionEntryView {
        SessionEntryView {
            session: self.session@,
            media: self.media@,
            state: self.state,
            last_update: self.last_update,
            play_started: self.play_started,
            prev_played: self.prev_played,
        }
    }
}

/// A session that nothing is known of yet.
pub open spec fn empty_entry() -> SessionEntryView {
    SessionEntryView {
        session: empty_metadata(),
        media: empty_metadata(),
        state: None,
        last_update: None,
        play_started: None,
        prev_played: 0,
    }
}

impl SessionEntry {
    pub fn new() -> (r: Self)
        ensures
            r@ == empty_entry(),
    {
        SessionEntry {
            session: Metadata::empty(),
            media: Metadata::empty(),
            state: None,
            last_update: None,
            play_started: None,
            prev_played: 0,
        }
    }
}

pub open spec fn is_playing(state: Option<SessionState>) -> bool {
    state == Some(SessionState::Playing)
}

fn state_is_playing(state: Option<SessionState>) -> (r: bool)
    ensures
        r == is_playing(state),
{
    match state {
        Some(SessionState::Playing) => true,
        _ => false,
    }
}

/// The bitrate (kbit/s) of the first media item, or 0 when there is none.
pub open spec fn first_bitrate(m: MetadataView) -> i64 {
    if m.media.len() > 0 {
        m.media[0].bitrate
    } else {
        0
    }
}

fn metadata_first_bitrate(m: &Metadata) -> (r: i64)
    ensures
        r == first_bitrate(m@),
{
    if m.media.len() > 0 {
        m.media[0].bitrate
    } else {
        0
    }
}

pub open spec fn opt_view(m: Option<Metadata>) -> Option<MetadataView> {
    match m {
        Some(m) => Some(m@),
        None => None,
    }
}

/// The entry with the session and media metadata replaced where new ones came.
pub open spec fn with_metadata(
    e: SessionEntryView,
    new_session: Option<MetadataView>,
    media: Option<MetadataView>,
) -> SessionEntryView {
    SessionEntryView {
        session: match new_session {
            Some(s) => s,
            None => e.session,
        },
        media: match media {
            Some(m) => m,
            None => e.media,
        },
        ..e
    }
}

/// Whether moving to `new_state` ends a stretch of playing that has a start.
pub open spec fn flattens(e: SessionEntryView, new_state: SessionState) -> bool {
    is_playing(e.state) && new_state != SessionState::Playing && e.play_started is Some
}

/// Kilobit-nanoseconds sent during the stretch of playing that moving to
/// `new_state` ends, at the bitrate of the session's first media item.
pub open spec fn flattened_kbit_ns(e: SessionEntryView, new_state: SessionState, now: u64) -> int {
    if flattens(e, new_state) {
        elapsed_ns(e.play_started->0, now) as int * first_bitrate(e.session) as int
    } else {
        0
    }
}

/// The entry after it moves to `new_state` at `now`: a stretch of playing that
/// ends is added to the time played before, a stretch that begins starts now.
pub open spec fn next_entry(e: SessionEntryView, new_state: SessionState, now: u64) -> SessionEntryView {
    SessionEntryView {
        state: Some(new_state),
        last_update: Some(now),
        play_started: if !is_playing(e.state) && new_state == SessionState::Playing {
            Some(now)
        } else {
            e.play_started
        },
        prev_played: if flattens(e, new_state) {
            saturating_add_u64(e.prev_played, elapsed_ns(e.play_started->0, now))
        } else {
            e.prev_played
        },
        ..e
    }
}

/// The entry recorded for `id`, or an empty one.
pub open spec fn current_entry(m: Map<Seq<char>, SessionEntryView>, id: Seq<char>) -> SessionEntryView {
    if m.contains_key(id) {
        m[id]
    } else {
        empty_entry()
    }
}

/// The entry of one update: metadata first, then the state change.
pub open spec fn updated_entry(
    e: SessionEntryView,
    new_state: SessionState,
    new_session: Option<MetadataView>,
    media: Option<MetadataView>,
    now: u64,
) -> SessionEntryView {
    next_entry(with_metadata(e, new_session, media), new_state, now)
}

/// What one update adds to the estimate of data sent.
pub open spec fn update_kbit_ns(
    e: SessionEntryView,
    new_state: SessionState,
    new_session: Option<MetadataView>,
    media: Option<MetadataView>,
    now: u64,
) -> int {
    flattened_kbit_ns(with_metadata(e, new_session, media), new_state, now)
}

/// A session that is playing has a start time.
pub open spec fn entry_wf(e: SessionEntryView) -> bool {
    is_playing(e.state) ==> e.play_started is Some
}

/// Whether no key occurs twice.
pub open spec fn unique_keys<V>(s: Seq<(Seq<char>, V)>) -> bool {
    forall|i: int, j: int|
        0 <= i < s.len() && 0 <= j < s.len() && i != j ==> #[trigger] s[i].0 != #[trigger] s[j].0
}

/// An index at which key `k` occurs.
pub open spec fn key_index<V>(s: Seq<(Seq<char>, V)>, k: Seq<char>) -> int {
    choose|i: int| 0 <= i < s.len() && s[i].0 == k
}

/// The map from each key to its value.
pub open spec fn keyed_map<V>(s: Seq<(Seq<char>, V)>) -> Map<Seq<char>, V> {
    Map::new(
        |k: Seq<char>| exists|i: int| 0 <= i < s.len() && s[i].0 == k,
        |k: Seq<char>| s[key_index(s, k)].1,
    )
}

/// The sessions after one update: the entry of `id` is replaced in place, or
/// a new one is added at the end.
pub open spec fn spec_after_update(
    list: Seq<(Seq<char>, SessionEntryView)>,
    id: Seq<char>,
    new_state: SessionState,
    new_session: Option<MetadataView>,
    media: Option<MetadataView>,
    now: u64,
) -> Seq<(Seq<char>, SessionEntryView)> {
    let m = keyed_map(list);
    let e = updated_entry(current_entry(m, id), new_state, new_session, media, now);
    if m.contains_key(id) {
        list.update(key_index(list, id), (id, e))
    } else {
        list.push((id, e))
    }
}

pub proof fn lemma_keyed_map_index<V>(s: Seq<(Seq<char>, V)>, i: int)
    requires
        unique_keys(s),
        0 <= i < s.len(),
    ensures
        keyed_map(s).contains_key(s[i].0),
        keyed_map(s)[s[i].0] == s[i].1,
        key_index(s, s[i].0) == i,
{
    let k = s[i].0;
    assert(exists|j: int| 0 <= j < s.len() && s[j].0 == k);
    let j = choose|j: int| 0 <= j < s.len() && s[j].0 == k;
    assert(i == j);
}

pub proof fn lemma_keyed_map_update<V>(s: Seq<(Seq<char>, V)>, i: int, v: V)
    requires
        unique_keys(s),
        0 <= i < s.len(),
    ensures
        unique_keys(s.update(i, (s[i].0, v))),
        keyed_map(s.update(i, (s[i].0, v))) == keyed_map(s).insert(s[i].0, v),
{
    let t = s.update(i, (s[i].0, v));
    assert(unique_keys(t)) by {
        assert forall|a: int, b: int| 0 <= a < t.len() && 0 <= b < t.len() && a != b implies t[a].0 != t[b].0 by {
            assert(s[a].0 != s[b].0);
        }
    }
    assert forall|k: Seq<char>| #[trigger] keyed_map(t).contains_key(k) == keyed_map(s).insert(s[i].0, v).contains_key(k) by {
        if keyed_map(s).contains_key(k) {
            let j = choose|j: int| 0 <= j < s.len() && s[j].0 == k;
            assert(t[j].0 == k);
        }
        if keyed_map(t).contains_key(k) {
            let j = choose|j: int| 0 <= j < t.len() && t[j].0 == k;
            assert(s[j].0 == k);
        }
    }
    assert forall|k: Seq<char>| #[trigger] keyed_map(t).contains_key(k) implies keyed_map(t)[k] == keyed_map(s).insert(s[i].0, v)[k] by {
        let j = choose|j: int| 0 <= j < t.len() && t[j].0 == k;
        lemma_keyed_map_index(t, j);
        lemma_keyed_map_index(s, j);
    }
    assert(keyed_map(t) =~= keyed_map(s).insert(s[i].0, v));
}

pub proof fn lemma_keyed_map_push<V>(s: Seq<(Seq<char>, V)>, k: Seq<char>, v: V)
    requires
        unique_keys(s),
        !keyed_map(s).contains_key(k),
    ensures
        unique_keys(s.push((k, v))),
        keyed_map(s.push((k, v))) == keyed_map(s).insert(k, v),
{
    let t = s.push((k, v));
    assert forall|a: int, b: int| 0 <= a < t.len() && 0 <= b < t.len() && a != b implies #[trigger] t[a].0 != #[trigger] t[b].0 by {
        if a < s.len() && b < s.len() {
            assert(s[a].0 != s[b].0);
        } else if a < s.len() {
            assert(s[a].0 != k);
        } else {
            assert(s[b].0 != k);
        }
    }
    assert forall|q: Seq<char>| #[trigger] keyed_map(t).contains_key(q) == keyed_map(s).insert(k, v).contains_key(q) by {
        if keyed_map(s).contains_key(q) {
            let j = choose|j: int| 0 <= j < s.len() && s[j].0 == q;
            assert(t[j].0 == q);
        }
        if q == k {
            assert(t[s.len() as int].0 == q);
        }
        if keyed_map(t).contains_key(q) && q != k {
            let j = choose|j: int| 0 <= j < t.len() && t[j].0 == q;
            assert(s[j].0 == q);
        }
    }
    assert forall|q: Seq<char>| #[trigger] keyed_map(t).contains_key(q) implies keyed_map(t)[q] == keyed_map(s).insert(k, v)[q] by {
        let j = choose|j: int| 0 <= j < t.len() && t[j].0 == q;
        lemma_keyed_map_index(t, j);
        if j < s.len() {
            lemma_keyed_map_index(s, j);
        }
    }
    assert(keyed_map(t) =~= keyed_map(s).insert(k, v));
}

/// The playback sessions the exporter knows of, with a running estimate of
/// the data sent by sessions that stopped playing.
pub struct Sessions {
    entries: Vec<(String, SessionEntry)>,
    transmitted_kbit_ns: i128,
}

impl View for Sessions {
    type V = Map<Seq<char>, SessionEntryView>;

    open spec fn view(&self) -> Map<Seq<char>, SessionEntryView> {
        keyed_map(self.entry_list())
    }
}

impl Sessions {
    /// The sessions with their ids, in the order they were first seen.
    pub closed spec fn entry_list(&self) -> Seq<(Seq<char>, SessionEntryView)> {
        self.entries@.map_values(|p: (String, SessionEntry)| (p.0@, p.1@))
    }

    /// The ids of the sessions, in the order they were first seen.
    pub open spec fn ids(&self) -> Seq<Seq<char>> {
        self.entry_list().map_values(|p: (Seq<char>, SessionEntryView)| p.0)
    }

    /// Kilobit-nanoseconds sent by stretches of playing that have ended.
    pub closed spec fn transmitted(&self) -> i128 {
        self.transmitted_kbit_ns
    }

    pub open spec fn wf(&self) -> bool {
        &&& unique_keys(self.entry_list())
        &&& forall|i: int| 0 <= i < self.entry_list().len() ==> entry_wf(#[trigger] self.entry_list()[i].1)
    }

    pub fn new() -> (r: Self)
        ensures
            r.wf(),
            r@ == Map::<Seq<char>, SessionEntryView>::empty(),
            r.entry_list() == Seq::<(Seq<char>, SessionEntryView)>::empty(),
            r.transmitted() == 0,
    {
        let r = Sessions { entries: Vec::new(), transmitted_kbit_ns: 0 };
        assert(r.entry_list() =~= Seq::<(Seq<char>, SessionEntryView)>::empty());
        assert(r@ =~= Map::<Seq<char>, SessionEntryView>::empty());
        r
    }

    fn position(&self, key: &String) -> (r: Option<usize>)
        requires
            self.wf(),
        ensures
            r matches Some(i) ==> i < self.entry_list().len() && self.entry_list()[i as int].0 == key@,
            r is None ==> !self@.contains_key(key@),
    {
        let mut i: usize = 0;
        while i < self.entries.len()
            invariant
                i <= self.entries@.len(),
                forall|j: int| 0 <= j < i ==> self.entry_list()[j].0 != key@,
            decreases self.entries@.len() - i,
        {
            if self.entries[i].0 == *key {
                return Some(i);
            }
            i = i + 1;
        }
        None
    }

    /// Records that session `session_id` is now in `new_state`, at time `now`,
    /// with fresh session or media metadata where it came.
    pub fn update(
        &mut self,
        session_id: &str,
        new_state: SessionState,
        new_session: Option<Metadata>,
        media: Option<Metadata>,
        now: u64,
    )
        requires
            old(self).wf(),
        ensures
            final(self).wf(),
            final(self)@ == old(self)@.insert(
                session_id@,
                updated_entry(current_entry(old(self)@, session_id@), new_state, opt_view(new_session), opt_view(media), now),
            ),
            final(self).ids() == if old(self)@.contains_key(session_id@) {
                old(self).ids()
            } else {
                old(self).ids().push(session_id@)
            },
            final(self).entry_list() == spec_after_update(
                old(self).entry_list(), session_id@, new_state, opt_view(new_session), opt_view(media), now),
            final(self).transmitted() == clamp_i128(
                old(self).transmitted() + update_kbit_ns(
                    current_entry(old(self)@, session_id@), new_state, opt_view(new_session), opt_view(media), now),
            ),
    {
        let key = session_id.to_owned();
        let ghost old_list = self.entry_list();
        let i: usize = match self.position(&key) {
            Some(i) => {
                proof { lemma_keyed_map_index(old_list, i as int); }
                i
            },
            None => {
                self.entries.push((key, SessionEntry::new()));
                proof {
                    assert(self.entry_list() =~= old_list.push((session_id@, empty_entry())));
                    lemma_keyed_map_push(old_list, session_id@, empty_entry());
                    lemma_keyed_map_index(self.entry_list(), old_list.len() as int);
                }
                self.entries.len() - 1
            },
        };
        let ghost mid_list = self.entry_list();
        let ghost e0 = mid_list[i as int].1;
        assert(e0 == current_entry(old(self)@, session_id@));
        let (k, mut entry) = self.entries.remove(i);
        if let Some(s) = new_session {
            entry.session = s;
        }
        if let Some(m) = media {
            entry.media = m;
        }
        let ghost e1 = entry@;
        assert(e1 == with_metadata(e0, opt_view(new_session), opt_view(media)));
        let mut delta: i128 = 0;
        if state_is_playing(entry.state) && new_state != SessionState::Playing {
            if let Some(started) = entry.play_started {
                let elapsed = elapsed_since(started, now);
                entry.prev_played = entry.prev_played.saturating_add(elapsed);
                delta = kbit_ns(elapsed, metadata_first_bitrate(&entry.session));
            }
        }
        if !state_is_playing(entry.state) && new_state == SessionState::Playing {
            entry.play_started = Some(now);
        }
        entry.state = Some(new_state);
        entry.last_update = Some(now);
        assert(entry@ == next_entry(e1, new_state, now));
        self.entries.insert(i, (k, entry));
        proof {
            assert(self.entry_list() =~= mid_list.update(i as int, (mid_list[i as int].0, entry@)));
            lemma_keyed_map_update(mid_list, i as int, entry@);
            assert(self.ids() =~= mid_list.map_values(|p: (Seq<char>, SessionEntryView)| p.0));
            if !old(self)@.contains_key(session_id@) {
                assert(old_list.push((session_id@, empty_entry())).map_values(|p: (Seq<char>, SessionEntryView)| p.0)
                    =~= old_list.map_values(|p: (Seq<char>, SessionEntryView)| p.0).push(session_id@));
            }
        }
        self.transmitted_kbit_ns = add_clamped(self.transmitted_kbit_ns, delta);
    }
}


/// Whether the session stopped and was last updated more than the timeout ago.
pub open spec fn is_stale(e: SessionEntryView, now: u64) -> bool {
    &&& e.state == Some(SessionState::Stopped)
    &&& e.last_update matches Some(t) && elapsed_ns(t, now) > SESSION_TIMEOUT_NS
}

pub open spec fn keeps(now: u64) -> spec_fn((Seq<char>, SessionEntryView)) -> bool {
    |p: (Seq<char>, SessionEntryView)| !is_stale(p.1, now)
}

fn entry_is_stale(e: &SessionEntry, now: u64) -> (r: bool)
    ensures
        r == is_stale(e@, now),
{
    match (e.state, e.last_update) {
        (Some(SessionState::Stopped), Some(t)) => elapsed_since(t, now) > SESSION_TIMEOUT_NS,
        _ => false,
    }
}

/// Kilobit-nanoseconds that a session playing now has sent since it started.
pub open spec fn running_kbit_ns(e: SessionEntryView, now: u64) -> int {
    if is_playing(e.state) && e.play_started is Some {
        elapsed_ns(e.play_started->0, now) as int * first_bitrate(e.session) as int
    } else {
        0
    }
}

/// `start` plus what each session in `s` is sending now, summed in order and
/// held within `i128` at every step.
pub open spec fn extrapolate(start: i128, s: Seq<(Seq<char>, SessionEntryView)>, now: u64) -> i128
    decreases s.len(),
{
    if s.len() == 0 {
        start
    } else {
        clamp_i128(extrapolate(start, s.drop_last(), now) + running_kbit_ns(s.last().1, now))
    }
}

impl Sessions {
    /// Forgets the sessions that stopped more than the timeout ago.
    pub fn prune_old_sessions(&mut self, now: u64)
        requires
            old(self).wf(),
        ensures
            final(self).wf(),
            final(self).entry_list() == old(self).entry_list().filter(keeps(now)),
            final(self).transmitted() == old(self).transmitted(),
    {
        let ghost old_list = self.entry_list();
        let ghost pred = keeps(now);
        let mut i: usize = 0;
        let ghost mut k: int = 0;
        while i < self.entries.len()
            invariant
                0 <= i <= k <= old_list.len(),
                i <= self.entries@.len(),
                self.transmitted_kbit_ns == old(self).transmitted_kbit_ns,
                pred == keeps(now),
                old_list == old(self).entry_list(),
                self.entry_list() =~= old_list.subrange(0, k).filter(pred) + old_list.subrange(k, old_list.len() as int),
                old_list.subrange(0, k).filter(pred).len() == i,
            decreases self.entries@.len() - i,
        {
            proof {
                lemma_filter_in_place_step(old_list, pred, k, self.entry_list(), i as int);
            }
            if entry_is_stale(&self.entries[i].1, now) {
                let ghost before = self.entry_list();
                let _ = self.entries.remove(i);
                proof {
                    assert(self.entry_list() =~= before.remove(i as int));
                    k = k + 1;
                }
            } else {
                i = i + 1;
                proof {
                    k = k + 1;
                }
            }
        }
        proof {
            assert(old_list.subrange(0, k) =~= old_list);
            assert(self.entry_list() =~= old_list.filter(pred));
            lemma_filter_keeps_wf(old_list, pred);
        }
    }

    /// Kilobit-nanoseconds sent so far: the stretches of playing that have
    /// ended, plus what the sessions playing now have sent since they started.
    pub fn extrapolated_transmitted_kbit_ns(&self, now: u64) -> (r: i128)
        requires
            self.wf(),
        ensures
            r == extrapolate(self.transmitted(), self.entry_list(), now),
    {
        let mut total = self.transmitted_kbit_ns;
        let mut i: usize = 0;
        while i < self.entries.len()
            invariant
                i <= self.entries@.len(),
                total == extrapolate(self.transmitted(), self.entry_list().subrange(0, i as int), now),
            decreases self.entries@.len() - i,
        {
            let entry = &self.entries[i].1;
            let mut running: i128 = 0;
            if state_is_playing(entry.state) {
                if let Some(started) = entry.play_started {
                    running = kbit_ns(elapsed_since(started, now), metadata_first_bitrate(&entry.session));
                }
            }
            total = add_clamped(total, running);
            proof {
                let s = self.entry_list().subrange(0, i + 1);
                assert(s.drop_last() =~= self.entry_list().subrange(0, i as int));
                assert(s.last().1 == entry@);
            }
            i = i + 1;
        }
        assert(self.entry_list().subrange(0, i as int) =~= self.entry_list());
        total
    }
}

/// One step of filtering a list in place: with the first `k` items filtered
/// (`i` of them kept) and the rest untouched, the item at `i` is the `k`-th
/// one; keeping it, or removing it, filters one more item.
proof fn lemma_filter_in_place_step<A>(s: Seq<A>, pred: spec_fn(A) -> bool, k: int, cur: Seq<A>, i: int)
    requires
        0 <= k < s.len(),
        cur == s.subrange(0, k).filter(pred) + s.subrange(k, s.len() as int),
        s.subrange(0, k).filter(pred).len() == i,
    ensures
        0 <= i < cur.len(),
        cur[i] == s[k],
        pred(s[k]) ==> cur == s.subrange(0, k + 1).filter(pred) + s.subrange(k + 1, s.len() as int)
            && s.subrange(0, k + 1).filter(pred).len() == i + 1,
        !pred(s[k]) ==> cur.remove(i) == s.subrange(0, k + 1).filter(pred) + s.subrange(k + 1, s.len() as int)
            && s.subrange(0, k + 1).filter(pred).len() == i,
{
    let prefix = s.subrange(0, k);
    assert(s.subrange(0, k + 1) =~= prefix.push(s[k]));
    assert(prefix.push(s[k]).drop_last() =~= prefix);
    reveal_with_fuel(Seq::filter, 2);
    assert(s.subrange(k, s.len() as int) =~= seq![s[k]] + s.subrange(k + 1, s.len() as int));
    if pred(s[k]) {
        assert(prefix.push(s[k]).filter(pred) =~= prefix.filter(pred).push(s[k]));
        assert(cur =~= s.subrange(0, k + 1).filter(pred) + s.subrange(k + 1, s.len() as int));
    } else {
        assert(prefix.push(s[k]).filter(pred) =~= prefix.filter(pred));
        assert(cur.remove(i) =~= s.subrange(0, k + 1).filter(pred) + s.subrange(k + 1, s.len() as int));
    }
}

/// Filtering the sessions keeps them well formed.
proof fn lemma_filter_keeps_wf(
    s: Seq<(Seq<char>, SessionEntryView)>,
    pred: spec_fn((Seq<char>, SessionEntryView)) -> bool,
)
    requires
        unique_keys(s),
        forall|i: int| 0 <= i < s.len() ==> entry_wf(#[trigger] s[i].1),
    ensures
        unique_keys(s.filter(pred)),
        forall|j: int| 0 <= j < s.filter(pred).len() ==> entry_wf(#[trigger] s.filter(pred)[j].1),
{
    lemma_filter_unique(s, pred);
    assert forall|j: int| 0 <= j < s.filter(pred).len() implies entry_wf(#[trigger] s.filter(pred)[j].1) by {
        let t = s.filter(pred)[j];
        assert(s.filter(pred).contains(t));
        s.lemma_filter_contains_rev(pred, t);
    }
}

/// Filtering keeps keys unique.
pub proof fn lemma_filter_unique<V>(s: Seq<(Seq<char>, V)>, pred: spec_fn((Seq<char>, V)) -> bool)
    requires
        unique_keys(s),
    ensures
        unique_keys(s.filter(pred)),
    decreases s.len(),
{
    reveal(Seq::filter);
    if s.len() > 0 {
        let rest = s.drop_last();
        assert(unique_keys(rest)) by {
            assert forall|a: int, b: int| 0 <= a < rest.len() && 0 <= b < rest.len() && a != b implies #[trigger] rest[a].0 != #[trigger] rest[b].0 by {
                assert(s[a].0 != s[b].0);
            }
        }
        lemma_filter_unique(rest, pred);
        if pred(s.last()) {
            let f = rest.filter(pred);
            let t = f.push(s.last());
            assert(s.filter(pred) == t);
            assert forall|a: int, b: int| 0 <= a < t.len() && 0 <= b < t.len() && a != b implies #[trigger] t[a].0 != #[trigger] t[b].0 by {
                if a < f.len() && b < f.len() {
                } else if a < f.len() {
                    assert(f.contains(f[a]));
                    rest.lemma_filter_contains_rev(pred, f[a]);
                    let j = choose|j: int| 0 <= j < rest.len() && rest[j] == f[a];
                    assert(s[j].0 != s[s.len() - 1].0);
                } else {
                    assert(f.contains(f[b]));
                    rest.lemma_filter_contains_rev(pred, f[b]);
                    let j = choose|j: int| 0 <= j < rest.len() && rest[j] == f[b];
                    assert(s[j].0 != s[s.len() - 1].0);
                }
            }
        }
    }
}


// ---------------------------------------------------------------------------
// Per-scrape samples.
// ---------------------------------------------------------------------------

/// What one tracked session contributes to a scrape: the values of the play
/// labels, the total time played, the state it is active in (if it has not
/// stopped) and, for an active session, its transcode state.
#[derive(Debug)]
pub struct SessionSample {
    pub labels: Vec<String>,
    pub play_time_ns: u64,
    pub active_state: Option<SessionState>,
    pub transcode: Option<TranscodeSession>,
}

pub struct SessionSampleView {
    pub labels: Seq<Seq<char>>,
    pub play_time_ns: u64,
    pub active_state: Option<SessionState>,
    pub transcode: Option<TranscodeSession>,
}

impl View for SessionSample {
    type V = SessionSampleView;

    open spec fn view(&self) -> SessionSampleView {
        SessionSampleView {
            labels: self.labels@.map_values(|s: String| s@),
            play_time_ns: self.play_time_ns,
            active_state: self.active_state,
            transcode: self.transcode,
        }
    }
}

pub open spec fn empty_media() -> MediaView {
    MediaView { bitrate: 0, video_resolution: Seq::empty(), part: Seq::empty() }
}

/// The first media item, or an empty one.
pub open spec fn first_media(m: MetadataView) -> MediaView {
    if m.media.len() > 0 {
        m.media[0]
    } else {
        empty_media()
    }
}

/// The transcode decision of the first part, or the empty string.
pub open spec fn first_part_decision(m: MediaView) -> Seq<char> {
    if m.part.len() > 0 {
        m.part[0].decision
    } else {
        Seq::empty()
    }
}

/// The values of the play labels of session `id`, in the order of
/// `spec_play_label_names`.
pub open spec fn spec_play_label_values(
    server_name: Seq<char>,
    server_id: Seq<char>,
    lib: LibraryView,
    id: Seq<char>,
    e: SessionEntryView,
) -> Seq<Seq<char>> {
    let titles = spec_play_labels(e.media);
    let media0 = first_media(e.session);
    seq![
        "plex"@,
        server_name,
        server_id,
        lib.library_type,
        lib.name,
        lib.id,
        e.media.media_type,
        titles.0,
        titles.1,
        titles.2,
        first_part_decision(media0),
        media0.video_resolution,
        first_media(e.media).video_resolution,
        spec_decimal(media0.bitrate as int),
        e.session.player.device,
        e.session.player.product,
        e.session.user.title,
        id,
    ]
}

/// Total time played: the stretches that ended plus, while playing, the one
/// that began at `started`.
pub open spec fn spec_play_time_ns(e: SessionEntryView, started: u64, now: u64) -> u64 {
    if is_playing(e.state) {
        saturating_add_u64(e.prev_played, elapsed_ns(started, now))
    } else {
        e.prev_played
    }
}

/// The state a session is active in: any known state but stopped.
pub open spec fn active_state(state: Option<SessionState>) -> Option<SessionState> {
    match state {
        Some(s) => if s != SessionState::Stopped {
            Some(s)
        } else {
            None
        },
        None => None,
    }
}

/// The sample of one session: none for a session that never played, or whose
/// library is not among `libs`.
pub open spec fn spec_sample(
    server_name: Seq<char>,
    server_id: Seq<char>,
    libs: Seq<LibraryView>,
    now: u64,
    p: (Seq<char>, SessionEntryView),
) -> Option<SessionSampleView> {
    let e = p.1;
    match e.play_started {
        None => None,
        Some(started) => match spec_find_library(libs, e.media.library_section_id) {
            None => None,
            Some(lib) => Some(
                SessionSampleView {
                    labels: spec_play_label_values(server_name, server_id, lib, p.0, e),
                    play_time_ns: spec_play_time_ns(e, started, now),
                    active_state: active_state(e.state),
                    transcode: if active_state(e.state) is Some {
                        e.session.transcode_session
                    } else {
                        None
                    },
                },
            ),
        },
    }
}

pub open spec fn sample_of(
    server_name: Seq<char>,
    server_id: Seq<char>,
    libs: Seq<LibraryView>,
    now: u64,
) -> spec_fn((Seq<char>, SessionEntryView)) -> Option<SessionSampleView> {
    |p: (Seq<char>, SessionEntryView)| spec_sample(server_name, server_id, libs, now, p)
}

fn first_part_decision_of(m: &Media) -> (r: String)
    ensures
        r@ == first_part_decision(m@),
{
    if m.part.len() > 0 {
        m.part[0].decision.clone()
    } else {
        String::new()
    }
}

fn play_label_values(
    server_name: &str,
    server_id: &str,
    lib: &Library,
    id: &String,
    e: &SessionEntry,
) -> (r: Vec<String>)
    ensures
        r@.map_values(|s: String| s@) == spec_play_label_values(server_name@, server_id@, lib@, id@, e@),
{
    let titles = e.media.play_labels();
    let (decision, resolution, bitrate) = if e.session.media.len() > 0 {
        let m = &e.session.media[0];
        (first_part_decision_of(m), m.video_resolution.clone(), decimal_string(m.bitrate))
    } else {
        (String::new(), String::new(), decimal_string(0))
    };
    let file_resolution = if e.media.media.len() > 0 {
        e.media.media[0].video_resolution.clone()
    } else {
        String::new()
    };
    let mut v: Vec<String> = Vec::new();
    v.push("plex".to_owned());
    v.push(server_name.to_owned());
    v.push(server_id.to_owned());
    v.push(lib.library_type.clone());
    v.push(lib.name.clone());
    v.push(lib.id.clone());
    v.push(e.media.media_type.clone());
    v.push(titles.0.to_owned());
    v.push(titles.1.to_owned());
    v.push(titles.2.to_owned());
    v.push(decision);
    v.push(resolution);
    v.push(file_resolution);
    v.push(bitrate);
    v.push(e.session.player.device.clone());
    v.push(e.session.player.product.clone());
    v.push(e.session.user.title.clone());
    v.push(id.clone());
    assert(v@.map_values(|s: String| s@) =~= spec_play_label_values(server_name@, server_id@, lib@, id@, e@));
    v
}

impl Sessions {
    /// The samples of the tracked sessions, in the order they were first seen.
    pub fn collect_samples(
        &self,
        server_name: &str,
        server_id: &str,
        libraries: &Vec<Library>,
        now: u64,
    ) -> (r: Vec<SessionSample>)
        requires
            self.wf(),
        ensures
            r@.map_values(|s: SessionSample| s@) == self.entry_list().filter_map(
                sample_of(server_name@, server_id@, libraries@.map_values(|l: Library| l@), now),
            ),
    {
        let ghost libs = libraries@.map_values(|l: Library| l@);
        let ghost f = sample_of(server_name@, server_id@, libs, now);
        let mut out: Vec<SessionSample> = Vec::new();
        let mut i: usize = 0;
        while i < self.entries.len()
            invariant
                i <= self.entries@.len(),
                libs == libraries@.map_values(|l: Library| l@),
                f == sample_of(server_name@, server_id@, libs, now),
                out@.map_values(|s: SessionSample| s@) == self.entry_list().subrange(0, i as int).filter_map(f),
            decreases self.entries@.len() - i,
        {
            let ghost prefix = self.entry_list().subrange(0, i + 1);
            proof {
                assert(prefix.drop_last() =~= self.entry_list().subrange(0, i as int));
                assert(prefix.last() == self.entry_list()[i as int]);
            }
            let id = &self.entries[i].0;
            let entry = &self.entries[i].1;
            if let Some(started) = entry.play_started {
                match find_library(libraries, entry.media.library_section_id.as_str()) {
                    Some(lib) => {
                        let labels = play_label_values(server_name, server_id, lib, id, entry);
                        let play_time_ns = if state_is_playing(entry.state) {
                            entry.prev_played.saturating_add(elapsed_since(started, now))
                        } else {
                            entry.prev_played
                        };
                        let active = match entry.state {
                            Some(s) => if s != SessionState::Stopped {
                                Some(s)
                            } else {
                                None
                            },
                            None => None,
                        };
                        let transcode = if active.is_some() {
                            entry.session.transcode_session
                        } else {
                            None
                        };
                        let sample = SessionSample { labels, play_time_ns, active_state: active, transcode };
                        let ghost before = out@;
                        out.push(sample);
                        proof {
                            assert(out@.map_values(|s: SessionSample| s@) =~= before.map_values(|s: SessionSample| s@).push(sample@));
                        }
                    },
                    None => {},
                }
            }
            i = i + 1;
        }
        assert(self.entry_list().subrange(0, i as int) =~= self.entry_list());
        out
    }
}


// ---------------------------------------------------------------------------
// Laws.
// ---------------------------------------------------------------------------

/// The total play time a session reports at `now`.
pub open spec fn reported_play_time(e: SessionEntryView, now: u64) -> u64 {
    match e.play_started {
        Some(started) => spec_play_time_ns(e, started, now),
        None => e.prev_played,
    }
}

/// An update does not change the play time reported for the session at the
/// moment of the update: a stretch of playing that ends moves into the time
/// played before, and one that begins has lasted nothing yet.
pub proof fn lemma_update_keeps_play_time(
    e: SessionEntryView,
    new_state: SessionState,
    new_session: Option<MetadataView>,
    media: Option<MetadataView>,
    now: u64,
)
    requires
        entry_wf(e),
    ensures
        entry_wf(updated_entry(e, new_state, new_session, media, now)),
        reported_play_time(updated_entry(e, new_state, new_session, media, now), now)
            == reported_play_time(e, now),
{
}

/// Between updates, the play time a session reports never decreases.
pub proof fn lemma_play_time_monotonic(e: SessionEntryView, earlier: u64, later: u64)
    requires
        earlier <= later,
    ensures
        reported_play_time(e, earlier) <= reported_play_time(e, later),
{
}

/// The play time a session reports never decreases across an update made no
/// earlier than the previous reading and no later than the next one.
pub proof fn lemma_play_time_never_decreases(
    e: SessionEntryView,
    new_state: SessionState,
    new_session: Option<MetadataView>,
    media: Option<MetadataView>,
    before: u64,
    at: u64,
    after: u64,
)
    requires
        entry_wf(e),
        before <= at <= after,
    ensures
        reported_play_time(e, before) <= reported_play_time(
            updated_entry(e, new_state, new_session, media, at),
            after,
        ),
{
    lemma_play_time_monotonic(e, before, at);
    lemma_update_keeps_play_time(e, new_state, new_session, media, at);
    lemma_play_time_monotonic(updated_entry(e, new_state, new_session, media, at), at, after);
}

/// An update conserves the estimate of data sent at its moment: what it adds
/// to the total of ended stretches is what the session stops counting as
/// being sent now (at the bitrate of the metadata it holds after the update).
pub proof fn lemma_update_conserves_estimate(
    e: SessionEntryView,
    new_state: SessionState,
    new_session: Option<MetadataView>,
    media: Option<MetadataView>,
    now: u64,
)
    requires
        entry_wf(e),
    ensures
        update_kbit_ns(e, new_state, new_session, media, now) + running_kbit_ns(
            updated_entry(e, new_state, new_session, media, now),
            now,
        ) == running_kbit_ns(with_metadata(e, new_session, media), now),
{
    let e1 = with_metadata(e, new_session, media);
    let e2 = next_entry(e1, new_state, now);
    assert(e2.session == e1.session);
    if is_playing(e1.state) && new_state == SessionState::Playing {
        assert(e2.play_started == e1.play_started);
    } else if !is_playing(e1.state) && new_state == SessionState::Playing {
        assert(elapsed_ns(now, now) == 0);
        assert(running_kbit_ns(e2, now) == 0 * first_bitrate(e2.session) as int);
    }
}

/// Pruning twice at the same moment removes nothing more.
pub proof fn lemma_prune_idempotent(s: Seq<(Seq<char>, SessionEntryView)>, now: u64)
    ensures
        s.filter(keeps(now)).filter(keeps(now)) == s.filter(keeps(now)),
    decreases s.len(),
{
    reveal(Seq::filter);
    if s.len() > 0 {
        lemma_prune_idempotent(s.drop_last(), now);
        let f = s.drop_last().filter(keeps(now));
        if keeps(now)(s.last()) {
            assert(f.push(s.last()).drop_last() =~= f);
        }
    }
}

/// Every sample carries exactly one value per play label, so that the play
/// labels, and with the state the active session labels, match it.
pub proof fn lemma_sample_label_count(
    list: Seq<(Seq<char>, SessionEntryView)>,
    server_name: Seq<char>,
    server_id: Seq<char>,
    libs: Seq<LibraryView>,
    now: u64,
)
    ensures
        forall|i: int|
            0 <= i < list.filter_map(sample_of(server_name, server_id, libs, now)).len() ==> {
                let sample = #[trigger] list.filter_map(sample_of(server_name, server_id, libs, now))[i];
                &&& sample.labels.len() == spec_play_label_names().len()
                &&& sample.labels.len() + 1 == spec_active_session_label_names().len()
            },
    decreases list.len(),
{
    let f = sample_of(server_name, server_id, libs, now);
    if list.len() > 0 {
        lemma_sample_label_count(list.drop_last(), server_name, server_id, libs, now);
    }
}


/// What the sessions in `s` are sending now, summed exactly.
pub open spec fn running_sum(s: Seq<(Seq<char>, SessionEntryView)>, now: u64) -> int
    decreases s.len(),
{
    if s.len() == 0 {
        0
    } else {
        running_sum(s.drop_last(), now) + running_kbit_ns(s.last().1, now)
    }
}

proof fn lemma_running_sum_update(
    s: Seq<(Seq<char>, SessionEntryView)>,
    i: int,
    p: (Seq<char>, SessionEntryView),
    now: u64,
)
    requires
        0 <= i < s.len(),
    ensures
        running_sum(s.update(i, p), now) == running_sum(s, now) - running_kbit_ns(s[i].1, now)
            + running_kbit_ns(p.1, now),
    decreases s.len(),
{
    let t = s.update(i, p);
    if i == s.len() - 1 {
        assert(t.drop_last() =~= s.drop_last());
    } else {
        lemma_running_sum_update(s.drop_last(), i, p, now);
        assert(t.drop_last() =~= s.drop_last().update(i, p));
    }
}

/// When no partial sum leaves the range of `i128`, the estimate is exact.
pub proof fn lemma_extrapolate_exact(start: i128, s: Seq<(Seq<char>, SessionEntryView)>, now: u64)
    requires
        forall|k: int|
            0 <= k <= s.len() ==> i128::MIN <= start + #[trigger] running_sum(s.subrange(0, k), now)
                <= i128::MAX,
    ensures
        extrapolate(start, s, now) == start + running_sum(s, now),
    decreases s.len(),
{
    if s.len() > 0 {
        let rest = s.drop_last();
        assert forall|k: int| 0 <= k <= rest.len() implies i128::MIN <= start + #[trigger] running_sum(rest.subrange(0, k), now) <= i128::MAX by {
            assert(rest.subrange(0, k) =~= s.subrange(0, k));
        }
        lemma_extrapolate_exact(start, rest, now);
        assert(s.subrange(0, s.len() as int) =~= s);
    }
}

/// An update that brings no new session metadata conserves the estimate of
/// data sent at its moment: what it adds to the total of ended stretches is
/// what stops being counted as sent by the sessions playing now (unless the
/// total is held at the limit of `i128`).
pub proof fn lemma_update_conserves_total_estimate(
    list: Seq<(Seq<char>, SessionEntryView)>,
    transmitted: i128,
    id: Seq<char>,
    new_state: SessionState,
    media: Option<MetadataView>,
    now: u64,
)
    requires
        unique_keys(list),
        forall|i: int| 0 <= i < list.len() ==> entry_wf(#[trigger] list[i].1),
        i128::MIN <= transmitted + update_kbit_ns(current_entry(keyed_map(list), id), new_state, None, media, now) <= i128::MAX,
    ensures
        clamp_i128(transmitted + update_kbit_ns(current_entry(keyed_map(list), id), new_state, None, media, now))
            + running_sum(spec_after_update(list, id, new_state, None, media, now), now)
            == transmitted + running_sum(list, now),
{
    let m = keyed_map(list);
    let e = current_entry(m, id);
    let e2 = updated_entry(e, new_state, None, media, now);
    if m.contains_key(id) {
        let i = key_index(list, id);
        lemma_keyed_map_index(list, i);
        lemma_update_conserves_estimate(e, new_state, None, media, now);
        lemma_running_sum_update(list, i, (id, e2), now);
    } else {
        lemma_update_conserves_estimate(e, new_state, None, media, now);
        assert(list.push((id, e2)).drop_last() =~= list);
    }
}

/// While nothing is updated, the estimate of data sent never decreases, as
/// long as no bitrate is negative.
pub proof fn lemma_estimate_monotonic(s: Seq<(Seq<char>, SessionEntryView)>, earlier: u64, later: u64)
    requires
        earlier <= later,
        forall|i: int| 0 <= i < s.len() ==> first_bitrate(#[trigger] s[i].1.session) >= 0,
    ensures
        running_sum(s, earlier) <= running_sum(s, later),
    decreases s.len(),
{
    if s.len() > 0 {
        let rest = s.drop_last();
        assert forall|i: int| 0 <= i < rest.len() implies first_bitrate(#[trigger] rest[i].1.session) >= 0 by {
            assert(rest[i] == s[i]);
        }
        lemma_estimate_monotonic(rest, earlier, later);
        let e = s.last().1;
        if is_playing(e.state) && e.play_started is Some {
            let st = e.play_started->0;
            let b = first_bitrate(e.session) as int;
            assert(b >= 0);
            assert(elapsed_ns(st, earlier) <= elapsed_ns(st, later));
            assert(elapsed_ns(st, earlier) as int * b <= elapsed_ns(st, later) as int * b) by (nonlinear_arith)
                requires
                    elapsed_ns(st, earlier) <= elapsed_ns(st, later),
                    b >= 0,
            ;
        }
    }
}


/// After pruning, no sample of a scrape belongs to a session that had
/// stopped more than the timeout before: finished sessions drop out.
pub proof fn lemma_pruned_sessions_not_reported(
    list: Seq<(Seq<char>, SessionEntryView)>,
    now: u64,
    server_name: Seq<char>,
    server_id: Seq<char>,
    libs: Seq<LibraryView>,
    scrape_at: u64,
    id: Seq<char>,
)
    requires
        unique_keys(list),
        keyed_map(list).contains_key(id),
        is_stale(keyed_map(list)[id], now),
    ensures
        forall|i: int|
            0 <= i < list.filter(keeps(now)).filter_map(sample_of(server_name, server_id, libs, scrape_at)).len()
                ==> (#[trigger] list.filter(keeps(now)).filter_map(
                sample_of(server_name, server_id, libs, scrape_at),
            )[i]).labels.last() != id,
{
    let kept = list.filter(keeps(now));
    let f = sample_of(server_name, server_id, libs, scrape_at);
    let out = kept.filter_map(f);
    assert forall|i: int| 0 <= i < out.len() implies (#[trigger] out[i]).labels.last() != id by {
        assert(out.contains(out[i]));
        kept.lemma_filter_map_contains(f, out[i]);
        let t = choose|t: (Seq<char>, SessionEntryView)| #[trigger] kept.contains(t) && f(t) == Some(out[i]);
        list.lemma_filter_contains_rev(keeps(now), t);
        let j = choose|j: int| 0 <= j < list.len() && list[j] == t;
        let k = key_index(list, id);
        lemma_keyed_map_index(list, k);
        assert(keeps(now)(t)) by {
            let m = choose|m: int| 0 <= m < kept.len() && kept[m] == t;
            list.lemma_filter_pred(keeps(now), m);
        }
        if t.0 == id {
            assert(list[j].0 == list[k].0);
            assert(j == k);
        }
        assert(out[i].labels.last() == t.0);
    }
}


/// Only playing accrues play time: after an update to any state other than
/// playing, the session's sample is the same at every later moment, and its
/// play time is the one reported at the update.
pub proof fn lemma_only_playing_accrues(
    e: SessionEntryView,
    id: Seq<char>,
    new_state: SessionState,
    new_session: Option<MetadataView>,
    media: Option<MetadataView>,
    now: u64,
    later: u64,
    server_name: Seq<char>,
    server_id: Seq<char>,
    libs: Seq<LibraryView>,
)
    requires
        entry_wf(e),
        new_state != SessionState::Playing,
        now <= later,
    ensures
        spec_sample(server_name, server_id, libs, later, (id, updated_entry(e, new_state, new_session, media, now)))
            == spec_sample(server_name, server_id, libs, now, (id, updated_entry(e, new_state, new_session, media, now))),
        reported_play_time(updated_entry(e, new_state, new_session, media, now), later)
            == reported_play_time(e, now),
        running_kbit_ns(updated_entry(e, new_state, new_session, media, now), later) == 0,
{
    lemma_update_keeps_play_time(e, new_state, new_session, media, now);
}

/// A playing session's play time grows with the clock: at a later moment it
/// is the time at an earlier one plus the time in between (up to the limit
/// of `u64`).
pub proof fn lemma_playing_accrues(e: SessionEntryView, started: u64, earlier: u64, later: u64)
    requires
        e.state == Some(SessionState::Playing),
        e.play_started == Some(started),
        started <= earlier <= later,
    ensures
        reported_play_time(e, later) == saturating_add_u64(
            e.prev_played,
            (later - started) as u64,
        ),
        reported_play_time(e, earlier) <= reported_play_time(e, later),
{
}

/// Every known state but stopped is active: a sampled session in state `s`
/// other than stopped is reported as active in `s`, with its transcode state;
/// a stopped session, or one with no known state, is not active and reports
/// no transcode state.
pub proof fn lemma_active_states(
    server_name: Seq<char>,
    server_id: Seq<char>,
    libs: Seq<LibraryView>,
    now: u64,
    p: (Seq<char>, SessionEntryView),
    s: SessionState,
)
    ensures
        spec_sample(server_name, server_id, libs, now, p) is Some && p.1.state == Some(s) && s
            != SessionState::Stopped ==> spec_sample(server_name, server_id, libs, now, p)->0.active_state == Some(s)
            && spec_sample(server_name, server_id, libs, now, p)->0.transcode == p.1.session.transcode_session,
        spec_sample(server_name, server_id, libs, now, p) is Some && (p.1.state == Some(SessionState::Stopped)
            || p.1.state is None) ==> spec_sample(server_name, server_id, libs, now, p)->0.active_state is None
            && spec_sample(server_name, server_id, libs, now, p)->0.transcode is None,
{
}

/// What a session is sending now: for a playing session with a start time,
/// the time since the start (none before it) times the bitrate of its first
/// media item (0 without one), whatever its transcode state; for a session in
/// any other state, nothing.
pub proof fn lemma_running_rate(e: SessionEntryView, now: u64, st: u64)
    ensures
        e.state == Some(SessionState::Playing) && e.play_started == Some(st) ==> running_kbit_ns(e, now)
            == (if now >= st { now - st } else { 0 }) * (if e.session.media.len() > 0 {
                e.session.media[0].bitrate as int
            } else {
                0
            }),
        e.state != Some(SessionState::Playing) ==> running_kbit_ns(e, now) == 0,
        e.play_started is None ==> running_kbit_ns(e, now) == 0,
{
}

/// What an update adds to the data-sent total: when a playing session with a
/// start time moves to any other state, the time since the start times the
/// bitrate of the first media item of the session metadata it holds after the
/// update, whatever its transcode state; otherwise nothing.
pub proof fn lemma_update_rate(
    e: SessionEntryView,
    new_state: SessionState,
    new_session: Option<MetadataView>,
    media: Option<MetadataView>,
    now: u64,
    st: u64,
)
    ensures
        ({
            let session = match new_session {
                Some(s) => s,
                None => e.session,
            };
            e.state == Some(SessionState::Playing) && new_state != SessionState::Playing
                && e.play_started == Some(st) ==> update_kbit_ns(e, new_state, new_session, media, now)
                == (if now >= st { now - st } else { 0 }) * (if session.media.len() > 0 {
                    session.media[0].bitrate as int
                } else {
                    0
                })
        }),
        (e.state != Some(SessionState::Playing) || new_state == SessionState::Playing)
            ==> update_kbit_ns(e, new_state, new_session, media, now) == 0,
{
}

} // verus!
