//! The operation-progress store: one record per tracked download id, last
//! write wins, with the guard that a terminal record is never overwritten.
//! The store is an owned value — the serving layer wraps it in whatever
//! critical section it needs and passes it to every component that tracks or
//! polls downloads.
use vstd::prelude::*;
use vstd::string::*;

use crate::progress::{
    lemma_merge_wf, lemma_terminal_record_immutable, merge_event, spec_merge, PullEvent,
    PullEventView, PullProgress, PullProgressView,
};
use crate::text::{
    contains_seq, starts_with_seq, str_contains, str_eq, str_starts_with, trim_blank, trim_str,
};

verus! {

/// The freshly created record for a download that was just requested.
pub open spec fn spec_starting_record(model: Seq<char>) -> PullProgressView {
    PullProgressView {
        model,
        status: "Starting..."@,
        percent: 0,
        done: false,
        error: None,
        bytes_downloaded: 0,
        speed: Seq::<char>::empty(),
        last_update: 0,
    }
}

/// The synthesized terminal record for a request whose id was blank.
pub open spec fn spec_rejected_record(model: Seq<char>) -> PullProgressView {
    PullProgressView {
        model,
        status: "Error"@,
        percent: 0,
        done: true,
        error: Some("Model name cannot be empty"@),
        bytes_downloaded: 0,
        speed: Seq::<char>::empty(),
        last_update: 0,
    }
}

/// The synthesized terminal record written when the upstream connection
/// itself failed, so pollers are never left waiting forever.
pub open spec fn spec_transport_failure_record(model: Seq<char>, reason: Seq<char>) -> PullProgressView {
    PullProgressView {
        model,
        status: "Error"@,
        percent: 0,
        done: true,
        error: Some(reason),
        bytes_downloaded: 0,
        speed: Seq::<char>::empty(),
        last_update: 0,
    }
}

/// The synthesized record for an id that is already present in the installed
/// catalog but was never tracked.
pub open spec fn spec_complete_record(model: Seq<char>) -> PullProgressView {
    PullProgressView {
        model,
        status: "Complete"@,
        percent: 100,
        done: true,
        error: None,
        bytes_downloaded: 0,
        speed: Seq::<char>::empty(),
        last_update: 0,
    }
}

/// The synthesized record for an id with no record and no catalog match.
pub open spec fn spec_waiting_record(model: Seq<char>) -> PullProgressView {
    PullProgressView {
        model,
        status: "Waiting..."@,
        percent: 0,
        done: false,
        error: None,
        bytes_downloaded: 0,
        speed: Seq::<char>::empty(),
        last_update: 0,
    }
}

/// Builds the record of [`spec_starting_record`].
pub fn starting_record(model: &str) -> (r: PullProgress)
    ensures
        r@ == spec_starting_record(model@),
{
    let r = PullProgress {
        model: String::from_str(model),
        status: String::from_str("Starting..."),
        percent: 0,
        done: false,
        error: None,
        bytes_downloaded: 0,
        speed: String::new(),
        last_update: 0,
    };
    proof {
        assert(r@ =~= spec_starting_record(model@));
    }
    r
}

fn rejected_record(model: &str) -> (r: PullProgress)
    ensures
        r@ == spec_rejected_record(model@),
{
    let r = PullProgress {
        model: String::from_str(model),
        status: String::from_str("Error"),
        percent: 0,
        done: true,
        error: Some(String::from_str("Model name cannot be empty")),
        bytes_downloaded: 0,
        speed: String::new(),
        last_update: 0,
    };
    proof {
        assert(r@ =~= spec_rejected_record(model@));
    }
    r
}

fn transport_failure_record(model: &str, reason: &str) -> (r: PullProgress)
    ensures
        r@ == spec_transport_failure_record(model@, reason@),
{
    let r = PullProgress {
        model: String::from_str(model),
        status: String::from_str("Error"),
        percent: 0,
        done: true,
        error: Some(String::from_str(reason)),
        bytes_downloaded: 0,
        speed: String::new(),
        last_update: 0,
    };
    proof {
        assert(r@ =~= spec_transport_failure_record(model@, reason@));
    }
    r
}

fn complete_record(model: &str) -> (r: PullProgress)
    ensures
        r@ == spec_complete_record(model@),
{
    let r = PullProgress {
        model: String::from_str(model),
        status: String::from_str("Complete"),
        percent: 100,
        done: true,
        error: None,
        bytes_downloaded: 0,
        speed: String::new(),
        last_update: 0,
    };
    proof {
        assert(r@ =~= spec_complete_record(model@));
    }
    r
}

fn waiting_record(model: &str) -> (r: PullProgress)
    ensures
        r@ == spec_waiting_record(model@),
{
    let r = PullProgress {
        model: String::from_str(model),
        status: String::from_str("Waiting..."),
        percent: 0,
        done: false,
        error: None,
        bytes_downloaded: 0,
        speed: String::new(),
        last_update: 0,
    };
    proof {
        assert(r@ =~= spec_waiting_record(model@));
    }
    r
}

/// The progress store: at most one record per download id.
pub struct ProgressStore {
    records: Vec<PullProgress>,
}

impl View for ProgressStore {
    type V = Map<Seq<char>, PullProgressView>;

    closed spec fn view(&self) -> Map<Seq<char>, PullProgressView> {
        Map::new(
            |id: Seq<char>|
                exists|i: int|
                    0 <= i < self.records@.len() && (#[trigger] self.records@[i])@.model == id,
            |id: Seq<char>|
                self.records@[choose|i: int|
                    0 <= i < self.records@.len() && (#[trigger] self.records@[i])@.model == id]@,
        )
    }
}

impl ProgressStore {
    /// Internal invariant: ids are unique and every record is well-formed.
    pub closed spec fn wf(self) -> bool {
        &&& forall|i: int, j: int|
            0 <= i < j < self.records@.len() ==> (#[trigger] self.records@[i])@.model != (
            #[trigger] self.records@[j])@.model
        &&& forall|i: int| 0 <= i < self.records@.len() ==> (#[trigger] self.records@[i])@.wf()
    }

    proof fn lemma_view_at(&self, i: int)
        requires
            self.wf(),
            0 <= i < self.records@.len(),
        ensures
            self@.contains_key(self.records@[i]@.model),
            self@[self.records@[i]@.model] == self.records@[i]@,
    {
        let id = self.records@[i]@.model;
        assert(self@.dom().contains(id));
        let j = choose|j: int|
            0 <= j < self.records@.len() && (#[trigger] self.records@[j])@.model == id;
        assert(j == i);
    }

    /// Every record the store hands out is well-formed and keyed by its own
    /// model id.
    pub proof fn lemma_wf_records(&self)
        requires
            self.wf(),
        ensures
            forall|id: Seq<char>|
                self@.contains_key(id) ==> (#[trigger] self@[id]).wf() && self@[id].model == id,
    {
        assert forall|id: Seq<char>| self@.contains_key(id) implies (#[trigger] self@[id]).wf()
            && self@[id].model == id by {
            let i = choose|i: int|
                0 <= i < self.records@.len() && (#[trigger] self.records@[i])@.model == id;
            self.lemma_view_at(i);
        }
    }

    /// An empty store.
    pub fn new() -> (s: ProgressStore)
        ensures
            s.wf(),
            s@ == Map::<Seq<char>, PullProgressView>::empty(),
    {
        let s = ProgressStore { records: Vec::new() };
        proof {
            assert(s@ =~= Map::<Seq<char>, PullProgressView>::empty());
        }
        s
    }

    fn find(&self, id: &str) -> (r: Option<usize>)
        requires
            self.wf(),
        ensures
            match r {
                Some(i) => i < self.records@.len() && self.records@[i as int]@.model == id@,
                None => forall|i: int|
                    0 <= i < self.records@.len() ==> (#[trigger] self.records@[i])@.model != id@,
            },
    {
        let n = self.records.len();
        let mut i: usize = 0;
        while i < n
            invariant
                n == self.records@.len(),
                i <= n,
                forall|k: int| 0 <= k < i ==> (#[trigger] self.records@[k])@.model != id@,
            decreases n - i,
        {
            if str_eq(self.records[i].model.as_str(), id) {
                return Some(i);
            }
            i = i + 1;
        }
        None
    }

    /// Looks up the record for an id; absence is not an error (callers fall
    /// back to the installed catalog).
    pub fn get(&self, id: &str) -> (r: Option<&PullProgress>)
        requires
            self.wf(),
        ensures
            match r {
                Some(p) => self@.contains_key(id@) && p@ == self@[id@],
                None => !self@.contains_key(id@),
            },
    {
        match self.find(id) {
            Some(i) => {
                proof {
                    self.lemma_view_at(i as int);
                }
                Some(&self.records[i])
            },
            None => {
                proof {
                    if self@.contains_key(id@) {
                        let j = choose|j: int|
                            0 <= j < self.records@.len() && (#[trigger] self.records@[j])@.model
                                == id@;
                    }
                }
                None
            },
        }
    }

    /// Writes a record, keyed by its model id: last write wins.
    pub fn upsert(&mut self, rec: PullProgress)
        requires
            old(self).wf(),
            rec@.wf(),
        ensures
            final(self).wf(),
            final(self)@ == old(self)@.insert(rec@.model, rec@),
    {
        let ghost s0 = *self;
        let ghost m0 = self@;
        let ghost v = rec@;
        let slot = self.find(rec.model.as_str());
        match slot {
            Some(i) => {
                self.records[i] = rec;
                proof {
                    let r0 = s0.records@;
                    let r1 = self.records@;
                    assert(r1 == r0.update(i as int, r1[i as int]));
                    assert forall|a: int| 0 <= a < r1.len() implies (#[trigger] r1[a])@.model
                        == r0[a]@.model && r1[a]@.wf() by {
                        if a != i {
                            assert(r1[a] == r0[a]);
                        }
                    }
                    assert(self.wf());
                }
            },
            None => {
                self.records.push(rec);
                proof {
                    let r0 = s0.records@;
                    let r1 = self.records@;
                    assert forall|a: int| 0 <= a < r1.len() implies (#[trigger] r1[a])@.wf() by {
                        if a < r0.len() {
                            assert(r1[a] == r0[a]);
                        }
                    }
                    assert forall|a: int, b: int| 0 <= a < b < r1.len() implies (
                    #[trigger] r1[a])@.model != (#[trigger] r1[b])@.model by {
                        assert(r1[a] == r0[a]);
                        if b < r0.len() {
                            assert(r1[b] == r0[b]);
                        }
                    }
                    assert(self.wf());
                }
            },
        }
        proof {
            self.lemma_upsert_view(s0, slot, v);
        }
    }

    proof fn lemma_upsert_view(&self, s0: ProgressStore, slot: Option<usize>, v: PullProgressView)
        requires
            s0.wf(),
            self.wf(),
            match slot {
                Some(i) => i < s0.records@.len() && s0.records@[i as int]@.model == v.model
                    && self.records@ == s0.records@.update(i as int, self.records@[i as int]),
                None => (forall|k: int|
                    0 <= k < s0.records@.len() ==> (#[trigger] s0.records@[k])@.model != v.model)
                    && self.records@ == s0.records@.push(self.records@.last()),
            },
            self.records@.len() == s0.records@.len() + (if slot is Some {
                0int
            } else {
                1int
            }),
            ({
                let w = match slot {
                    Some(i) => self.records@[i as int],
                    None => self.records@.last(),
                };
                w@ == v
            }),
        ensures
            self@ == s0@.insert(v.model, v),
    {
        let r0 = s0.records@;
        let r1 = self.records@;
        let iw: int = match slot {
            Some(i) => i as int,
            None => r1.len() - 1,
        };
        assert(r1[iw]@ == v);
        assert forall|a: int| 0 <= a < r0.len() && a != iw implies r1[a] == r0[a] by {}
        let mgoal = s0@.insert(v.model, v);
        assert forall|id: Seq<char>| self@.contains_key(id) implies mgoal.contains_key(id)
            && self@[id] == mgoal[id] by {
            let k = choose|k: int|
                0 <= k < r1.len() && (#[trigger] r1[k])@.model == id;
            self.lemma_view_at(k);
            if id == v.model {
                assert(r1[iw]@.model == id);
                assert(k == iw);
                assert(self@[id] == v);
            } else {
                assert(k != iw);
                assert(r1[k] == r0[k]);
                s0.lemma_view_at(k);
                assert(mgoal[id] == s0@[id]);
            }
        }
        assert forall|id: Seq<char>| mgoal.contains_key(id) implies self@.contains_key(id) by {
            if id == v.model {
                self.lemma_view_at(iw);
            } else {
                let k = choose|k: int|
                    0 <= k < r0.len() && (#[trigger] r0[k])@.model == id;
                assert(k != iw);
                assert(r1[k] == r0[k]);
                assert(r1[k]@.model == id);
                self.lemma_view_at(k);
            }
        }
        assert(self@ =~= mgoal);
    }

    /// Registers a requested download. A blank id is rejected immediately
    /// with a synthesized terminal error record that is not stored; otherwise
    /// a fresh "Starting..." record is stored under the trimmed id and
    /// returned.
    pub fn start_model_pull(&mut self, model_name: &str) -> (r: PullProgress)
        requires
            old(self).wf(),
        ensures
            final(self).wf(),
            trim_blank(model_name@).len() == 0 ==> r@ == spec_rejected_record(model_name@)
                && final(self)@ == old(self)@,
            trim_blank(model_name@).len() > 0 ==> r@ == spec_starting_record(
                trim_blank(model_name@),
            ) && final(self)@ == old(self)@.insert(trim_blank(model_name@), r@),
    {
        let trimmed = trim_str(model_name);
        if trimmed.is_empty() {
            return rejected_record(model_name);
        }
        let rec = starting_record(trimmed);
        let r = rec.clone_record();
        self.upsert(rec);
        r
    }

    /// The record after a cancellation request: terminal, "Cancelled", with
    /// the fixed user-facing error message.
    pub open spec fn spec_cancelled(prev: PullProgressView) -> PullProgressView {
        PullProgressView {
            status: "Cancelled"@,
            done: true,
            error: Some("Download cancelled by user"@),
            ..prev
        }
    }

    /// Marks a tracked download cancelled. Returns whether a running record
    /// was marked: an absent record, or one already terminal, is left alone.
    /// Signalling the external download process is the caller's concern.
    pub fn cancel_model_pull(&mut self, model_name: &str) -> (r: bool)
        requires
            old(self).wf(),
        ensures
            final(self).wf(),
            ({
                let id = trim_blank(model_name@);
                if old(self)@.contains_key(id) && !old(self)@[id].done {
                    r && final(self)@ == old(self)@.insert(
                        id,
                        Self::spec_cancelled(old(self)@[id]),
                    )
                } else {
                    !r && final(self)@ == old(self)@
                }
            }),
    {
        let trimmed = trim_str(model_name);
        let cur = match self.get(trimmed) {
            Some(p) => {
                if p.done {
                    return false;
                }
                p.clone_record()
            },
            None => {
                return false;
            },
        };
        let marked = PullProgress {
            status: String::from_str("Cancelled"),
            done: true,
            error: Some(String::from_str("Download cancelled by user")),
            ..cur
        };
        proof {
            self.lemma_wf_records();
            assert(marked@ =~= Self::spec_cancelled(self@[trim_blank(model_name@)]));
        }
        self.upsert(marked);
        true
    }

    /// What polling yields: the stored record if there is one; otherwise a
    /// synthesized "Complete" record when the installed catalog matches the
    /// id, and a synthesized "Waiting..." record when it does not.
    pub open spec fn spec_poll(
        m: Map<Seq<char>, PullProgressView>,
        id_raw: Seq<char>,
        installed: Seq<Seq<char>>,
    ) -> PullProgressView {
        let id = trim_blank(id_raw);
        if m.contains_key(id) {
            m[id]
        } else if installed_matches(installed, id) {
            spec_complete_record(id)
        } else {
            spec_waiting_record(id)
        }
    }

    /// Polls the state of a download. `installed` is the upstream catalog,
    /// the fallback source of truth for downloads that finished before
    /// tracking began.
    pub fn check_pull_progress(&self, model_name: &str, installed: &Vec<String>) -> (r:
        PullProgress)
        requires
            self.wf(),
        ensures
            r@ == Self::spec_poll(self@, model_name@, installed.deep_view()),
    {
        let trimmed = trim_str(model_name);
        match self.get(trimmed) {
            Some(p) => p.clone_record(),
            None => {
                if model_installed(installed, trimmed) {
                    complete_record(trimmed)
                } else {
                    waiting_record(trimmed)
                }
            },
        }
    }

    /// The store after one upstream line is folded in: the line is merged
    /// against the stored record (or a fresh starting record when none is
    /// stored) and written back.
    pub open spec fn spec_apply_event(
        m: Map<Seq<char>, PullProgressView>,
        id: Seq<char>,
        ev: PullEventView,
        now: i64,
    ) -> Map<Seq<char>, PullProgressView> {
        let prev = if m.contains_key(id) {
            m[id]
        } else {
            spec_starting_record(id)
        };
        m.insert(id, spec_merge(prev, ev, now))
    }

    /// Folds one parsed upstream line into the record for `id`.
    pub fn apply_pull_event(&mut self, id: &str, ev: &PullEvent, now: i64)
        requires
            old(self).wf(),
        ensures
            final(self).wf(),
            final(self)@ == Self::spec_apply_event(old(self)@, id@, ev@, now),
    {
        let prev = match self.get(id) {
            Some(p) => p.clone_record(),
            None => starting_record(id),
        };
        proof {
            self.lemma_wf_records();
            lemma_merge_wf(prev@, ev@, now);
        }
        let merged = merge_event(&prev, ev, now);
        proof {
            assert(merged@.model == prev@.model);
        }
        self.upsert(merged);
    }

    /// Folds one raw line of the upstream pull stream into the record for
    /// `id`: a line that does not parse as a JSON object is skipped, any
    /// other is merged per the update rule.
    pub fn apply_pull_line(&mut self, id: &str, line: &str, now: i64)
        requires
            old(self).wf(),
        ensures
            final(self).wf(),
            final(self)@ == match crate::parse::pull_event_of(line@) {
                Some(ev) => Self::spec_apply_event(old(self)@, id@, ev, now),
                None => old(self)@,
            },
    {
        match crate::parse::parse_pull_line(line) {
            Some(ev) => self.apply_pull_event(id, &ev, now),
            None => {},
        }
    }

    /// Writes the synthesized terminal error record for a failed upstream
    /// connection, unless the stored record is already terminal.
    pub fn record_transport_failure(&mut self, id: &str, reason: &str)
        requires
            old(self).wf(),
        ensures
            final(self).wf(),
            if old(self)@.contains_key(id@) && old(self)@[id@].done {
                final(self)@ == old(self)@
            } else {
                final(self)@ == old(self)@.insert(
                    id@,
                    spec_transport_failure_record(id@, reason@),
                )
            },
    {
        match self.get(id) {
            Some(p) => {
                if p.done {
                    return ;
                }
            },
            None => {},
        }
        let rec = transport_failure_record(id, reason);
        self.upsert(rec);
    }
}

/// Whether the installed catalog matches an id: some installed name has the
/// id as a prefix or contains it.
pub open spec fn installed_matches(installed: Seq<Seq<char>>, id: Seq<char>) -> bool {
    exists|i: int|
        0 <= i < installed.len() && (starts_with_seq(#[trigger] installed[i], id) || contains_seq(
            installed[i],
            id,
        ))
}

/// Runtime catalog match, as in [`installed_matches`].
pub fn model_installed(installed: &Vec<String>, id: &str) -> (r: bool)
    ensures
        r == installed_matches(installed.deep_view(), id@),
{
    let n = installed.len();
    let mut i: usize = 0;
    while i < n
        invariant
            n == installed@.len(),
            i <= n,
            forall|k: int|
                0 <= k < i ==> !(starts_with_seq(
                    #[trigger] installed.deep_view()[k],
                    id@,
                ) || contains_seq(installed.deep_view()[k], id@)),
        decreases n - i,
    {
        proof {
            assert(installed.deep_view()[i as int] == installed@[i as int]@);
        }
        if str_starts_with(installed[i].as_str(), id) || str_contains(installed[i].as_str(), id) {
            return true;
        }
        i = i + 1;
    }
    false
}

/// The store after a whole sequence of parsed upstream lines is folded in
/// for one id, earliest line first.
pub open spec fn spec_apply_events(
    m: Map<Seq<char>, PullProgressView>,
    id: Seq<char>,
    evs: Seq<PullEventView>,
    now: i64,
) -> Map<Seq<char>, PullProgressView>
    decreases evs.len(),
{
    if evs.len() == 0 {
        m
    } else {
        spec_apply_events(
            ProgressStore::spec_apply_event(m, id, evs[0], now),
            id,
            evs.drop_first(),
            now,
        )
    }
}

/// Feeding a stream of lines through the store is exactly the merge fold on
/// the stored record: the store adds nothing to the update rule.
pub proof fn lemma_store_stream_is_fold(
    m: Map<Seq<char>, PullProgressView>,
    id: Seq<char>,
    evs: Seq<PullEventView>,
    now: i64,
)
    requires
        m.contains_key(id),
    ensures
        spec_apply_events(m, id, evs, now).contains_key(id),
        spec_apply_events(m, id, evs, now)[id] == crate::progress::fold_merge(m[id], evs, now),
    decreases evs.len(),
{
    if evs.len() > 0 {
        let m1 = ProgressStore::spec_apply_event(m, id, evs[0], now);
        assert(m1[id] == spec_merge(m[id], evs[0], now));
        lemma_store_stream_is_fold(m1, id, evs.drop_first(), now);
    }
}

/// Across any stream of upstream lines with consistent size data, the stored
/// percent for an id is monotonically non-decreasing from each stored update
/// to every later one.
pub proof fn lemma_stored_percent_monotone(
    m: Map<Seq<char>, PullProgressView>,
    id: Seq<char>,
    evs: Seq<PullEventView>,
    now: i64,
    i: int,
    j: int,
)
    requires
        m.contains_key(id),
        m[id].wf(),
        crate::progress::sizes_monotone(m[id], evs),
        0 <= i <= j <= evs.len(),
    ensures
        spec_apply_events(m, id, evs.take(i), now)[id].percent <= spec_apply_events(
            m,
            id,
            evs.take(j),
            now,
        )[id].percent,
{
    lemma_store_stream_is_fold(m, id, evs.take(i), now);
    lemma_store_stream_is_fold(m, id, evs.take(j), now);
    crate::progress::lemma_percent_monotone_stream(m[id], evs, now, i, j);
}

/// A late upstream line for a record that is already terminal (cancelled,
/// failed or complete) leaves the store unchanged: no resurrection.
pub proof fn lemma_late_line_ignored(
    m: Map<Seq<char>, PullProgressView>,
    id: Seq<char>,
    ev: PullEventView,
    now: i64,
)
    requires
        m.contains_key(id),
        m[id].done,
    ensures
        ProgressStore::spec_apply_event(m, id, ev, now) == m,
{
    lemma_terminal_record_immutable(m[id], ev, now);
    assert(ProgressStore::spec_apply_event(m, id, ev, now) =~= m);
}

} // verus!
