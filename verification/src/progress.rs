//! Progress records for long-running model downloads, and the merge rule that
//! folds one upstream pull-progress line into the stored record. The rule
//! carries the last known percent and rate label forward when a line has no
//! size data, forces a clean terminal state on success, and never touches a
//! record that is already terminal.
use vstd::prelude::*;
use vstd::string::*;

use crate::bytes::{format_bytes, spec_format_bytes};
use crate::text::str_eq;

verus! {

/// The latest known state of one tracked download. `percent` is a whole
/// percentage, 0 through 100. `done` marks a terminal record; `error` is set
/// only on failed or cancelled terminal records. `bytes_downloaded`,
/// `speed` and `last_update` are informational only.
pub struct PullProgress {
    pub model: String,
    pub status: String,
    pub percent: u64,
    pub done: bool,
    pub error: Option<String>,
    pub bytes_downloaded: u64,
    pub speed: String,
    pub last_update: i64,
}

/// The mathematical value of a [`PullProgress`].
#[verifier::ext_equal]
pub ghost struct PullProgressView {
    pub model: Seq<char>,
    pub status: Seq<char>,
    pub percent: u64,
    pub done: bool,
    pub error: Option<Seq<char>>,
    pub bytes_downloaded: u64,
    pub speed: Seq<char>,
    pub last_update: i64,
}

/// The value of an optional string.
pub open spec fn view_opt_string(o: Option<String>) -> Option<Seq<char>> {
    match o {
        Some(s) => Some(s@),
        None => None,
    }
}

impl View for PullProgress {
    type V = PullProgressView;

    open spec fn view(&self) -> PullProgressView {
        PullProgressView {
            model: self.model@,
            status: self.status@,
            percent: self.percent,
            done: self.done,
            error: view_opt_string(self.error),
            bytes_downloaded: self.bytes_downloaded,
            speed: self.speed@,
            last_update: self.last_update,
        }
    }
}

impl PullProgressView {
    /// Well-formedness: the percent is a percentage, and an error is only
    /// ever attached to a terminal record.
    pub open spec fn wf(self) -> bool {
        &&& self.percent <= 100
        &&& self.error is Some ==> self.done
    }
}

/// One parsed line of the upstream pull stream: a phase label, optional size
/// data, and an optional error message.
pub struct PullEvent {
    pub status: String,
    pub total: Option<u64>,
    pub completed: Option<u64>,
    pub error: Option<String>,
}

/// The mathematical value of a [`PullEvent`].
#[verifier::ext_equal]
pub ghost struct PullEventView {
    pub status: Seq<char>,
    pub total: Option<u64>,
    pub completed: Option<u64>,
    pub error: Option<Seq<char>>,
}

impl View for PullEvent {
    type V = PullEventView;

    open spec fn view(&self) -> PullEventView {
        PullEventView {
            status: self.status@,
            total: self.total,
            completed: self.completed,
            error: view_opt_string(self.error),
        }
    }
}

impl DeepView for PullEvent {
    type V = PullEventView;

    open spec fn deep_view(&self) -> PullEventView {
        self.view()
    }
}

/// An optional count, taken as zero when absent.
pub open spec fn or_zero(o: Option<u64>) -> u64 {
    match o {
        Some(n) => n,
        None => 0,
    }
}

impl PullEventView {
    /// Whether the line carries usable size data.
    pub open spec fn size_bearing(self) -> bool {
        or_zero(self.total) > 0
    }

    /// The percentage the line's size data stands for.
    pub open spec fn ratio(self) -> u64
        recommends
            self.size_bearing(),
    {
        ratio_percent(or_zero(self.completed), or_zero(self.total))
    }

    /// Whether the line ends the download: a success marker or an error.
    pub open spec fn terminal(self) -> bool {
        self.status == "success"@ || self.error is Some
    }
}

/// `completed / total` as a whole percentage, clamped to 100.
pub open spec fn ratio_percent(completed: u64, total: u64) -> u64
    recommends
        total > 0,
{
    let q = (completed * 100) / (total as int);
    if q > 100 {
        100u64
    } else {
        q as u64
    }
}

/// Runtime counterpart of [`ratio_percent`].
pub fn ratio_percent_exec(completed: u64, total: u64) -> (p: u64)
    requires
        total > 0,
    ensures
        p == ratio_percent(completed, total),
{
    let q = ((completed as u128) * 100) / (total as u128);
    if q >= 100 {
        100
    } else {
        q as u64
    }
}

/// The merge rule for one upstream line against the stored record. A
/// terminal record is never changed. A line with size data sets the percent
/// from it; any other line carries the previous percent forward. The rate
/// label is recomputed when both sizes are present and nonzero, otherwise
/// carried forward. A success or error line makes the record terminal, and a
/// clean success forces percent 100 and status "Complete".
pub open spec fn spec_merge(prev: PullProgressView, ev: PullEventView, now: i64) -> PullProgressView {
    if prev.done {
        prev
    } else {
        let total = or_zero(ev.total);
        let completed = or_zero(ev.completed);
        let percent = if total > 0 {
            ratio_percent(completed, total)
        } else {
            prev.percent
        };
        let speed = if total > 0 && completed > 0 {
            spec_format_bytes(completed) + " / "@ + spec_format_bytes(total)
        } else if prev.speed.len() > 0 {
            prev.speed
        } else {
            Seq::<char>::empty()
        };
        let clean_success = ev.terminal() && ev.error is None;
        PullProgressView {
            model: prev.model,
            status: if clean_success {
                "Complete"@
            } else {
                ev.status
            },
            percent: if clean_success {
                100u64
            } else {
                percent
            },
            done: ev.terminal(),
            error: ev.error,
            bytes_downloaded: completed,
            speed,
            last_update: now,
        }
    }
}

/// Merging preserves well-formedness of the stored record.
pub proof fn lemma_merge_wf(prev: PullProgressView, ev: PullEventView, now: i64)
    requires
        prev.wf(),
    ensures
        spec_merge(prev, ev, now).wf(),
{
}

/// A terminal record is never changed by a later upstream line: no
/// resurrection after success, error or cancellation.
pub proof fn lemma_terminal_record_immutable(prev: PullProgressView, ev: PullEventView, now: i64)
    requires
        prev.done,
    ensures
        spec_merge(prev, ev, now) == prev,
{
}

/// A line without size data never resets the percent to 0: the previous value
/// is carried forward exactly, except that a clean success forces 100.
pub proof fn lemma_no_size_keeps_percent(prev: PullProgressView, ev: PullEventView, now: i64)
    requires
        !ev.size_bearing(),
    ensures
        spec_merge(prev, ev, now).percent == if !prev.done && ev.terminal() && ev.error is None {
            100u64
        } else {
            prev.percent
        },
        prev.percent > 0 ==> spec_merge(prev, ev, now).percent > 0,
{
}

/// One merge step never lowers the percent, as long as the line's own size
/// data (if any) reports at least the stored percent.
pub proof fn lemma_merge_percent_monotone(prev: PullProgressView, ev: PullEventView, now: i64)
    requires
        prev.wf(),
        ev.size_bearing() ==> ev.ratio() >= prev.percent,
    ensures
        spec_merge(prev, ev, now).percent >= prev.percent,
{
}

/// The record after folding a whole sequence of upstream lines into `init`,
/// earliest line first.
pub open spec fn fold_merge(init: PullProgressView, evs: Seq<PullEventView>, now: i64) -> PullProgressView
    decreases evs.len(),
{
    if evs.len() == 0 {
        init
    } else {
        fold_merge(spec_merge(init, evs[0], now), evs.drop_first(), now)
    }
}

proof fn lemma_fold_snoc(init: PullProgressView, evs: Seq<PullEventView>, now: i64)
    requires
        evs.len() > 0,
    ensures
        fold_merge(init, evs, now) == spec_merge(
            fold_merge(init, evs.drop_last(), now),
            evs.last(),
            now,
        ),
    decreases evs.len(),
{
    if evs.len() == 1 {
        assert(evs.drop_last() =~= Seq::<PullEventView>::empty());
        assert(evs.drop_first() =~= Seq::<PullEventView>::empty());
    } else {
        let m = spec_merge(init, evs[0], now);
        lemma_fold_snoc(m, evs.drop_first(), now);
        assert(evs.drop_first().drop_last() =~= evs.drop_last().drop_first());
        assert(evs.drop_first().last() == evs.last());
        assert(evs.drop_last()[0] == evs[0]);
    }
}

/// Consistent upstream size data: every size-bearing line reports at least
/// the starting percent, and later size-bearing lines report at least as much
/// as earlier ones.
pub open spec fn sizes_monotone(init: PullProgressView, evs: Seq<PullEventView>) -> bool {
    &&& forall|k: int|
        0 <= k < evs.len() && (#[trigger] evs[k]).size_bearing() ==> evs[k].ratio()
            >= init.percent
    &&& forall|k: int, l: int|
        0 <= k < l < evs.len() && (#[trigger] evs[k]).size_bearing() && (
        #[trigger] evs[l]).size_bearing() ==> evs[k].ratio() <= evs[l].ratio()
}

proof fn lemma_fold_percent_origin(init: PullProgressView, evs: Seq<PullEventView>, now: i64)
    requires
        init.wf(),
    ensures
        fold_merge(init, evs, now).wf(),
        fold_merge(init, evs, now).done || fold_merge(init, evs, now).percent == init.percent
            || exists|k: int|
            0 <= k < evs.len() && (#[trigger] evs[k]).size_bearing() && evs[k].ratio()
                == fold_merge(init, evs, now).percent,
    decreases evs.len(),
{
    if evs.len() > 0 {
        let pre = fold_merge(init, evs.drop_last(), now);
        lemma_fold_percent_origin(init, evs.drop_last(), now);
        lemma_fold_snoc(init, evs, now);
        let e = evs.last();
        if !pre.done {
            if e.size_bearing() && !(e.terminal() && e.error is None) {
                assert(evs[evs.len() - 1].size_bearing() && evs[evs.len() - 1].ratio()
                    == fold_merge(init, evs, now).percent);
            } else if !e.size_bearing() && !(e.terminal() && e.error is None) {
                assert(forall|k: int|
                    0 <= k < evs.drop_last().len() ==> evs.drop_last()[k] == #[trigger] evs[k]);
            }
        } else {
            assert(forall|k: int|
                0 <= k < evs.drop_last().len() ==> evs.drop_last()[k] == #[trigger] evs[k]);
        }
    }
}

/// Across any sequence of upstream lines with consistent size data, the stored
/// percent is monotonically non-decreasing from each stored update to every
/// later one.
pub proof fn lemma_percent_monotone_stream(
    init: PullProgressView,
    evs: Seq<PullEventView>,
    now: i64,
    i: int,
    j: int,
)
    requires
        init.wf(),
        sizes_monotone(init, evs),
        0 <= i <= j <= evs.len(),
    ensures
        fold_merge(init, evs.take(i), now).percent <= fold_merge(init, evs.take(j), now).percent,
    decreases j - i,
{
    if i < j {
        lemma_percent_monotone_stream(init, evs, now, i, j - 1);
        let pre = fold_merge(init, evs.take(j - 1), now);
        lemma_fold_snoc(init, evs.take(j), now);
        assert(evs.take(j).drop_last() =~= evs.take(j - 1));
        assert(evs.take(j).last() == evs[j - 1]);
        lemma_fold_percent_origin(init, evs.take(j - 1), now);
        if pre.done {
            lemma_terminal_record_immutable(pre, evs[j - 1], now);
        } else {
            if evs[j - 1].size_bearing() {
                if pre.percent != init.percent {
                    let k = choose|k: int|
                        0 <= k < evs.take(j - 1).len() && (#[trigger] evs.take(
                            j - 1,
                        )[k]).size_bearing() && evs.take(j - 1)[k].ratio() == pre.percent;
                    assert(evs[k].size_bearing() && evs[k].ratio() == pre.percent);
                }
            }
            lemma_merge_percent_monotone(pre, evs[j - 1], now);
        }
    }
}

fn clone_opt_string(o: &Option<String>) -> (r: Option<String>)
    ensures
        view_opt_string(r) == view_opt_string(*o),
{
    match o {
        Some(s) => Some(s.clone()),
        None => None,
    }
}

impl PullProgress {
    /// A field-for-field copy of the record.
    pub fn clone_record(&self) -> (r: PullProgress)
        ensures
            r@ == self@,
    {
        let r = PullProgress {
            model: self.model.clone(),
            status: self.status.clone(),
            percent: self.percent,
            done: self.done,
            error: clone_opt_string(&self.error),
            bytes_downloaded: self.bytes_downloaded,
            speed: self.speed.clone(),
            last_update: self.last_update,
        };
        proof {
            assert(r@ =~= self@);
        }
        r
    }
}

/// Folds one parsed upstream line into the stored record, per [`spec_merge`].
pub fn merge_event(prev: &PullProgress, ev: &PullEvent, now: i64) -> (r: PullProgress)
    ensures
        r@ == spec_merge(prev@, ev@, now),
{
    if prev.done {
        return prev.clone_record();
    }
    let total = match ev.total {
        Some(t) => t,
        None => 0,
    };
    let completed = match ev.completed {
        Some(c) => c,
        None => 0,
    };
    let percent = if total > 0 {
        ratio_percent_exec(completed, total)
    } else {
        prev.percent
    };
    let speed = if total > 0 && completed > 0 {
        let mut sp = format_bytes(completed);
        sp.append(" / ");
        let total_s = format_bytes(total);
        sp.append(total_s.as_str());
        sp
    } else if !prev.speed.as_str().is_empty() {
        prev.speed.clone()
    } else {
        String::new()
    };
    let error = clone_opt_string(&ev.error);
    let terminal = str_eq(ev.status.as_str(), "success") || error.is_some();
    let clean_success = terminal && error.is_none();
    let r = PullProgress {
        model: prev.model.clone(),
        status: if clean_success {
            String::from_str("Complete")
        } else {
            ev.status.clone()
        },
        percent: if clean_success {
            100
        } else {
            percent
        },
        done: terminal,
        error,
        bytes_downloaded: completed,
        speed,
        last_update: now,
    };
    proof {
        assert(r@ =~= spec_merge(prev@, ev@, now));
    }
    r
}

} // verus!
