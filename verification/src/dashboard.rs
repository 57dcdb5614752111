//! The dashboard core: mode state machine plus the per-tick drain step.
//!
//! One value of [`Dashboard`] owns everything the render loop mutates: the
//! active mode, the expected dimension derived from it, the per-channel
//! history, the diagnostics log and the rate tracker.  The expected
//! dimension is the single piece of state shared with the ingestion
//! worker; the surrounding program publishes it to the worker after every
//! mode change and reads it back per line, tolerating the documented
//! transition window in which a line may be validated against either the
//! old or the new value.

use vstd::prelude::*;

use crate::channel::drain_channel;
use crate::diag_log::DIAG_CAP;
use crate::diag_log::DiagnosticsLog;
use crate::history::HISTORY_CAP;
use crate::history::HistoryStore;
use crate::ingest::Record;
use crate::mode::Mode;
use crate::rate::RateTracker;
use crate::ring::lemma_fill_from_snoc;
use crate::ring::spec_fill_from;
use crate::ring::spec_push_evict;

verus! {

/// All state of the telemetry core that the render loop mutates.
pub struct Dashboard {
    mode: Mode,
    expected_dim: usize,
    history: HistoryStore,
    diagnostics: DiagnosticsLog,
    rate: RateTracker,
}

/// Exactly when a drained record is taken: a mode is active, the record's
/// length matches the expected dimension, and neither the total-frame
/// counter nor the rate tally is saturated.
pub open spec fn spec_accepts(dim: nat, total: int, tally: int, rec: Record) -> bool {
    dim != 0 && rec.values@.len() == dim && total < u64::MAX && tally < u64::MAX
}

/// The value rows of the records a batch ingest accepts, in arrival order,
/// given the expected dimension and the counters at the start of the
/// batch; both counters advance by one per accepted record.
pub open spec fn spec_accepted_values(
    recs: Seq<Record>,
    dim: nat,
    total: int,
    tally: int,
) -> Seq<Seq<u64>>
    decreases recs.len(),
{
    if recs.len() == 0 {
        Seq::<Seq<u64>>::empty()
    } else if spec_accepts(dim, total, tally, recs.first()) {
        seq![recs.first().values@] + spec_accepted_values(
            recs.drop_first(),
            dim,
            total + 1,
            tally + 1,
        )
    } else {
        spec_accepted_values(recs.drop_first(), dim, total, tally)
    }
}

/// Column `ch` of a sequence of value rows: what a batch feeds into
/// channel `ch`.
pub open spec fn spec_column(rows: Seq<Seq<u64>>, ch: int) -> Seq<u64> {
    rows.map_values(|row: Seq<u64>| row[ch])
}

impl Dashboard {
    /// The active mode.
    pub closed spec fn spec_mode(self) -> Mode {
        self.mode
    }

    /// The channel count currently required of incoming lines.
    pub closed spec fn spec_expected_dim(self) -> usize {
        self.expected_dim
    }

    /// The per-channel sample history.
    pub closed spec fn spec_history(self) -> HistoryStore {
        self.history
    }

    /// The diagnostics log.
    pub closed spec fn spec_diagnostics(self) -> DiagnosticsLog {
        self.diagnostics
    }

    /// The rate tracker.
    pub closed spec fn spec_rate(self) -> RateTracker {
        self.rate
    }

    /// The expected dimension always equals the active mode's dimension,
    /// the history has one well-formed buffer per channel of that
    /// dimension, and the diagnostics log is within its capacity.
    pub open spec fn wf(self) -> bool {
        &&& self.spec_expected_dim() == self.spec_mode().spec_dimension()
        &&& self.spec_history().dim() == self.spec_expected_dim()
        &&& self.spec_history().wf()
        &&& self.spec_diagnostics().wf()
    }

    /// A fresh dashboard: no mode selected, dimension 0, empty history and
    /// diagnostics, rate window starting at `now_ms`.
    pub fn new(now_ms: u64) -> (r: Dashboard)
        ensures
            r.wf(),
            r.spec_mode() == Mode::Idle,
            r.spec_expected_dim() == 0,
            r.spec_history().spec_total() == 0,
            r.spec_diagnostics().spec_entries() == Seq::<Seq<char>>::empty(),
            r.spec_rate().spec_window_start_ms() == now_ms,
            r.spec_rate().spec_tally() == 0,
            r.spec_rate().spec_rate_frames() == 0,
            r.spec_rate().spec_rate_window_ms() == 0,
    {
        Dashboard {
            mode: Mode::Idle,
            expected_dim: 0,
            history: HistoryStore::new(0),
            diagnostics: DiagnosticsLog::new(),
            rate: RateTracker::new(now_ms),
        }
    }

    /// The mode transition.  The expected dimension becomes the new mode's
    /// dimension the moment this returns, and the history is reallocated:
    /// one fresh empty buffer per channel of the new dimension, with the
    /// total-frame counter restarted at 0 because channel identity changed.
    /// The returned bytes are the reconfiguration command for the output
    /// device, for deployments that have one.
    pub fn switch_mode(&mut self, m: Mode) -> (cmd: Vec<u8>)
        requires
            old(self).wf(),
        ensures
            final(self).wf(),
            final(self).spec_mode() == m,
            final(self).spec_expected_dim() == m.spec_dimension(),
            final(self).spec_history().dim() == m.spec_dimension(),
            final(self).spec_history().spec_total() == 0,
            forall|i: int| 0 <= i < m.spec_dimension()
                ==> #[trigger] final(self).spec_history().channel(i) == Seq::<u64>::empty(),
            final(self).spec_diagnostics() == old(self).spec_diagnostics(),
            final(self).spec_rate() == old(self).spec_rate(),
            cmd@ == m.spec_command(),
    {
        let dim = m.dimension();
        self.mode = m;
        self.expected_dim = dim;
        self.history = HistoryStore::new(dim);
        m.command_bytes()
    }

    /// Accepts one drained record into the history and the rate tally.
    /// The record is taken exactly when a mode is active, the record's
    /// length matches the expected dimension, and neither counter is
    /// saturated; otherwise the dashboard is left unchanged.
    pub fn accept_record(&mut self, rec: &Record) -> (accepted: bool)
        requires
            old(self).wf(),
        ensures
            final(self).wf(),
            final(self).spec_mode() == old(self).spec_mode(),
            final(self).spec_expected_dim() == old(self).spec_expected_dim(),
            final(self).spec_diagnostics() == old(self).spec_diagnostics(),
            accepted == spec_accepts(
                old(self).spec_expected_dim() as nat,
                old(self).spec_history().spec_total() as int,
                old(self).spec_rate().spec_tally() as int,
                *rec,
            ),
            accepted ==> {
                &&& final(self).spec_history().spec_total()
                    == old(self).spec_history().spec_total() + 1
                &&& forall|i: int| 0 <= i < old(self).spec_expected_dim()
                    ==> #[trigger] final(self).spec_history().channel(i) == spec_push_evict(
                        old(self).spec_history().channel(i),
                        rec.values@[i],
                        HISTORY_CAP as int,
                    )
                &&& final(self).spec_rate().spec_tally()
                    == old(self).spec_rate().spec_tally() + 1
                &&& final(self).spec_rate().spec_window_start_ms()
                    == old(self).spec_rate().spec_window_start_ms()
                &&& final(self).spec_rate().spec_rate_frames()
                    == old(self).spec_rate().spec_rate_frames()
                &&& final(self).spec_rate().spec_rate_window_ms()
                    == old(self).spec_rate().spec_rate_window_ms()
            },
            !accepted ==> final(self).spec_history() == old(self).spec_history()
                && final(self).spec_rate() == old(self).spec_rate(),
    {
        let dim = self.expected_dim;
        if dim != 0 && rec.values.len() == dim && self.history.total() < u64::MAX
            && self.rate.tally() < u64::MAX {
            self.history.append(&rec.values);
            self.rate.record_frame();
            true
        } else {
            false
        }
    }

    /// Accepts a batch of drained records, in arrival order.  A record is
    /// taken exactly as [`spec_accepts`] says of the state it meets, so the
    /// accepted rows are [`spec_accepted_values`] of the batch; `n` is
    /// their count, both counters rise by `n`, and every channel is fed its
    /// column of the accepted rows, oldest first.
    pub fn ingest_records(&mut self, recs: &Vec<Record>) -> (n: usize)
        requires
            old(self).wf(),
        ensures
            final(self).wf(),
            final(self).spec_mode() == old(self).spec_mode(),
            final(self).spec_expected_dim() == old(self).spec_expected_dim(),
            final(self).spec_diagnostics() == old(self).spec_diagnostics(),
            n <= recs@.len(),
            n == spec_accepted_values(
                recs@,
                old(self).spec_expected_dim() as nat,
                old(self).spec_history().spec_total() as int,
                old(self).spec_rate().spec_tally() as int,
            ).len(),
            forall|ch: int| 0 <= ch < old(self).spec_expected_dim()
                ==> #[trigger] final(self).spec_history().channel(ch) == spec_fill_from(
                    old(self).spec_history().channel(ch),
                    spec_column(
                        spec_accepted_values(
                            recs@,
                            old(self).spec_expected_dim() as nat,
                            old(self).spec_history().spec_total() as int,
                            old(self).spec_rate().spec_tally() as int,
                        ),
                        ch,
                    ),
                    HISTORY_CAP as int,
                ),
            final(self).spec_history().spec_total()
                == old(self).spec_history().spec_total() + n,
            final(self).spec_rate().spec_tally() == old(self).spec_rate().spec_tally() + n,
            final(self).spec_rate().spec_window_start_ms()
                == old(self).spec_rate().spec_window_start_ms(),
            final(self).spec_rate().spec_rate_frames()
                == old(self).spec_rate().spec_rate_frames(),
            final(self).spec_rate().spec_rate_window_ms()
                == old(self).spec_rate().spec_rate_window_ms(),
    {
        let ghost dim0 = old(self).spec_expected_dim() as nat;
        let ghost total0 = old(self).spec_history().spec_total() as int;
        let ghost tally0 = old(self).spec_rate().spec_tally() as int;
        let ghost rows_all = spec_accepted_values(recs@, dim0, total0, tally0);
        let mut n: usize = 0;
        let mut i: usize = 0;
        let len = recs.len();
        let ghost mut rows: Seq<Seq<u64>> = Seq::empty();
        proof {
            assert(recs@.skip(0) =~= recs@);
            assert(Seq::<Seq<u64>>::empty() + rows_all =~= rows_all);
            assert forall|ch: int| 0 <= ch < dim0 implies #[trigger] self.spec_history().channel(
                ch,
            ) == spec_fill_from(
                old(self).spec_history().channel(ch),
                spec_column(rows, ch),
                HISTORY_CAP as int,
            ) by {
                assert(spec_column(rows, ch) =~= Seq::<u64>::empty());
            };
        }
        while i < len
            invariant
                len == recs@.len(),
                i <= len,
                n <= i,
                n == rows.len(),
                self.wf(),
                self.spec_mode() == old(self).spec_mode(),
                self.spec_expected_dim() == old(self).spec_expected_dim(),
                self.spec_diagnostics() == old(self).spec_diagnostics(),
                dim0 == old(self).spec_expected_dim(),
                total0 == old(self).spec_history().spec_total(),
                tally0 == old(self).spec_rate().spec_tally(),
                rows_all == spec_accepted_values(recs@, dim0, total0, tally0),
                self.spec_history().spec_total() == total0 + n,
                self.spec_rate().spec_tally() == tally0 + n,
                self.spec_rate().spec_window_start_ms()
                    == old(self).spec_rate().spec_window_start_ms(),
                self.spec_rate().spec_rate_frames()
                    == old(self).spec_rate().spec_rate_frames(),
                self.spec_rate().spec_rate_window_ms()
                    == old(self).spec_rate().spec_rate_window_ms(),
                rows_all == rows + spec_accepted_values(
                    recs@.skip(i as int),
                    dim0,
                    total0 + n,
                    tally0 + n,
                ),
                forall|ch: int| 0 <= ch < dim0 ==> #[trigger] self.spec_history().channel(ch)
                    == spec_fill_from(
                        old(self).spec_history().channel(ch),
                        spec_column(rows, ch),
                        HISTORY_CAP as int,
                    ),
            decreases len - i,
        {
            let ghost prev = *self;
            let ghost prev_rows = rows;
            let ghost prev_n = n as int;
            proof {
                assert(recs@.skip(i as int).first() == recs@[i as int]);
                assert(recs@.skip(i as int).drop_first() =~= recs@.skip(i + 1));
            }
            let accepted = self.accept_record(&recs[i]);
            if accepted {
                n = n + 1;
                proof {
                    rows = prev_rows.push(recs@[i as int].values@);
                }
            }
            proof {
                let rec = recs@[i as int];
                let suffix = spec_accepted_values(recs@.skip(i + 1), dim0, total0 + n, tally0 + n);
                if accepted {
                    assert(spec_accepted_values(
                        recs@.skip(i as int),
                        dim0,
                        total0 + prev_n,
                        tally0 + prev_n,
                    ) == seq![rec.values@] + suffix);
                    assert(prev_rows + (seq![rec.values@] + suffix) =~= rows + suffix);
                    assert forall|ch: int| 0 <= ch < dim0 implies
                        #[trigger] self.spec_history().channel(ch) == spec_fill_from(
                            old(self).spec_history().channel(ch),
                            spec_column(rows, ch),
                            HISTORY_CAP as int,
                        ) by {
                        assert(spec_column(rows, ch) =~= spec_column(prev_rows, ch).push(
                            rec.values@[ch],
                        ));
                        lemma_fill_from_snoc(
                            old(self).spec_history().channel(ch),
                            spec_column(prev_rows, ch),
                            rec.values@[ch],
                            HISTORY_CAP as int,
                        );
                        assert(prev.spec_history().channel(ch) == spec_fill_from(
                            old(self).spec_history().channel(ch),
                            spec_column(prev_rows, ch),
                            HISTORY_CAP as int,
                        ));
                        assert(self.spec_history().channel(ch) == spec_push_evict(
                            prev.spec_history().channel(ch),
                            rec.values@[ch],
                            HISTORY_CAP as int,
                        ));
                    };
                } else {
                    assert(spec_accepted_values(
                        recs@.skip(i as int),
                        dim0,
                        total0 + prev_n,
                        tally0 + prev_n,
                    ) == suffix);
                }
            }
            i = i + 1;
        }
        proof {
            assert(recs@.skip(len as int) =~= Seq::<Record>::empty());
            assert(rows_all =~= rows + Seq::<Seq<u64>>::empty());
            assert(rows_all =~= rows);
        }
        n
    }

    /// Drains every record currently queued by the ingestion worker, in
    /// arrival order, into the history and the rate tally.  Returns how
    /// many were accepted.
    pub fn drain_records(&mut self, rx: &crossbeam_channel::Receiver<Record>) -> (n: usize)
        requires
            old(self).wf(),
        ensures
            final(self).wf(),
            final(self).spec_mode() == old(self).spec_mode(),
            final(self).spec_expected_dim() == old(self).spec_expected_dim(),
            final(self).spec_diagnostics() == old(self).spec_diagnostics(),
            final(self).spec_history().spec_total()
                == old(self).spec_history().spec_total() + n,
            final(self).spec_rate().spec_tally() == old(self).spec_rate().spec_tally() + n,
            final(self).spec_rate().spec_window_start_ms()
                == old(self).spec_rate().spec_window_start_ms(),
            final(self).spec_rate().spec_rate_frames()
                == old(self).spec_rate().spec_rate_frames(),
            final(self).spec_rate().spec_rate_window_ms()
                == old(self).spec_rate().spec_rate_window_ms(),
    {
        let recs = drain_channel(rx);
        self.ingest_records(&recs)
    }

    /// Appends a batch of drained diagnostic messages to the log, in
    /// arrival order, oldest evicted first on overflow.
    pub fn log_messages(&mut self, msgs: Vec<String>)
        requires
            old(self).wf(),
        ensures
            final(self).wf(),
            final(self).spec_mode() == old(self).spec_mode(),
            final(self).spec_expected_dim() == old(self).spec_expected_dim(),
            final(self).spec_history() == old(self).spec_history(),
            final(self).spec_rate() == old(self).spec_rate(),
            final(self).spec_diagnostics().spec_entries() == spec_fill_from(
                old(self).spec_diagnostics().spec_entries(),
                msgs.deep_view(),
                DIAG_CAP as int,
            ),
    {
        let ghost target = spec_fill_from(
            old(self).spec_diagnostics().spec_entries(),
            msgs.deep_view(),
            DIAG_CAP as int,
        );
        let mut msgs = msgs;
        while msgs.len() > 0
            invariant
                self.wf(),
                self.spec_mode() == old(self).spec_mode(),
                self.spec_expected_dim() == old(self).spec_expected_dim(),
                self.spec_history() == old(self).spec_history(),
                self.spec_rate() == old(self).spec_rate(),
                target == spec_fill_from(
                    self.spec_diagnostics().spec_entries(),
                    msgs.deep_view(),
                    DIAG_CAP as int,
                ),
            decreases msgs.len(),
        {
            let ghost pre_dv = msgs.deep_view();
            let m = msgs.remove(0);
            proof {
                assert(msgs.deep_view() =~= pre_dv.drop_first());
                assert(pre_dv.first() == m@);
            }
            self.diagnostics.push(m);
        }
    }

    /// Drains every diagnostic message currently queued by the ingestion
    /// worker, in arrival order, into the diagnostics log.
    pub fn drain_messages(&mut self, rx: &crossbeam_channel::Receiver<String>)
        requires
            old(self).wf(),
        ensures
            final(self).wf(),
            final(self).spec_mode() == old(self).spec_mode(),
            final(self).spec_expected_dim() == old(self).spec_expected_dim(),
            final(self).spec_history() == old(self).spec_history(),
            final(self).spec_rate() == old(self).spec_rate(),
    {
        let msgs = drain_channel(rx);
        self.log_messages(msgs);
    }

    /// One renderer tick at clock reading `now_ms`: updates the rate
    /// exactly when a full measurement window has elapsed, as
    /// [`RateTracker::tick`] states; everything else is untouched.
    pub fn tick(&mut self, now_ms: u64) -> (updated: bool)
        requires
            old(self).wf(),
        ensures
            final(self).wf(),
            final(self).spec_mode() == old(self).spec_mode(),
            final(self).spec_expected_dim() == old(self).spec_expected_dim(),
            final(self).spec_history() == old(self).spec_history(),
            final(self).spec_diagnostics() == old(self).spec_diagnostics(),
            updated == (now_ms >= old(self).spec_rate().spec_window_start_ms()
                && now_ms - old(self).spec_rate().spec_window_start_ms()
                    >= crate::rate::RATE_WINDOW_MS),
            updated ==> {
                &&& final(self).spec_rate().spec_rate_frames()
                    == old(self).spec_rate().spec_tally()
                &&& final(self).spec_rate().spec_rate_window_ms()
                    == now_ms - old(self).spec_rate().spec_window_start_ms()
                &&& final(self).spec_rate().spec_tally() == 0
                &&& final(self).spec_rate().spec_window_start_ms() == now_ms
            },
            !updated ==> final(self).spec_rate() == old(self).spec_rate(),
    {
        self.rate.tick(now_ms)
    }

    /// The active mode.
    pub fn mode(&self) -> (m: Mode)
        ensures
            m == self.spec_mode(),
    {
        self.mode
    }

    /// The channel count currently required of incoming lines; the
    /// surrounding program publishes this to the ingestion worker.
    pub fn expected_dimension(&self) -> (d: usize)
        ensures
            d == self.spec_expected_dim(),
    {
        self.expected_dim
    }

    /// Borrows the per-channel history.
    pub fn history(&self) -> (h: &HistoryStore)
        ensures
            h == self.spec_history(),
    {
        &self.history
    }

    /// Borrows the diagnostics log.
    pub fn diagnostics(&self) -> (d: &DiagnosticsLog)
        ensures
            d == self.spec_diagnostics(),
    {
        &self.diagnostics
    }

    /// Borrows the rate tracker.
    pub fn rate(&self) -> (r: &RateTracker)
        ensures
            r == self.spec_rate(),
    {
        &self.rate
    }
}

} // verus!
