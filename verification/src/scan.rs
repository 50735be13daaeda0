//! The scan orchestrator, as a state machine driven from outside. One
//! `Scanner` is one scan invocation: it selects the candidate paths once,
//! then the driver repeatedly asks `next_step` what to do, hashes and
//! probes the file the scanner points at, hands the finished entry back
//! with `record`, and takes batches out with `take_flush` together with the
//! checkpoint that may be persisted only after that batch is durably
//! written. The ghost `committed` history ties every flushed entry to the
//! selected prefix, which is what makes resumption exact: a checkpoint
//! never points past committed data, and a restarted scan never re-emits a
//! committed path.

use vstd::prelude::*;

verus! {

use crate::batch::BatchWriter;
use crate::catalog::SongFile;
use crate::order::{path_le, path_lt, lemma_path_le_refl, lemma_path_le_lt_trans};
use crate::select::{FsEntry, select_candidates, selected_paths, paths_sorted, in_scope};

/// The durable traversal cursor for one base path. `last_scanned`, when
/// present, is the lexicographically greatest path among the files already
/// committed to the output artifact for this base path.
#[derive(Clone, Debug)]
pub struct ScanCheckpoint {
    pub base_path: String,
    pub last_scanned: Option<String>,
}

/// What the driver must do next.
#[derive(Clone, Copy, Debug, PartialEq, Eq, Structural)]
pub enum ScanStep {
    /// Hash and probe the file at `current_path`, then call `record`.
    Process,
    /// Call `take_flush`, write the batch out, then persist the checkpoint.
    Flush,
    /// The scan is complete: delete the checkpoint artifact.
    Finish,
}

/// The resume cursor a stored checkpoint carries, if any.
pub open spec fn resume_of(checkpoint: Option<ScanCheckpoint>) -> Option<Seq<char>> {
    match checkpoint {
        Option::Some(cp) => cp.last_scanned.deep_view(),
        Option::None => Option::None,
    }
}

/// One scan invocation over one base path.
pub struct Scanner {
    pub base_path: String,
    pub pending: Vec<String>,
    pub next: usize,
    pub batch: BatchWriter,
    pub last_scanned: Option<String>,
    pub resume: Ghost<Option<Seq<char>>>,
    pub committed: Ghost<Seq<Seq<char>>>,
}

impl Scanner {
    /// The paths this invocation set out to process, in order.
    pub open spec fn pending_view(&self) -> Seq<Seq<char>> {
        self.pending.deep_view()
    }

    /// Well-formedness: the processed prefix of the selected paths is split
    /// between the committed history and the in-memory batch, in order; the
    /// cursor names the last processed path.
    pub open spec fn wf(&self) -> bool {
        &&& self.batch.max_batch >= 1
        &&& self.next <= self.pending_view().len()
        &&& self.batch.entries@.len() <= self.next
        &&& self.batch.entries@.len() <= self.batch.max_batch
        &&& self.committed@.len() == self.next - self.batch.entries@.len()
        &&& paths_sorted(self.pending_view())
        &&& (forall|i: int|
            0 <= i < self.committed@.len() ==> self.committed@[i] == self.pending_view()[i])
        &&& (forall|i: int|
            0 <= i < self.batch.entries@.len() ==> (#[trigger] self.batch.entries@[i]).path@
                == self.pending_view()[self.committed@.len() + i])
        &&& (forall|i: int|
            0 <= i < self.batch.entries@.len() ==> (#[trigger] self.batch.entries@[i]).base_path@
                == self.base_path@)
        &&& (forall|i: int|
            0 <= i < self.pending_view().len() ==> in_scope(
                self.resume@,
                #[trigger] self.pending_view()[i],
            ))
        &&& (if self.next == 0 {
            self.last_scanned.deep_view() == self.resume@
        } else {
            self.last_scanned.deep_view() == Option::Some(self.pending_view()[self.next - 1])
        })
    }

    /// Starts one scan invocation: selects the candidates under the base
    /// path that lie strictly past the stored cursor, sorted; nothing is
    /// processed or committed yet.
    pub fn new(
        base_path: String,
        entries: &Vec<FsEntry>,
        checkpoint: Option<ScanCheckpoint>,
        now_millis: u64,
        max_batch: usize,
        flush_interval_millis: u64,
    ) -> (s: Scanner)
        requires
            max_batch >= 1,
        ensures
            s.wf(),
            s.base_path@ == base_path@,
            s.resume@ == resume_of(checkpoint),
            s.pending_view().to_multiset() == selected_paths(
                entries@,
                resume_of(checkpoint),
            ).to_multiset(),
            s.next == 0,
            s.batch.entries@.len() == 0,
            s.committed@ == Seq::<Seq<char>>::empty(),
            s.batch.last_flush_millis == now_millis,
            s.batch.max_batch == max_batch,
            s.batch.flush_interval_millis == flush_interval_millis,
    {
        let resume: Option<String> = match checkpoint {
            Option::Some(cp) => cp.last_scanned,
            Option::None => Option::None,
        };
        let pending = select_candidates(entries, &resume);
        Scanner {
            base_path,
            pending,
            next: 0,
            batch: BatchWriter::new(max_batch, flush_interval_millis, now_millis),
            last_scanned: resume,
            resume: Ghost(resume.deep_view()),
            committed: Ghost(Seq::empty()),
        }
    }

    /// Decides the next step, at the given time: a due, non-empty batch is
    /// flushed first; otherwise the next pending file is processed; after
    /// the last file whatever remains buffered is flushed once more; then
    /// the scan is finished.
    pub fn next_step(&self, now_millis: u64) -> (step: ScanStep)
        requires
            self.wf(),
            now_millis >= self.batch.last_flush_millis,
        ensures
            step == ScanStep::Flush <==> (self.batch.entries@.len() > 0 && (self.batch.flush_due(
                now_millis,
            ) || self.next == self.pending_view().len())),
            step == ScanStep::Process <==> (self.next < self.pending_view().len()
                && !(self.batch.entries@.len() > 0 && self.batch.flush_due(now_millis))),
            step == ScanStep::Finish <==> (self.next == self.pending_view().len()
                && self.batch.entries@.len() == 0),
    {
        if self.batch.len() > 0 && self.batch.should_flush(now_millis) {
            ScanStep::Flush
        } else if self.next < self.pending.len() {
            ScanStep::Process
        } else if self.batch.len() > 0 {
            ScanStep::Flush
        } else {
            ScanStep::Finish
        }
    }

    /// The path the scan points at: the next file to hash and probe.
    pub fn current_path(&self) -> (p: String)
        requires
            self.wf(),
            self.next < self.pending_view().len(),
        ensures
            p@ == self.pending_view()[self.next as int],
    {
        self.pending[self.next].clone()
    }

    /// Accepts the finished entry for the current path: the entry joins the
    /// batch and the cursor advances to its path.
    pub fn record(&mut self, entry: SongFile)
        requires
            old(self).wf(),
            old(self).next < old(self).pending_view().len(),
            old(self).batch.entries@.len() < old(self).batch.max_batch,
            entry.path@ == old(self).pending_view()[old(self).next as int],
            entry.base_path@ == old(self).base_path@,
        ensures
            final(self).wf(),
            final(self).next == old(self).next + 1,
            final(self).batch.entries@ == old(self).batch.entries@.push(entry),
            final(self).last_scanned.deep_view() == Option::Some(entry.path@),
            final(self).pending == old(self).pending,
            final(self).base_path == old(self).base_path,
            final(self).resume == old(self).resume,
            final(self).committed == old(self).committed,
            final(self).batch.last_flush_millis == old(self).batch.last_flush_millis,
            final(self).batch.max_batch == old(self).batch.max_batch,
            final(self).batch.flush_interval_millis == old(self).batch.flush_interval_millis,
    {
        let n = self.pending.len();
        assert(self.next < n);
        let p = self.pending[self.next].clone();
        self.last_scanned = Option::Some(p);
        self.batch.append(entry);
        self.next = self.next + 1;
    }

    /// Hands out the accumulated batch for writing, together with the
    /// checkpoint that may be saved once the batch is durably written: its
    /// cursor is the greatest path committed so far, so the checkpoint
    /// never points past committed data.
    pub fn take_flush(&mut self, now_millis: u64) -> (r: (Vec<SongFile>, ScanCheckpoint))
        requires
            old(self).wf(),
            old(self).batch.entries@.len() > 0,
        ensures
            final(self).wf(),
            r.0@ == old(self).batch.entries@,
            r.1.base_path@ == old(self).base_path@,
            r.1.last_scanned.deep_view() == old(self).last_scanned.deep_view(),
            r.1.last_scanned.deep_view() == Option::Some(
                old(self).pending_view()[old(self).next - 1],
            ),
            final(self).committed@ == old(self).committed@ + r.0@.map_values(
                |e: SongFile| e.path@,
            ),
            forall|i: int|
                0 <= i < final(self).committed@.len() ==> path_le(
                    #[trigger] final(self).committed@[i],
                    old(self).pending_view()[old(self).next - 1],
                ),
            final(self).batch.entries@.len() == 0,
            final(self).batch.last_flush_millis == now_millis,
            final(self).next == old(self).next,
            final(self).pending == old(self).pending,
            final(self).last_scanned == old(self).last_scanned,
            final(self).base_path == old(self).base_path,
            final(self).resume == old(self).resume,
            final(self).batch.max_batch == old(self).batch.max_batch,
            final(self).batch.flush_interval_millis == old(self).batch.flush_interval_millis,
    {
        let entries = self.batch.take(now_millis);
        let last_scanned: Option<String> = match &self.last_scanned {
            Option::Some(s) => Option::Some(s.clone()),
            Option::None => Option::None,
        };
        let cp = ScanCheckpoint { base_path: self.base_path.clone(), last_scanned };
        proof {
            self.committed@ = self.committed@ + entries@.map_values(|e: SongFile| e.path@);
        }
        proof {
            let pv = self.pending_view();
            let cursor = pv[self.next - 1];
            assert forall|i: int| 0 <= i < self.committed@.len() implies path_le(
                #[trigger] self.committed@[i],
                cursor,
            ) by {
                assert(self.committed@[i] == pv[i]);
                if i < self.next - 1 {
                    assert(path_le(pv[i], cursor));
                } else {
                    lemma_path_le_refl(cursor);
                }
            }
        }
        (entries, cp)
    }

    /// A finished scan committed exactly the paths it selected, in order:
    /// nothing was lost and nothing was flushed twice.
    pub proof fn lemma_finished_scan_committed_everything(&self)
        requires
            self.wf(),
            self.next == self.pending_view().len(),
            self.batch.entries@.len() == 0,
        ensures
            self.committed@ == self.pending_view(),
    {
        assert(self.committed@ =~= self.pending_view());
    }
}

/// After an interruption, a scan restarted from the interrupted scan's
/// last saved checkpoint resumes strictly after the last committed path
/// and never re-emits a committed entry: everything the interrupted scan
/// committed lies at or below its cursor, and everything the restarted
/// scan sets out to process lies strictly above it.
pub proof fn lemma_restart_never_reemits(prior: &Scanner, resumed: &Scanner)
    requires
        prior.wf(),
        resumed.wf(),
        prior.next > 0,
        resumed.resume@ == prior.last_scanned.deep_view(),
    ensures
        forall|i: int, j: int|
            0 <= i < prior.committed@.len() && 0 <= j < resumed.pending_view().len()
                ==> prior.committed@[i] != resumed.pending_view()[j],
{
    let cursor = prior.pending_view()[prior.next - 1];
    assert forall|i: int, j: int|
        0 <= i < prior.committed@.len() && 0 <= j
            < resumed.pending_view().len() implies prior.committed@[i]
        != resumed.pending_view()[j] by {
        assert(prior.committed@[i] == prior.pending_view()[i]);
        if i < prior.next - 1 {
            assert(path_le(prior.pending_view()[i], cursor));
        } else {
            lemma_path_le_refl(cursor);
        }
        assert(in_scope(resumed.resume@, resumed.pending_view()[j]));
        assert(path_lt(cursor, resumed.pending_view()[j]));
        lemma_path_le_lt_trans(prior.committed@[i], cursor, resumed.pending_view()[j]);
    }
}

} // verus!
