//! Planning logic of the resumable, concurrency-bounded transfer engine.
//! The byte-moving edges (local filesystem, SFTP) are driven by the caller;
//! this module decides everything they must obey: when an existing
//! destination file means the copy is already complete, where a resumed
//! copy starts and how many bytes it still owes, how progress is reported,
//! how many items may be mid-transfer at once, and how one item's failure
//! is kept away from its siblings.

use vstd::prelude::*;

verus! {

/// Most items allowed to be actively copying at once.
pub const MAX_CONCURRENT: usize = 2;

/// Bytes copied between two progress reports.
pub const CHUNK_SIZE: usize = 64 * 1024;

/// Where an item stands while its bytes move.
#[derive(Debug, Clone, Copy, PartialEq, Eq, Structural)]
pub enum TransferStatus {
    Transferring,
    Completed,
    Failed,
}

/// One progress report for one item. Progress is held in per-mille.
#[derive(Debug, Clone)]
pub struct TransferProgress {
    pub job_id: i64,
    pub progress: i64,
    pub bytes_transferred: u64,
    pub total_bytes: u64,
    pub status: TransferStatus,
    pub error: Option<String>,
}

/// Progress of a transfer in per-mille (thousandths), clamped to 1000; an
/// empty file counts as complete.
pub open spec fn spec_progress_milli(transferred: u64, total: u64) -> int {
    if total == 0 {
        1000
    } else if 1000 * (transferred as int) / (total as int) > 1000 {
        1000
    } else {
        1000 * (transferred as int) / (total as int)
    }
}

pub fn progress_milli(transferred: u64, total: u64) -> (r: u64)
    ensures
        r == spec_progress_milli(transferred, total),
        r <= 1000,
{
    if total == 0 {
        1000
    } else {
        let scaled = (transferred as u128 * 1000) / (total as u128);
        if scaled > 1000 {
            1000
        } else {
            scaled as u64
        }
    }
}

/// A fuller copy never reports lower progress.
pub proof fn lemma_progress_monotone(t1: u64, t2: u64, total: u64)
    requires
        t1 <= t2,
    ensures
        spec_progress_milli(t1, total) <= spec_progress_milli(t2, total),
{
    if total > 0 {
        vstd::arithmetic::div_mod::lemma_div_is_ordered(
            1000 * (t1 as int),
            1000 * (t2 as int),
            total as int,
        );
    }
}

/// A complete copy reports exactly full progress.
pub proof fn lemma_progress_complete(total: u64)
    ensures
        spec_progress_milli(total, total) == 1000,
{
    if total > 0 {
        assert(1000 * (total as int) / (total as int) == 1000) by (nonlinear_arith)
            requires
                total > 0,
        ;
    }
}

/// What the local backend does with an existing destination file.
#[derive(Debug, Clone, Copy, PartialEq, Eq, Structural)]
pub enum ResumePlan {
    /// The destination already holds every byte: finish without reading
    /// the source.
    AlreadyComplete,
    /// The destination holds a prefix: seek the source to `offset` and
    /// append.
    Append { offset: u64 },
    /// Nothing usable exists: create the destination and copy from the
    /// start.
    Create,
}

/// The resume rule: a destination at least as large as a non-empty source
/// is already complete; a non-empty smaller one is appended to from its
/// own size; anything else starts fresh.
pub open spec fn spec_resume_plan(existing: u64, total: u64) -> ResumePlan {
    if existing >= total && total > 0 {
        ResumePlan::AlreadyComplete
    } else if existing > 0 {
        ResumePlan::Append { offset: existing }
    } else {
        ResumePlan::Create
    }
}

/// Bytes the backend still owes the destination.
pub open spec fn spec_remaining(existing: u64, total: u64) -> int {
    if existing >= total {
        0
    } else {
        total - existing
    }
}

/// Decide how the local backend treats an existing destination file of
/// `existing_size` bytes against a source of `total_size` bytes, and how
/// many bytes it will move.
pub fn resume_decision(existing_size: u64, total_size: u64) -> (r: (ResumePlan, u64))
    ensures
        r.0 == spec_resume_plan(existing_size, total_size),
        r.1 == spec_remaining(existing_size, total_size),
        r.0 == ResumePlan::AlreadyComplete ==> r.1 == 0,
        r.0 == (ResumePlan::Append { offset: existing_size }) ==> existing_size + r.1
            == total_size || total_size == 0,
        r.0 == ResumePlan::Create ==> r.1 == total_size || (total_size == 0 && r.1 == 0),
{
    let remaining = if existing_size >= total_size {
        0
    } else {
        total_size - existing_size
    };
    if existing_size >= total_size && total_size > 0 {
        (ResumePlan::AlreadyComplete, remaining)
    } else if existing_size > 0 {
        (ResumePlan::Append { offset: existing_size }, remaining)
    } else {
        (ResumePlan::Create, remaining)
    }
}

/// Re-running a finished transfer does nothing: when the destination's
/// size already equals the source's, the plan is complete on the spot,
/// zero bytes are owed, and progress reports full immediately.
pub proof fn lemma_rerun_is_idempotent(total: u64)
    requires
        total > 0,
    ensures
        spec_resume_plan(total, total) == ResumePlan::AlreadyComplete,
        spec_remaining(total, total) == 0,
        spec_progress_milli(total, total) == 1000,
{
    lemma_progress_complete(total);
}

/// A resumed transfer writes exactly what is missing: a destination of
/// `existing` bytes against a larger source owes `total - existing`
/// further bytes, and ends with the destination holding `total` bytes.
pub proof fn lemma_resume_writes_missing_bytes(existing: u64, total: u64)
    requires
        existing < total,
    ensures
        spec_resume_plan(existing, total) == if existing > 0 {
            ResumePlan::Append { offset: existing }
        } else {
            ResumePlan::Create
        },
        spec_remaining(existing, total) == total - existing,
        existing + spec_remaining(existing, total) == total,
        spec_progress_milli((existing + spec_remaining(existing, total)) as u64, total) == 1000,
{
    lemma_progress_complete(total);
}

/// The state of one copy in flight: bytes landed so far against the
/// total. Chunks only ever add bytes, so progress never goes backwards.
#[derive(Debug, Clone, Copy, PartialEq, Eq, Structural)]
pub struct TransferState {
    pub transferred: u64,
    pub total: u64,
}

impl TransferState {
    pub open spec fn wf(self) -> bool {
        self.transferred <= self.total
    }

    /// Start a copy at `offset` (0 for a fresh copy, the existing size
    /// for a resumed one).
    pub fn begin(offset: u64, total: u64) -> (r: Self)
        requires
            offset <= total,
        ensures
            r == (TransferState { transferred: offset, total }),
            r.wf(),
    {
        TransferState { transferred: offset, total }
    }

    /// Record one chunk of `n` bytes landed at the destination.
    pub fn record_chunk(&mut self, n: u64)
        requires
            old(self).wf(),
            n <= old(self).total - old(self).transferred,
        ensures
            final(self).transferred == old(self).transferred + n,
            final(self).total == old(self).total,
            final(self).wf(),
            spec_progress_milli(final(self).transferred, final(self).total)
                >= spec_progress_milli(old(self).transferred, old(self).total),
    {
        proof {
            lemma_progress_monotone(self.transferred, (self.transferred + n) as u64, self.total);
        }
        self.transferred = self.transferred + n;
    }

    /// Current progress in per-mille.
    pub fn progress(&self) -> (r: u64)
        ensures
            r == spec_progress_milli(self.transferred, self.total),
            r <= 1000,
    {
        progress_milli(self.transferred, self.total)
    }

    /// Whether every byte has landed.
    pub fn is_done(&self) -> (r: bool)
        ensures
            r == (self.transferred >= self.total),
            r && self.wf() ==> spec_progress_milli(self.transferred, self.total) == 1000,
    {
        proof {
            if self.transferred >= self.total && self.transferred <= self.total {
                lemma_progress_complete(self.total);
            }
        }
        self.transferred >= self.total
    }
}

/// Where one queued item of a batch stands.
#[derive(Debug, Clone, Copy, PartialEq, Eq, Structural)]
pub enum ItemState {
    Queued,
    Transferring,
    Completed,
    Failed,
}

/// How many items of a batch are mid-transfer.
pub open spec fn spec_active_count(s: Seq<ItemState>) -> int
    decreases s.len(),
{
    if s.len() == 0 {
        0
    } else {
        spec_active_count(s.drop_last()) + if s.last() == ItemState::Transferring {
            1int
        } else {
            0int
        }
    }
}

/// Replacing a non-transferring slot with a non-transferring value keeps
/// the active count; moving one slot in or out of `Transferring` moves it
/// by exactly one.
pub proof fn lemma_active_count_update(s: Seq<ItemState>, i: int, v: ItemState)
    requires
        0 <= i < s.len(),
    ensures
        spec_active_count(s.update(i, v)) == spec_active_count(s) + (if v
            == ItemState::Transferring {
            1int
        } else {
            0int
        }) - (if s[i] == ItemState::Transferring {
            1int
        } else {
            0int
        }),
    decreases s.len(),
{
    if s.len() > 0 {
        if i == s.len() - 1 {
            assert(s.update(i, v).drop_last() =~= s.drop_last());
        } else {
            assert(s.update(i, v).drop_last() =~= s.drop_last().update(i, v));
            lemma_active_count_update(s.drop_last(), i, v);
        }
    }
}

proof fn lemma_active_count_nonneg(s: Seq<ItemState>)
    ensures
        0 <= spec_active_count(s),
    decreases s.len(),
{
    if s.len() > 0 {
        lemma_active_count_nonneg(s.drop_last());
    }
}

/// The transfer scheduler's bookkeeping: one state per queued item and
/// the concurrency bound. Well-formedness says the bound is respected:
/// at no instant are more than `limit` items in `Transferring` state.
pub struct Scheduler {
    pub states: Vec<ItemState>,
    pub limit: usize,
}

impl Scheduler {
    pub open spec fn wf(self) -> bool {
        spec_active_count(self.states@) <= self.limit
    }

    /// A fresh batch of `n` queued items under the concurrency bound
    /// `limit`.
    pub fn new_batch(n: usize, limit: usize) -> (r: Self)
        ensures
            r.states@.len() == n,
            forall|j: int| 0 <= j < n ==> r.states@[j] == ItemState::Queued,
            r.limit == limit,
            r.wf(),
            spec_active_count(r.states@) == 0,
    {
        let mut states: Vec<ItemState> = Vec::new();
        let mut i: usize = 0;
        proof {
            assert(spec_active_count(states@) == 0);
        }
        while i < n
            invariant
                i <= n,
                states@.len() == i,
                forall|j: int| 0 <= j < i ==> states@[j] == ItemState::Queued,
                spec_active_count(states@) == 0,
            decreases n - i,
        {
            let ghost old_states = states@;
            states.push(ItemState::Queued);
            proof {
                assert(states@.drop_last() =~= old_states);
            }
            i += 1;
        }
        Scheduler { states, limit }
    }

    /// Whether another item may start copying without breaking the bound.
    pub fn can_start(&self) -> (r: bool)
        requires
            self.wf(),
        ensures
            r == (spec_active_count(self.states@) < self.limit),
    {
        let mut active: usize = 0;
        let mut i: usize = 0;
        proof {
            assert(self.states@.take(0) =~= Seq::<ItemState>::empty());
        }
        while i < self.states.len()
            invariant
                i <= self.states@.len(),
                active == spec_active_count(self.states@.take(i as int)),
                active <= i,
            decreases self.states@.len() - i,
        {
            proof {
                assert(self.states@.take(i + 1 as int).drop_last() =~= self.states@.take(i as int));
                assert(self.states@.take(i + 1 as int).last() == self.states@[i as int]);
            }
            if self.states[i] == ItemState::Transferring {
                active += 1;
            }
            i += 1;
        }
        proof {
            assert(self.states@.take(self.states@.len() as int) =~= self.states@);
        }
        active < self.limit
    }

    /// Move one queued item into `Transferring`. Demanding a free slot
    /// keeps the concurrency bound an invariant of every reachable state.
    pub fn start_item(&mut self, i: usize)
        requires
            old(self).wf(),
            i < old(self).states@.len(),
            old(self).states@[i as int] == ItemState::Queued,
            spec_active_count(old(self).states@) < old(self).limit,
        ensures
            final(self).states@ == old(self).states@.update(i as int, ItemState::Transferring),
            final(self).limit == old(self).limit,
            final(self).wf(),
            spec_active_count(final(self).states@) == spec_active_count(old(self).states@) + 1,
            forall|j: int|
                0 <= j < old(self).states@.len() && j != i ==> final(self).states@[j] == old(
                    self,
                ).states@[j],
    {
        proof {
            lemma_active_count_update(self.states@, i as int, ItemState::Transferring);
        }
        self.states.set(i, ItemState::Transferring);
    }

    /// Move one copying item to its terminal state. Every other item's
    /// state is untouched: one failing item never alters the terminal
    /// status of any other item in the batch.
    pub fn finish_item(&mut self, i: usize, ok: bool)
        requires
            old(self).wf(),
            i < old(self).states@.len(),
            old(self).states@[i as int] == ItemState::Transferring,
        ensures
            final(self).states@ == old(self).states@.update(
                i as int,
                if ok {
                    ItemState::Completed
                } else {
                    ItemState::Failed
                },
            ),
            final(self).limit == old(self).limit,
            final(self).wf(),
            spec_active_count(final(self).states@) == spec_active_count(old(self).states@) - 1,
            forall|j: int|
                0 <= j < old(self).states@.len() && j != i ==> final(self).states@[j] == old(
                    self,
                ).states@[j],
    {
        let v = if ok {
            ItemState::Completed
        } else {
            ItemState::Failed
        };
        proof {
            lemma_active_count_update(self.states@, i as int, v);
            lemma_active_count_nonneg(self.states@);
        }
        self.states.set(i, v);
    }
}

/// One item's failure is isolated: marking item `i` as failed leaves the
/// state of every other item in the batch exactly as it was.
pub proof fn lemma_failure_isolated(s: Seq<ItemState>, i: int)
    requires
        0 <= i < s.len(),
    ensures
        forall|j: int| 0 <= j < s.len() && j != i ==> s.update(i, ItemState::Failed)[j] == s[j],
        s.update(i, ItemState::Failed).len() == s.len(),
{
}

/// Backslashes turned into forward slashes for remote paths.
pub open spec fn spec_slashify(s: Seq<char>) -> Seq<char> {
    s.map_values(
        |c: char|
            if c == '\\' {
                '/'
            } else {
                c
            },
    )
}

fn slashify(v: &Vec<char>) -> (r: Vec<char>)
    ensures
        r@ == spec_slashify(v@),
{
    let mut out: Vec<char> = Vec::new();
    let mut i: usize = 0;
    while i < v.len()
        invariant
            i <= v@.len(),
            out@ == spec_slashify(v@.take(i as int)),
        decreases v@.len() - i,
    {
        let c = v[i];
        if c == '\\' {
            out.push('/');
        } else {
            out.push(c);
        }
        proof {
            assert(out@ =~= spec_slashify(v@.take(i + 1 as int)));
        }
        i += 1;
    }
    proof {
        assert(v@.take(v@.len() as int) =~= v@);
    }
    out
}

/// Trailing slashes removed.
pub open spec fn spec_trim_trailing_slash(s: Seq<char>) -> Seq<char>
    decreases s.len(),
{
    if s.len() > 0 && s[s.len() - 1] == '/' {
        spec_trim_trailing_slash(s.take(s.len() - 1))
    } else {
        s
    }
}

/// The remote path one transferred file lands at: the base path and the
/// relative path, both normalised to forward slashes, joined by a single
/// separator.
pub open spec fn spec_remote_join(base: Seq<char>, rel: Seq<char>) -> Seq<char> {
    spec_trim_trailing_slash(spec_slashify(base)) + seq!['/'] + spec_slashify(rel)
}

/// Join a destination base path and a library-relative path into the
/// remote path handed to the file-transfer subsystem.
pub fn remote_join(base: &str, rel: &str) -> (r: String)
    ensures
        r@ == spec_remote_join(base@, rel@),
{
    let vb = slashify(&crate::text::to_chars(base));
    let mut b: usize = vb.len();
    proof {
        assert(vb@.take(vb@.len() as int) =~= vb@);
    }
    while b > 0 && vb[b - 1] == '/'
        invariant
            b <= vb@.len(),
            spec_trim_trailing_slash(vb@) == spec_trim_trailing_slash(vb@.take(b as int)),
        decreases b,
    {
        proof {
            assert(vb@.take(b as int).take(b - 1 as int) =~= vb@.take(b - 1 as int));
        }
        b -= 1;
    }
    proof {
        if b > 0 {
            assert(spec_trim_trailing_slash(vb@.take(b as int)) == vb@.take(b as int));
        }
    }
    let mut out = crate::text::subvec(&vb, 0, b);
    let ghost trimmed = out@;
    out.push('/');
    let vr = slashify(&crate::text::to_chars(rel));
    let ghost mid = out@;
    let mut j: usize = 0;
    proof {
        assert(mid + vr@.take(0) =~= mid);
    }
    while j < vr.len()
        invariant
            j <= vr@.len(),
            out@ == mid + vr@.take(j as int),
            mid == trimmed + seq!['/'],
        decreases vr@.len() - j,
    {
        out.push(vr[j]);
        proof {
            assert(out@ =~= mid + vr@.take(j + 1 as int));
        }
        j += 1;
    }
    proof {
        assert(vr@.take(vr@.len() as int) =~= vr@);
        assert(out@ =~= spec_remote_join(base@, rel@));
    }
    crate::text::from_chars(&out)
}

/// The non-empty `/`-separated components of a path, in order.
pub open spec fn spec_components(s: Seq<char>, i: int) -> Seq<Seq<char>>
    decreases s.len() - i,
        when 0 <= i
{
    if i >= s.len() {
        Seq::empty()
    } else if s[i] == '/' {
        spec_components(s, i + 1)
    } else {
        let e = match crate::text::spec_find_char_from(s, i, '/') {
            Some(j) => j,
            None => s.len() as int,
        };
        if i < e <= s.len() {
            seq![s.subrange(i, e)] + spec_components(s, e)
        } else {
            Seq::empty()
        }
    }
}

/// The leading separator kept by an absolute path's prefixes.
pub open spec fn spec_lead(s: Seq<char>) -> Seq<char> {
    if s.len() > 0 && s[0] == '/' {
        seq!['/']
    } else {
        Seq::empty()
    }
}

/// The first `k` components joined with `/`.
pub open spec fn spec_joined(parts: Seq<Seq<char>>, k: int) -> Seq<char>
    decreases k,
        when 0 <= k <= parts.len()
{
    if k <= 0 {
        Seq::empty()
    } else if k == 1 {
        parts[0]
    } else {
        spec_joined(parts, k - 1) + seq!['/'] + parts[k - 1]
    }
}

/// The `k`-component directory prefix of a path.
pub open spec fn spec_dir_prefix(s: Seq<char>, k: int) -> Seq<char> {
    spec_lead(s) + spec_joined(spec_components(s, 0), k)
}

/// Every directory leading to a remote path, shortest first: creating
/// them in order, ignoring already-exists failures, is how the remote
/// tree is built before a transfer.
pub fn dir_prefixes(path: &str) -> (r: Vec<String>)
    ensures
        r@.len() == spec_components(path@, 0).len(),
        forall|q: int|
            0 <= q < r@.len() ==> (#[trigger] r@[q])@ == spec_dir_prefix(path@, q + 1),
{
    let v = crate::text::to_chars(path);
    let n = v.len();
    let lead = n > 0 && v[0] == '/';
    let ghost comps = spec_components(v@, 0);
    let mut out: Vec<String> = Vec::new();
    let mut cur: Vec<char> = Vec::new();
    let mut i: usize = 0;
    let mut kx: usize = 0;
    proof {
        assert(comps.skip(0) =~= comps);
    }
    while i < n
        invariant
            i <= n,
            n == v@.len(),
            lead == (v@.len() > 0 && v@[0] == '/'),
            comps == spec_components(v@, 0),
            kx <= comps.len(),
            spec_components(v@, i as int) == comps.skip(kx as int),
            out@.len() == kx,
            forall|q: int|
                0 <= q < kx ==> (#[trigger] out@[q])@ == spec_lead(v@) + spec_joined(
                    comps,
                    q + 1,
                ),
            cur@ == if kx == 0 {
                Seq::<char>::empty()
            } else {
                spec_lead(v@) + spec_joined(comps, kx as int)
            },
        decreases n - i,
    {
        if v[i] == '/' {
            i += 1;
        } else {
            let e = match crate::text::find_char_from(&v, i, '/') {
                Some(j) => j,
                None => n,
            };
            let comp = crate::text::subvec(&v, i, e);
            proof {
                assert(spec_components(v@, i as int) == seq![v@.subrange(i as int, e as int)]
                    + spec_components(v@, e as int));
                assert(comps.skip(kx as int)[0] == comps[kx as int]);
                assert(comps[kx as int] == comp@);
                assert(comps.skip(kx as int).skip(1) =~= comps.skip(kx + 1 as int));
                assert(spec_components(v@, e as int) =~= comps.skip(kx + 1 as int));
            }
            let ghost cur0 = cur@;
            if cur.len() == 0 {
                if lead {
                    cur.push('/');
                }
            } else {
                cur.push('/');
            }
            let ghost cur1 = cur@;
            let mut q: usize = 0;
            proof {
                assert(cur1 + comp@.take(0) =~= cur1);
            }
            while q < comp.len()
                invariant
                    q <= comp@.len(),
                    cur@ == cur1 + comp@.take(q as int),
                decreases comp@.len() - q,
            {
                cur.push(comp[q]);
                proof {
                    assert(cur@ =~= cur1 + comp@.take(q + 1 as int));
                }
                q += 1;
            }
            proof {
                assert(comp@.take(comp@.len() as int) =~= comp@);
                if kx == 0 {
                    assert(cur@ =~= spec_lead(v@) + spec_joined(comps, 1)) by {
                        assert(spec_joined(comps, 1) == comps[0]);
                    }
                } else {
                    assert(cur@ =~= spec_lead(v@) + spec_joined(comps, kx + 1 as int)) by {
                        assert(spec_joined(comps, kx + 1 as int) == spec_joined(comps, kx as int)
                            + seq!['/'] + comps[kx as int]);
                        assert(cur1 =~= (spec_lead(v@) + spec_joined(comps, kx as int))
                            + seq!['/']);
                    }
                }
            }
            out.push(crate::text::from_chars(&cur));
            i = e;
            kx = out.len();
        }
    }
    proof {
        assert(spec_components(v@, n as int) =~= Seq::<Seq<char>>::empty());
        assert(comps.skip(kx as int).len() == 0);
        assert(kx == comps.len());
    }
    out
}

} // verus!
