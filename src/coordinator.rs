use vstd::prelude::*;

verus! {

/// How many indexing jobs may run at once unless configured otherwise.
pub const MAX_CONCURRENT_INDEXING: usize = 2;

/// What became of a request to index a root.
#[derive(Debug, Clone, Copy, PartialEq, Eq, Structural)]
pub enum Admission {
    /// The root completed an earlier pass: nothing is done.
    AlreadyIndexed,
    /// The ceiling was reached: the request is dropped, not queued.
    Deferred,
    /// A job slot was reserved: the caller runs the crawl and then reports back.
    Started,
}

/// What is reported when a job ends.
#[derive(Debug, Clone, PartialEq, Eq)]
pub enum Notification {
    /// The crawl indexed this many documents.
    IndexingComplete(usize),
    /// The crawl failed with this message.
    IndexingError(String),
}

/// The abstract state of a coordinator.
pub struct IndexerModel {
    /// Roots that completed a pass.
    pub indexed: Set<Seq<char>>,
    /// Jobs running now.
    pub active: nat,
    /// Most jobs allowed at once.
    pub ceiling: nat,
}

/// A request for `root` in state `m`: the next state and the admission.
pub open spec fn request_step(m: IndexerModel, root: Seq<char>) -> (IndexerModel, Admission) {
    if m.indexed.contains(root) {
        (m, Admission::AlreadyIndexed)
    } else if m.active >= m.ceiling {
        (m, Admission::Deferred)
    } else {
        (IndexerModel { active: m.active + 1, ..m }, Admission::Started)
    }
}

/// The end of a job for `root` in state `m`; `succeeded` tells how it ended.
pub open spec fn finish_step(m: IndexerModel, root: Seq<char>, succeeded: bool) -> IndexerModel {
    IndexerModel {
        indexed: if succeeded {
            m.indexed.insert(root)
        } else {
            m.indexed
        },
        active: (m.active - 1) as nat,
        ceiling: m.ceiling,
    }
}

/// Requests for each of `roots` in turn, with no job ending in between.
pub open spec fn request_all(m: IndexerModel, roots: Seq<Seq<char>>) -> (
    IndexerModel,
    Seq<Admission>,
)
    decreases roots.len(),
{
    if roots.len() == 0 {
        (m, Seq::empty())
    } else {
        let (m1, a1) = request_all(m, roots.drop_last());
        let (m2, a) = request_step(m1, roots.last());
        (m2, a1.push(a))
    }
}

pub open spec fn min(a: nat, b: nat) -> nat {
    if a <= b {
        a
    } else {
        b
    }
}

/// The ceiling: with no job ending in between, requests for roots that have not
/// completed start jobs until the ceiling is reached, and every further request is
/// dropped; the number running never exceeds the ceiling.
pub proof fn lemma_ceiling_drops_excess(m: IndexerModel, roots: Seq<Seq<char>>)
    requires
        m.active <= m.ceiling,
        forall|i: int| 0 <= i < roots.len() ==> !m.indexed.contains(#[trigger] roots[i]),
    ensures
        ({
            let (m2, adm) = request_all(m, roots);
            &&& adm.len() == roots.len()
            &&& m2.active == min(m.active + roots.len(), m.ceiling)
            &&& m2.active <= m2.ceiling
            &&& m2.ceiling == m.ceiling
            &&& m2.indexed == m.indexed
            &&& forall|i: int|
                0 <= i < adm.len() ==> (#[trigger] adm[i] == Admission::Started <==> m.active + i
                    < m.ceiling)
            &&& forall|i: int|
                0 <= i < adm.len() ==> (adm[i] == Admission::Started || adm[i]
                    == Admission::Deferred)
        }),
    decreases roots.len(),
{
    if roots.len() > 0 {
        let init = roots.drop_last();
        assert forall|i: int| 0 <= i < init.len() implies !m.indexed.contains(#[trigger] init[i]) by {
            assert(init[i] == roots[i]);
        }
        lemma_ceiling_drops_excess(m, init);
        assert(!m.indexed.contains(roots[roots.len() - 1]));
        let (m1, a1) = request_all(m, init);
        let (m2, adm) = request_all(m, roots);
        assert forall|i: int| 0 <= i < adm.len() implies (#[trigger] adm[i] == Admission::Started
            <==> m.active + i < m.ceiling) by {
            if i < a1.len() {
                assert(adm[i] == a1[i]);
            }
        }
        assert forall|i: int|
            0 <= i < adm.len() implies (adm[i] == Admission::Started || adm[i]
            == Admission::Deferred) by {
            if i < a1.len() {
                assert(adm[i] == a1[i]);
            }
        }
    }
}

/// De-duplication: once a job for `root` has succeeded, a new request for it is
/// answered `AlreadyIndexed`, leaves the state as it is and starts no job, so
/// nothing of the file system is read again.
pub proof fn lemma_completed_root_is_skipped(m: IndexerModel, root: Seq<char>)
    requires
        m.active > 0,
    ensures
        ({
            let done = finish_step(m, root, true);
            let (next, adm) = request_step(done, root);
            &&& adm == Admission::AlreadyIndexed
            &&& next == done
        }),
{
}

/// Admission control for background indexing: which roots completed a pass, and
/// how many jobs run now under a fixed ceiling.
pub struct BackgroundIndexer {
    indexed_dirs: Vec<String>,
    active_jobs: usize,
    max_jobs: usize,
}

impl View for BackgroundIndexer {
    type V = IndexerModel;

    closed spec fn view(&self) -> IndexerModel {
        IndexerModel {
            indexed: Set::new(
                |r: Seq<char>| exists|i: int| 0 <= i < self.indexed_dirs.len() && #[trigger] self.indexed_dirs@[i]@ == r,
            ),
            active: self.active_jobs as nat,
            ceiling: self.max_jobs as nat,
        }
    }
}

impl BackgroundIndexer {
    /// The state invariant: no more jobs run than the ceiling allows.
    pub open spec fn wf(&self) -> bool {
        self@.active <= self@.ceiling
    }

    /// A coordinator with no completed roots, no running job and the default ceiling.
    pub fn new() -> (r: Self)
        ensures
            r.wf(),
            r@.indexed == Set::<Seq<char>>::empty(),
            r@.active == 0,
            r@.ceiling == MAX_CONCURRENT_INDEXING,
    {
        Self::with_ceiling(MAX_CONCURRENT_INDEXING)
    }

    /// A coordinator with no completed roots, no running job and the given ceiling.
    pub fn with_ceiling(max_jobs: usize) -> (r: Self)
        ensures
            r.wf(),
            r@.indexed == Set::<Seq<char>>::empty(),
            r@.active == 0,
            r@.ceiling == max_jobs,
    {
        let r = Self { indexed_dirs: Vec::new(), active_jobs: 0, max_jobs };
        assert(r@.indexed =~= Set::<Seq<char>>::empty());
        r
    }

    /// Whether `directory` completed a pass.
    pub fn is_indexed(&self, directory: &str) -> (b: bool)
        ensures
            b == self@.indexed.contains(directory@),
    {
        let d = String::from_str(directory);
        let mut i: usize = 0;
        while i < self.indexed_dirs.len()
            invariant
                i <= self.indexed_dirs.len(),
                d@ == directory@,
                forall|j: int| 0 <= j < i ==> self.indexed_dirs@[j]@ != directory@,
            decreases self.indexed_dirs.len() - i,
        {
            if self.indexed_dirs[i] == d {
                assert(self.indexed_dirs@[i as int]@ == directory@);
                return true;
            }
            i = i + 1;
        }
        false
    }

    /// Number of jobs running now.
    pub fn active_jobs(&self) -> (n: usize)
        ensures
            n == self@.active,
    {
        self.active_jobs
    }

    /// Asks to index `directory`: skipped if it completed a pass, dropped if the
    /// ceiling is reached, and otherwise admitted, reserving a job slot.
    pub fn start_indexing(&mut self, directory: &str) -> (a: Admission)
        requires
            old(self).wf(),
        ensures
            final(self).wf(),
            (final(self)@, a) == request_step(old(self)@, directory@),
    {
        if self.is_indexed(directory) {
            return Admission::AlreadyIndexed;
        }
        if self.active_jobs >= self.max_jobs {
            return Admission::Deferred;
        }
        self.active_jobs = self.active_jobs + 1;
        proof {
            assert(final(self)@.indexed =~= old(self)@.indexed);
        }
        Admission::Started
    }

    /// Ends an admitted job for `directory`: frees its slot, marks the root
    /// completed if the crawl succeeded, and says what to report.
    pub fn finish_indexing(&mut self, directory: &str, result: Result<usize, String>) -> (n:
        Notification)
        requires
            old(self).wf(),
            old(self)@.active > 0,
        ensures
            final(self).wf(),
            final(self)@ == finish_step(old(self)@, directory@, result is Ok),
            match result {
                Ok(count) => n == Notification::IndexingComplete(count),
                Err(msg) => n == Notification::IndexingError(msg),
            },
    {
        let ghost before = self@;
        if result.is_ok() && !self.is_indexed(directory) {
            self.indexed_dirs.push(String::from_str(directory));
            proof {
                let after = self@.indexed;
                assert forall|r: Seq<char>| after.contains(r) <==> before.indexed.insert(
                    directory@,
                ).contains(r) by {
                    if before.indexed.contains(r) {
                        let i = choose|i: int|
                            0 <= i < old(self).indexed_dirs.len()
                                && #[trigger] old(self).indexed_dirs@[i]@ == r;
                        assert(self.indexed_dirs@[i]@ == r);
                    }
                    if r == directory@ {
                        assert(self.indexed_dirs@[self.indexed_dirs.len() - 1]@ == r);
                    }
                    if after.contains(r) {
                        let i = choose|i: int|
                            0 <= i < self.indexed_dirs.len() && #[trigger] self.indexed_dirs@[i]@
                                == r;
                        if i < old(self).indexed_dirs.len() {
                            assert(old(self).indexed_dirs@[i]@ == r);
                        }
                    }
                }
            }
        }
        self.active_jobs = self.active_jobs - 1;
        proof {
            if result is Ok {
                assert(self@.indexed =~= before.indexed.insert(directory@));
            } else {
                assert(self@.indexed =~= before.indexed);
            }
        }
        match result {
            Ok(count) => Notification::IndexingComplete(count),
            Err(msg) => Notification::IndexingError(msg),
        }
    }

    /// Asks to index each of `directories` in turn, with no job ending in between,
    /// as a burst of requests does; the admissions come in the same order.
    pub fn start_indexing_all(&mut self, directories: &Vec<String>) -> (adm: Vec<Admission>)
        requires
            old(self).wf(),
        ensures
            final(self).wf(),
            (final(self)@, adm@) == request_all(
                old(self)@,
                directories@.map_values(|d: String| d@),
            ),
    {
        let ghost roots = directories@.map_values(|d: String| d@);
        let mut adm: Vec<Admission> = Vec::new();
        let mut i: usize = 0;
        assert(roots.take(0) =~= Seq::<Seq<char>>::empty());
        while i < directories.len()
            invariant
                i <= directories.len(),
                roots == directories@.map_values(|d: String| d@),
                self.wf(),
                (self@, adm@) == request_all(old(self)@, roots.take(i as int)),
            decreases directories.len() - i,
        {
            assert(roots.take(i + 1).drop_last() =~= roots.take(i as int));
            assert(roots.take(i + 1).last() == directories@[i as int]@);
            let a = self.start_indexing(directories[i].as_str());
            adm.push(a);
            i = i + 1;
        }
        assert(roots.take(directories.len() as int) =~= roots);
        adm
    }
}

} // verus!
