//! The breadth-first work-queue engine.
//!
//! The engine owns a FIFO queue of jobs, the progress counters, and the
//! collected results. It decides what every job means; the unverified runner
//! around it only performs the filesystem probes, directory listings and
//! stream reads the engine asks for, and feeds the outcomes back in.

use vstd::prelude::*;
use std::collections::VecDeque;
use crate::digest::{DigestSession, sha512_256_of};
use crate::hash::HashView;

verus! {

/// Where the bytes of a digestion come from: an open stream in the runner's
/// handle table, or the process's standard input.
#[derive(Clone, Copy, PartialEq, Eq, Structural)]
pub enum Source {
    Stream(usize),
    Stdin,
}

/// A unit of pending work.
pub enum Job {
    /// Paths awaiting classification.
    Classify(Vec<String>),
    /// A directory whose immediate children must be listed.
    Scan(String),
    /// An identity whose byte stream is ready for hashing.
    Digest(String, Source),
}

/// The mathematical content of a job.
pub enum JobView {
    Classify(Seq<Seq<char>>),
    Scan(Seq<char>),
    Digest(Seq<char>, Source),
}

impl View for Job {
    type V = JobView;

    open spec fn view(&self) -> JobView {
        match self {
            Job::Classify(paths) => JobView::Classify(paths.deep_view()),
            Job::Scan(dir) => JobView::Scan(dir@),
            Job::Digest(identity, source) => JobView::Digest(identity@, *source),
        }
    }
}

/// What a metadata probe of one path found. Symbolic links are probed by
/// their own type, never followed.
#[derive(Clone, Copy, PartialEq, Eq, Structural)]
pub enum Observation {
    /// A regular file, opened for reading: the handle of the open stream.
    FileOpened(usize),
    /// A regular file that could not be opened.
    FileUnreadable,
    /// A directory.
    Directory,
    /// An entry of some other kind: socket, device, fifo.
    OtherKind,
    /// The metadata probe failed: no such path, or a broken link.
    Missing,
}

/// The phase the engine last reported, for progress display.
pub enum Status {
    Idle,
    Scanning(String),
    Hashing(String),
    Done,
}

/// The mathematical content of a status.
pub enum StatusView {
    Idle,
    Scanning(Seq<char>),
    Hashing(Seq<char>),
    Done,
}

impl View for Status {
    type V = StatusView;

    open spec fn view(&self) -> StatusView {
        match self {
            Status::Idle => StatusView::Idle,
            Status::Scanning(dir) => StatusView::Scanning(dir@),
            Status::Hashing(identity) => StatusView::Hashing(identity@),
            Status::Done => StatusView::Done,
        }
    }
}

/// The job one classified entry contributes, if any: an opened regular file
/// is queued for digestion, a directory for scanning, the sentinel "-" with
/// no metadata for digesting standard input under the identity "stdin".
/// Every other entry is dropped silently.
pub open spec fn entry_job(path: Seq<char>, obs: Observation) -> Option<JobView> {
    match obs {
        Observation::FileOpened(handle) => Some(JobView::Digest(path, Source::Stream(handle))),
        Observation::FileUnreadable => None,
        Observation::Directory => Some(JobView::Scan(path)),
        Observation::OtherKind => None,
        Observation::Missing => if path == "-"@ {
            Some(JobView::Digest("stdin"@, Source::Stdin))
        } else {
            None
        },
    }
}

/// The jobs one classified entry adds to the queue: one or none.
pub open spec fn entry_jobs(path: Seq<char>, obs: Observation) -> Seq<JobView> {
    match entry_job(path, obs) {
        Some(job) => seq![job],
        None => Seq::<JobView>::empty(),
    }
}

/// The jobs a whole classification step adds, in entry order.
pub open spec fn classify_jobs(paths: Seq<Seq<char>>, obs: Seq<Observation>) -> Seq<JobView>
    decreases paths.len(),
{
    if paths.len() == 0 || obs.len() == 0 {
        Seq::<JobView>::empty()
    } else {
        entry_jobs(paths[0], obs[0]) + classify_jobs(paths.drop_first(), obs.drop_first())
    }
}

/// How many digestion jobs a sequence of jobs holds.
pub open spec fn digest_jobs(jobs: Seq<JobView>) -> nat
    decreases jobs.len(),
{
    if jobs.len() == 0 {
        0
    } else {
        (if jobs[0] is Digest {
            1nat
        } else {
            0nat
        }) + digest_jobs(jobs.drop_first())
    }
}

/// How many digestible entries a classification step discovers.
pub open spec fn classify_found(paths: Seq<Seq<char>>, obs: Seq<Observation>) -> nat {
    digest_jobs(classify_jobs(paths, obs))
}

pub proof fn lemma_digest_jobs_concat(a: Seq<JobView>, b: Seq<JobView>)
    ensures
        digest_jobs(a + b) == digest_jobs(a) + digest_jobs(b),
    decreases a.len(),
{
    if a.len() == 0 {
        assert(a + b =~= b);
    } else {
        lemma_digest_jobs_concat(a.drop_first(), b);
        assert((a + b).drop_first() =~= a.drop_first() + b);
    }
}

pub proof fn lemma_digest_jobs_push(jobs: Seq<JobView>, job: JobView)
    ensures
        digest_jobs(jobs.push(job)) == digest_jobs(jobs) + (if job is Digest {
            1nat
        } else {
            0nat
        }),
{
    assert(jobs.push(job) =~= jobs + seq![job]);
    lemma_digest_jobs_concat(jobs, seq![job]);
    reveal_with_fuel(digest_jobs, 2);
    assert(seq![job].drop_first() =~= Seq::<JobView>::empty());
}

/// One classified entry contributes one digestion job exactly when it is an
/// opened regular file or the standard-input sentinel.
pub proof fn lemma_entry_jobs_count(path: Seq<char>, obs: Observation)
    ensures
        digest_jobs(entry_jobs(path, obs)) == (match entry_job(path, obs) {
            Some(job) => if job is Digest {
                1nat
            } else {
                0nat
            },
            None => 0nat,
        }),
{
    reveal_with_fuel(digest_jobs, 2);
    if entry_job(path, obs) is Some {
        assert(entry_jobs(path, obs).drop_first() =~= Seq::<JobView>::empty());
    }
}

pub proof fn lemma_classify_jobs_concat(
    p1: Seq<Seq<char>>,
    o1: Seq<Observation>,
    p2: Seq<Seq<char>>,
    o2: Seq<Observation>,
)
    requires
        p1.len() == o1.len(),
    ensures
        classify_jobs(p1 + p2, o1 + o2) == classify_jobs(p1, o1) + classify_jobs(p2, o2),
    decreases p1.len(),
{
    if p1.len() == 0 {
        assert(p1 + p2 =~= p2);
        assert(o1 + o2 =~= o2);
        assert(classify_jobs(p1, o1) + classify_jobs(p2, o2) =~= classify_jobs(p2, o2));
    } else {
        lemma_classify_jobs_concat(p1.drop_first(), o1.drop_first(), p2, o2);
        assert((p1 + p2).drop_first() =~= p1.drop_first() + p2);
        assert((o1 + o2).drop_first() =~= o1.drop_first() + o2);
        assert((p1 + p2)[0] == p1[0]);
        assert((o1 + o2)[0] == o1[0]);
        assert(entry_jobs(p1[0], o1[0]) + (classify_jobs(p1.drop_first(), o1.drop_first())
            + classify_jobs(p2, o2)) =~= (entry_jobs(p1[0], o1[0]) + classify_jobs(
            p1.drop_first(),
            o1.drop_first(),
        )) + classify_jobs(p2, o2));
    }
}

pub proof fn lemma_classify_jobs_snoc(p: Seq<Seq<char>>, o: Seq<Observation>, i: int)
    requires
        p.len() == o.len(),
        0 <= i < p.len(),
    ensures
        classify_jobs(p.take(i + 1), o.take(i + 1)) == classify_jobs(p.take(i), o.take(i))
            + entry_jobs(p[i], o[i]),
        classify_found(p.take(i + 1), o.take(i + 1)) == classify_found(p.take(i), o.take(i))
            + digest_jobs(entry_jobs(p[i], o[i])),
{
    assert(p.take(i + 1) =~= p.take(i) + seq![p[i]]);
    assert(o.take(i + 1) =~= o.take(i) + seq![o[i]]);
    lemma_classify_jobs_concat(p.take(i), o.take(i), seq![p[i]], seq![o[i]]);
    assert(classify_jobs(seq![p[i]], seq![o[i]]) =~= entry_jobs(p[i], o[i])) by {
        reveal_with_fuel(classify_jobs, 2);
        assert(seq![p[i]].drop_first() =~= Seq::<Seq<char>>::empty());
    }
    lemma_digest_jobs_concat(classify_jobs(p.take(i), o.take(i)), entry_jobs(p[i], o[i]));
}

pub proof fn lemma_classify_found_take_bound(p: Seq<Seq<char>>, o: Seq<Observation>, i: int)
    requires
        p.len() == o.len(),
        0 <= i <= p.len(),
    ensures
        classify_found(p.take(i), o.take(i)) <= classify_found(p, o),
    decreases p.len() - i,
{
    if i == p.len() {
        assert(p.take(i) =~= p);
        assert(o.take(i) =~= o);
    } else {
        lemma_classify_jobs_snoc(p, o, i);
        lemma_classify_found_take_bound(p, o, i + 1);
    }
}

/// The view of a sequence of collected results.
pub open spec fn hashes_view(results: Seq<crate::hash::Hash>) -> Seq<HashView> {
    results.map(|i: int, h: crate::hash::Hash| h@)
}

/// The work-queue scheduler, progress reporter and result collector in one
/// exclusively-owned state.
pub struct Engine {
    queue: VecDeque<Job>,
    total: u64,
    shown_total: u64,
    completed: u64,
    in_flight: u64,
    status: Status,
    results: Vec<crate::hash::Hash>,
}

impl Engine {
    /// The pending jobs, front first.
    pub closed spec fn jobs(self) -> Seq<JobView> {
        self.queue@.map(|i: int, j: Job| j@)
    }

    /// How many digestible items have been discovered.
    pub closed spec fn total(self) -> u64 {
        self.total
    }

    /// The total last published for display.
    pub closed spec fn shown_total(self) -> u64 {
        self.shown_total
    }

    /// How many digestions have begun.
    pub closed spec fn completed(self) -> u64 {
        self.completed
    }

    /// How many digest jobs were taken from the queue but have no recorded
    /// result yet.
    pub closed spec fn in_flight(self) -> u64 {
        self.in_flight
    }

    /// The current status message.
    pub closed spec fn status_view(self) -> StatusView {
        self.status@
    }

    /// The results collected so far, in completion order.
    pub closed spec fn results_seq(self) -> Seq<HashView> {
        hashes_view(self.results@)
    }

    /// Every discovered digestible item is accounted for: it is still queued,
    /// in flight, or finished with exactly one result; and every digestion
    /// ever begun has produced a result unless it is still in flight.
    pub open spec fn wf(self) -> bool {
        &&& self.total() == self.results_seq().len() + digest_jobs(self.jobs()) + self.in_flight()
        &&& self.completed() == self.results_seq().len() + self.in_flight()
        &&& forall|i: int|
            0 <= i < self.results_seq().len() ==> (#[trigger] self.results_seq()[i]).digest.len()
                == 32
    }

    /// Seed the queue with one classification job holding all input paths.
    pub fn new(initial_paths: Vec<String>) -> (e: Engine)
        ensures
            e.wf(),
            e.jobs() =~= seq![JobView::Classify(initial_paths.deep_view())],
            e.total() == 0,
            e.shown_total() == 0,
            e.completed() == 0,
            e.in_flight() == 0,
            e.results_seq() =~= Seq::<HashView>::empty(),
            e.status_view() == StatusView::Idle,
    {
        let mut queue = VecDeque::<Job>::new();
        queue.push_back(Job::Classify(initial_paths));
        let e = Engine {
            queue,
            total: 0,
            shown_total: 0,
            completed: 0,
            in_flight: 0,
            status: Status::Idle,
            results: Vec::new(),
        };
        proof {
            assert(e.jobs() =~= seq![JobView::Classify(initial_paths.deep_view())]);
            assert(e.results_seq() =~= Seq::<HashView>::empty());
            lemma_digest_jobs_push(Seq::<JobView>::empty(), e.jobs()[0]);
            assert(Seq::<JobView>::empty().push(e.jobs()[0]) =~= e.jobs());
        }
        e
    }

    /// Pop the front job, if any. Taking a digestion job counts it as begun:
    /// the completed counter rises and the status turns to hashing its
    /// identity; taking a scan job turns the status to scanning. Everything
    /// else is left untouched.
    pub fn take_job(&mut self) -> (job: Option<Job>)
        requires
            old(self).wf(),
        ensures
            final(self).wf(),
            final(self).total() == old(self).total(),
            final(self).shown_total() == old(self).shown_total(),
            final(self).results_seq() == old(self).results_seq(),
            old(self).jobs().len() == 0 ==> {
                &&& job is None
                &&& final(self).jobs() == old(self).jobs()
                &&& final(self).completed() == old(self).completed()
                &&& final(self).in_flight() == old(self).in_flight()
                &&& final(self).status_view() == old(self).status_view()
            },
            old(self).jobs().len() > 0 ==> {
                &&& job matches Some(j) && j@ == old(self).jobs()[0]
                &&& final(self).jobs() == old(self).jobs().drop_first()
                &&& match old(self).jobs()[0] {
                    JobView::Classify(_) => {
                        &&& final(self).completed() == old(self).completed()
                        &&& final(self).in_flight() == old(self).in_flight()
                        &&& final(self).status_view() == old(self).status_view()
                    },
                    JobView::Scan(dir) => {
                        &&& final(self).completed() == old(self).completed()
                        &&& final(self).in_flight() == old(self).in_flight()
                        &&& final(self).status_view() == StatusView::Scanning(dir)
                    },
                    JobView::Digest(identity, _) => {
                        &&& final(self).completed() == old(self).completed() + 1
                        &&& final(self).in_flight() == old(self).in_flight() + 1
                        &&& final(self).status_view() == StatusView::Hashing(identity)
                    },
                }
            },
    {
        let ghost pre_jobs = self.jobs();
        let job_opt = self.queue.pop_front();
        proof {
            if pre_jobs.len() > 0 {
                assert(self.jobs() =~= pre_jobs.drop_first());
            }
        }
        match &job_opt {
            None => {},
            Some(job) => {
                match job {
                    Job::Classify(_) => {},
                    Job::Scan(dir) => {
                        self.status = Status::Scanning(dir.clone());
                    },
                    Job::Digest(identity, _) => {
                        proof {
                            assert(digest_jobs(pre_jobs) >= 1);
                        }
                        self.status = Status::Hashing(identity.clone());
                        self.completed = self.completed + 1;
                        self.in_flight = self.in_flight + 1;
                    },
                }
            },
        }
        job_opt
    }

    /// Classify a batch of entries against what the filesystem probes found,
    /// enqueueing the resulting jobs in entry order, counting each newly
    /// discovered digestible item, and then publishing the new total.
    pub fn step_classify(&mut self, paths: Vec<String>, obs: Vec<Observation>)
        requires
            old(self).wf(),
            obs@.len() == paths@.len(),
            old(self).total() + classify_found(paths.deep_view(), obs@) <= u64::MAX,
        ensures
            final(self).wf(),
            final(self).jobs() == old(self).jobs() + classify_jobs(paths.deep_view(), obs@),
            final(self).total() == old(self).total() + classify_found(paths.deep_view(), obs@),
            final(self).shown_total() == final(self).total(),
            final(self).completed() == old(self).completed(),
            final(self).in_flight() == old(self).in_flight(),
            final(self).results_seq() == old(self).results_seq(),
            final(self).status_view() == old(self).status_view(),
    {
        let ghost p = paths.deep_view();
        let ghost o = obs@;
        let n = paths.len();
        let mut i: usize = 0;
        proof {
            assert(p.take(0) =~= Seq::<Seq<char>>::empty());
            assert(o.take(0) =~= Seq::<Observation>::empty());
            assert(self.jobs() + classify_jobs(p.take(0), o.take(0)) =~= self.jobs());
        }
        while i < n
            invariant
                n == p.len(),
                o.len() == p.len(),
                n == paths@.len(),
                p == paths.deep_view(),
                o == obs@,
                i <= n,
                old(self).wf(),
                old(self).total() + classify_found(p, o) <= u64::MAX,
                self.jobs() == old(self).jobs() + classify_jobs(p.take(i as int), o.take(i as int)),
                self.total == old(self).total() + classify_found(p.take(i as int), o.take(i as int)),
                self.shown_total == old(self).shown_total(),
                self.completed == old(self).completed(),
                self.in_flight == old(self).in_flight(),
                self.results@ == old(self).results@,
                self.status@ == old(self).status_view(),
                self.wf(),
            decreases n - i,
        {
            proof {
                lemma_classify_jobs_snoc(p, o, i as int);
                lemma_classify_found_take_bound(p, o, i as int + 1);
                lemma_entry_jobs_count(p[i as int], o[i as int]);
                assert(p[i as int] == paths@[i as int]@);
            }
            let ghost pre_jobs = self.jobs();
            let path = &paths[i];
            let ob = obs[i];
            match ob {
                Observation::FileOpened(handle) => {
                    self.queue.push_back(Job::Digest(path.clone(), Source::Stream(handle)));
                    self.total = self.total + 1;
                    proof {
                        assert(self.jobs() =~= pre_jobs.push(
                            JobView::Digest(p[i as int], Source::Stream(handle)),
                        ));
                        lemma_digest_jobs_push(
                            pre_jobs,
                            JobView::Digest(p[i as int], Source::Stream(handle)),
                        );
                        assert(pre_jobs.push(JobView::Digest(p[i as int], Source::Stream(handle)))
                            =~= pre_jobs + entry_jobs(p[i as int], o[i as int]));
                    }
                },
                Observation::Directory => {
                    self.queue.push_back(Job::Scan(path.clone()));
                    proof {
                        assert(self.jobs() =~= pre_jobs.push(JobView::Scan(p[i as int])));
                        lemma_digest_jobs_push(pre_jobs, JobView::Scan(p[i as int]));
                        assert(pre_jobs.push(JobView::Scan(p[i as int])) =~= pre_jobs + entry_jobs(
                            p[i as int],
                            o[i as int],
                        ));
                    }
                },
                Observation::Missing => {
                    let dash: String = "-".to_owned();
                    if *path == dash {
                        let stdin_name: String = "stdin".to_owned();
                        self.queue.push_back(Job::Digest(stdin_name, Source::Stdin));
                        self.total = self.total + 1;
                        proof {
                            assert(self.jobs() =~= pre_jobs.push(
                                JobView::Digest("stdin"@, Source::Stdin),
                            ));
                            lemma_digest_jobs_push(
                                pre_jobs,
                                JobView::Digest("stdin"@, Source::Stdin),
                            );
                            assert(pre_jobs.push(JobView::Digest("stdin"@, Source::Stdin))
                                =~= pre_jobs + entry_jobs(p[i as int], o[i as int]));
                        }
                    } else {
                        proof {
                            assert(pre_jobs + entry_jobs(p[i as int], o[i as int]) =~= pre_jobs);
                        }
                    }
                },
                _ => {
                    proof {
                        assert(pre_jobs + entry_jobs(p[i as int], o[i as int]) =~= pre_jobs);
                    }
                },
            }
            proof {
                assert(old(self).jobs() + classify_jobs(p.take(i as int), o.take(i as int))
                    + entry_jobs(p[i as int], o[i as int]) =~= old(self).jobs() + classify_jobs(
                    p.take(i as int + 1),
                    o.take(i as int + 1),
                ));
            }
            i = i + 1;
        }
        proof {
            assert(p.take(n as int) =~= p);
            assert(o.take(n as int) =~= o);
        }
        self.shown_total = self.total;
    }

    /// Record the children of a scanned directory as one new classification
    /// job at the back of the queue.
    pub fn scan_done(&mut self, children: Vec<String>)
        requires
            old(self).wf(),
        ensures
            final(self).wf(),
            final(self).jobs() == old(self).jobs().push(JobView::Classify(children.deep_view())),
            final(self).total() == old(self).total(),
            final(self).shown_total() == old(self).shown_total(),
            final(self).completed() == old(self).completed(),
            final(self).in_flight() == old(self).in_flight(),
            final(self).results_seq() == old(self).results_seq(),
            final(self).status_view() == old(self).status_view(),
    {
        let ghost pre_jobs = self.jobs();
        self.queue.push_back(Job::Classify(children));
        proof {
            assert(self.jobs() =~= pre_jobs.push(self.jobs().last()));
            lemma_digest_jobs_push(pre_jobs, self.jobs().last());
        }
    }

    /// Finish one in-flight digestion: the session's 32-byte digest is
    /// appended to the results under the given identity.
    pub fn record_result(&mut self, identity: String, session: DigestSession)
        requires
            old(self).wf(),
            old(self).in_flight() > 0,
        ensures
            final(self).wf(),
            final(self).results_seq() == old(self).results_seq().push(
                HashView { path: identity@, digest: sha512_256_of(session.bytes_fed()) },
            ),
            final(self).in_flight() == old(self).in_flight() - 1,
            final(self).jobs() == old(self).jobs(),
            final(self).total() == old(self).total(),
            final(self).shown_total() == old(self).shown_total(),
            final(self).completed() == old(self).completed(),
            final(self).status_view() == old(self).status_view(),
    {
        let digest = session.finish();
        let result = crate::hash::Hash::new(&identity, digest.as_slice());
        self.results.push(result);
        self.in_flight = self.in_flight - 1;
        proof {
            assert(self.results_seq() =~= old(self).results_seq().push(
                HashView { path: identity@, digest: sha512_256_of(session.bytes_fed()) },
            ));
        }
    }

    /// The whole run is over: report it.
    pub fn finish(&mut self)
        requires
            old(self).wf(),
        ensures
            final(self).wf(),
            final(self).status_view() == StatusView::Done,
            final(self).jobs() == old(self).jobs(),
            final(self).total() == old(self).total(),
            final(self).shown_total() == old(self).shown_total(),
            final(self).completed() == old(self).completed(),
            final(self).in_flight() == old(self).in_flight(),
            final(self).results_seq() == old(self).results_seq(),
    {
        self.status = Status::Done;
    }

    /// Hand the collected results out, in completion order.
    pub fn into_results(self) -> (results: Vec<crate::hash::Hash>)
        ensures
            hashes_view(results@) == self.results_seq(),
            results@.len() == self.results_seq().len(),
            forall|i: int| 0 <= i < results@.len() ==> (#[trigger] results@[i])@
                == self.results_seq()[i],
    {
        let results = self.results;
        proof {
            assert forall|i: int| 0 <= i < results@.len() implies (#[trigger] results@[i])@
                == self.results_seq()[i] by {
                assert(self.results_seq()[i] == results@[i]@);
            }
        }
        results
    }

    /// How many digestible items have been discovered so far.
    pub fn discovered_total(&self) -> (n: u64)
        ensures
            n == self.total(),
    {
        self.total
    }

    /// The discovered total as last published for display.
    pub fn published_total(&self) -> (n: u64)
        ensures
            n == self.shown_total(),
    {
        self.shown_total
    }

    /// How many digestions have begun.
    pub fn completed_count(&self) -> (n: u64)
        ensures
            n == self.completed(),
    {
        self.completed
    }

    /// How many digestions were begun but have no recorded result yet.
    pub fn in_flight_count(&self) -> (n: u64)
        ensures
            n == self.in_flight(),
    {
        self.in_flight
    }

    /// The current status message.
    pub fn current_status(&self) -> (status: &Status)
        ensures
            status@ == self.status_view(),
    {
        &self.status
    }
}

/// Every discovered digestible item ends in exactly one result: when the
/// queue has run empty and no digestion is in flight, the number of collected
/// results equals the number of digestible items the run discovered, and
/// every digestion begun has finished.
pub proof fn lemma_run_accounts_all(e: Engine)
    requires
        e.wf(),
        e.jobs().len() == 0,
        e.in_flight() == 0,
    ensures
        e.results_seq().len() == e.total(),
        e.completed() == e.total(),
{
}

/// Classification does not deduplicate: a batch of entries classified a
/// second time with the same observations contributes the same jobs over
/// again, and the count of discovered digestible items doubles.
pub proof fn lemma_classify_no_dedup(p: Seq<Seq<char>>, o: Seq<Observation>)
    requires
        p.len() == o.len(),
    ensures
        classify_jobs(p + p, o + o) == classify_jobs(p, o) + classify_jobs(p, o),
        classify_found(p + p, o + o) == 2 * classify_found(p, o),
{
    lemma_classify_jobs_concat(p, o, p, o);
    lemma_digest_jobs_concat(classify_jobs(p, o), classify_jobs(p, o));
}

/// The sentinel path "-" that resolves to no filesystem entry classifies to
/// exactly one digestion of standard input, under the identity "stdin".
pub proof fn lemma_stdin_sentinel(path: Seq<char>)
    requires
        path == "-"@,
    ensures
        entry_job(path, Observation::Missing) == Some(
            JobView::Digest("stdin"@, Source::Stdin),
        ),
        entry_jobs(path, Observation::Missing).len() == 1,
{
}

/// A path that resolves to no filesystem entry and is not the sentinel "-"
/// contributes nothing: no job, no count, no error.
pub proof fn lemma_missing_path_ignored(path: Seq<char>)
    requires
        path != "-"@,
    ensures
        entry_job(path, Observation::Missing) is None,
        entry_jobs(path, Observation::Missing).len() == 0,
{
}

} // verus!
