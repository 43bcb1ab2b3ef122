//! The Job Matching Search: pages of the job history are scanned in API
//! order, candidates are filtered by job name and success, counted against
//! two independent circuit breakers, and compared by fingerprint; the first
//! match wins. Fetching a page is I/O and stays outside the library; the scan
//! of every fetched page, the counters and the stopping decisions are
//! verified here.

use crate::git;
use crate::jobs::{GitlabJob, JobView};
use crate::text;
use vstd::prelude::*;

verus! {

/// A candidate counts only when it is the same job and succeeded.
pub open spec fn eligible(job: JobView, job_name: Seq<char>) -> bool {
    job.name == job_name && job.status == "success"@
}

/// The candidate ran on the configured ref (when one is configured).
pub open spec fn on_ref(job: JobView, ref_name: Option<Seq<char>>) -> bool {
    match ref_name {
        Some(r) => job.job_ref == r,
        None => false,
    }
}

/// A counter increment that saturates at the top of its type, so counting
/// never fails; the bounds it is compared against lie far below saturation.
pub open spec fn sat_inc(c: u64) -> u64 {
    if c < u64::MAX {
        (c + 1) as u64
    } else {
        c
    }
}

/// Either circuit breaker alone ends the search.
pub open spec fn bounds_exceeded(
    examined: u64,
    same_ref: u64,
    same_ref_max: u32,
    same_job_max: u32,
) -> bool {
    same_ref > same_ref_max as u64 || examined > same_job_max as u64
}

/// What scanning one page's jobs yields: the first eligible candidate whose
/// fingerprint equals the head fingerprint, or no match; either way with the
/// counters as they stand when the scan ends.
pub enum PageScan {
    Found { index: int, examined: u64, same_ref: u64 },
    NoMatch { examined: u64, same_ref: u64 },
}

/// Scans `jobs` from position `i` in the order given: an ineligible job is
/// passed over; an eligible one raises the examined counter, raises the
/// same-ref counter when it ran on the configured ref, and wins immediately
/// when its fingerprint (`fps` at its position) equals `head`.
pub open spec fn scan_jobs(
    jobs: Seq<JobView>,
    fps: Seq<Option<Seq<char>>>,
    head: Seq<char>,
    job_name: Seq<char>,
    ref_name: Option<Seq<char>>,
    i: int,
    examined: u64,
    same_ref: u64,
) -> PageScan
    decreases jobs.len() - i,
{
    if i < 0 || i >= jobs.len() {
        PageScan::NoMatch { examined, same_ref }
    } else if !eligible(jobs[i], job_name) {
        scan_jobs(jobs, fps, head, job_name, ref_name, i + 1, examined, same_ref)
    } else {
        let ex = sat_inc(examined);
        let sr = if on_ref(jobs[i], ref_name) {
            sat_inc(same_ref)
        } else {
            same_ref
        };
        if fps[i] == Some(head) {
            PageScan::Found { index: i, examined: ex, same_ref: sr }
        } else {
            scan_jobs(jobs, fps, head, job_name, ref_name, i + 1, ex, sr)
        }
    }
}

/// Law: the first match in scan order wins. A found candidate is eligible,
/// its fingerprint equals the head fingerprint, and every eligible candidate
/// before it mismatches; no match means every eligible candidate mismatches.
pub proof fn lemma_scan_first_match(
    jobs: Seq<JobView>,
    fps: Seq<Option<Seq<char>>>,
    head: Seq<char>,
    job_name: Seq<char>,
    ref_name: Option<Seq<char>>,
    i: int,
    examined: u64,
    same_ref: u64,
)
    requires
        0 <= i <= jobs.len(),
    ensures
        match scan_jobs(jobs, fps, head, job_name, ref_name, i, examined, same_ref) {
            PageScan::Found { index, .. } => {
                &&& i <= index < jobs.len()
                &&& eligible(jobs[index], job_name)
                &&& fps[index] == Some(head)
                &&& forall|j: int|
                    i <= j < index && eligible(#[trigger] jobs[j], job_name) ==> fps[j] != Some(
                        head,
                    )
            },
            PageScan::NoMatch { .. } => forall|j: int|
                i <= j < jobs.len() && eligible(#[trigger] jobs[j], job_name) ==> fps[j] != Some(
                    head,
                ),
        },
    decreases jobs.len() - i,
{
    if i < jobs.len() {
        lemma_scan_first_match(
            jobs,
            fps,
            head,
            job_name,
            ref_name,
            i + 1,
            sat_inc(examined),
            same_ref,
        );
        lemma_scan_first_match(
            jobs,
            fps,
            head,
            job_name,
            ref_name,
            i + 1,
            sat_inc(examined),
            sat_inc(same_ref),
        );
        lemma_scan_first_match(jobs, fps, head, job_name, ref_name, i + 1, examined, same_ref);
    }
}

/// How many candidates from position `i` on are eligible.
pub open spec fn eligible_count(jobs: Seq<JobView>, job_name: Seq<char>, i: int) -> int
    decreases jobs.len() - i,
{
    if i < 0 || i >= jobs.len() {
        0
    } else {
        (if eligible(jobs[i], job_name) {
            1int
        } else {
            0int
        }) + eligible_count(jobs, job_name, i + 1)
    }
}

/// How many candidates from position `i` on are eligible and ran on the
/// configured ref.
pub open spec fn on_ref_count(
    jobs: Seq<JobView>,
    job_name: Seq<char>,
    ref_name: Option<Seq<char>>,
    i: int,
) -> int
    decreases jobs.len() - i,
{
    if i < 0 || i >= jobs.len() {
        0
    } else {
        (if eligible(jobs[i], job_name) && on_ref(jobs[i], ref_name) {
            1int
        } else {
            0int
        }) + on_ref_count(jobs, job_name, ref_name, i + 1)
    }
}

/// The candidate counts are never negative.
proof fn lemma_counts_nonnegative(
    jobs: Seq<JobView>,
    job_name: Seq<char>,
    ref_name: Option<Seq<char>>,
    i: int,
)
    ensures
        eligible_count(jobs, job_name, i) >= 0,
        on_ref_count(jobs, job_name, ref_name, i) >= 0,
    decreases jobs.len() - i,
{
    if 0 <= i < jobs.len() {
        lemma_counts_nonnegative(jobs, job_name, ref_name, i + 1);
    }
}

/// Law: the circuit-breaker counters count exactly. A page scanned to its end
/// without a match has examined every eligible candidate exactly once, and
/// counted on the ref exactly the eligible candidates that ran on it — as
/// long as the totals stay below the counters' saturation point, which lies
/// far beyond any configurable bound.
pub proof fn lemma_scan_counts(
    jobs: Seq<JobView>,
    fps: Seq<Option<Seq<char>>>,
    head: Seq<char>,
    job_name: Seq<char>,
    ref_name: Option<Seq<char>>,
    i: int,
    examined: u64,
    same_ref: u64,
)
    requires
        0 <= i <= jobs.len(),
        examined + eligible_count(jobs, job_name, i) <= u64::MAX,
        same_ref + on_ref_count(jobs, job_name, ref_name, i) <= u64::MAX,
    ensures
        match scan_jobs(jobs, fps, head, job_name, ref_name, i, examined, same_ref) {
            PageScan::NoMatch { examined: ex, same_ref: sr } => {
                &&& ex == examined + eligible_count(jobs, job_name, i)
                &&& sr == same_ref + on_ref_count(jobs, job_name, ref_name, i)
            },
            PageScan::Found { .. } => true,
        },
    decreases jobs.len() - i,
{
    if i < jobs.len() {
        if !eligible(jobs[i], job_name) {
            lemma_scan_counts(jobs, fps, head, job_name, ref_name, i + 1, examined, same_ref);
        } else {
            assert(eligible_count(jobs, job_name, i) == 1 + eligible_count(jobs, job_name, i + 1));
            assert(eligible_count(jobs, job_name, i + 1) >= 0) by {
                lemma_counts_nonnegative(jobs, job_name, ref_name, i + 1);
            }
            assert(on_ref_count(jobs, job_name, ref_name, i + 1) >= 0) by {
                lemma_counts_nonnegative(jobs, job_name, ref_name, i + 1);
            }
            let ex2 = sat_inc(examined);
            assert(ex2 == examined + 1);
            let sr2 = if on_ref(jobs[i], ref_name) {
                sat_inc(same_ref)
            } else {
                same_ref
            };
            assert(on_ref_count(jobs, job_name, ref_name, i) == (if on_ref(jobs[i], ref_name) {
                1int
            } else {
                0int
            }) + on_ref_count(jobs, job_name, ref_name, i + 1));
            if fps[i] != Some(head) {
                lemma_scan_counts(jobs, fps, head, job_name, ref_name, i + 1, ex2, sr2);
            }
        }
    }
}

/// The views of a page of job records.
pub open spec fn job_views(jobs: Seq<GitlabJob>) -> Seq<JobView> {
    Seq::new(jobs.len(), |i: int| jobs[i]@)
}

/// The views of precomputed candidate fingerprints; a missing one means the
/// fingerprint could not be computed and the candidate never matches.
pub open spec fn fp_views(fps: Seq<Option<String>>) -> Seq<Option<Seq<char>>> {
    Seq::new(fps.len(), |i: int| crate::jobs::opt_view(fps[i]))
}

/// The search's mutable state: the two monotonically increasing candidate
/// counters, and how many pages have been scanned.
pub struct SearchState {
    pub examined: u64,
    pub same_ref: u64,
    pub pages_done: u32,
}

impl SearchState {
    /// The state before the first page.
    pub fn new() -> (r: Self)
        ensures
            r.examined == 0,
            r.same_ref == 0,
            r.pages_done == 0,
    {
        SearchState { examined: 0, same_ref: 0, pages_done: 0 }
    }

    /// The number of the page to fetch next, or nothing once the configured
    /// number of pages has been scanned. Pages are numbered from one.
    pub fn page_to_fetch(&self, page_to_fetch_max: u32) -> (r: Option<u32>)
        ensures
            self.pages_done < page_to_fetch_max ==> r == Some((self.pages_done + 1) as u32),
            self.pages_done >= page_to_fetch_max ==> r is None,
    {
        if self.pages_done < page_to_fetch_max {
            Some(self.pages_done + 1)
        } else {
            None
        }
    }

    /// Whether a circuit breaker ends the search after a no-match page.
    pub fn bounds_exceeded(&self, same_ref_max: u32, same_job_max: u32) -> (r: bool)
        ensures
            r == bounds_exceeded(self.examined, self.same_ref, same_ref_max, same_job_max),
    {
        self.same_ref > same_ref_max as u64 || self.examined > same_job_max as u64
    }

    /// Scans one fetched page whose candidate fingerprints are already
    /// computed, in the order given: the position of the first match, or
    /// nothing. The counters advance exactly as [`scan_jobs`] says, and the
    /// page is recorded as done.
    pub fn scan_page_with(
        &mut self,
        jobs: &Vec<GitlabJob>,
        fps: &Vec<Option<String>>,
        head: &String,
        job_name: &String,
        ref_name: &Option<String>,
    ) -> (r: Option<usize>)
        requires
            fps@.len() == jobs@.len(),
            old(self).pages_done < u32::MAX,
        ensures
            final(self).pages_done == old(self).pages_done + 1,
            match r {
                Some(index) => index < jobs@.len() && scan_jobs(
                    job_views(jobs@),
                    fp_views(fps@),
                    head@,
                    job_name@,
                    crate::jobs::opt_view(*ref_name),
                    0,
                    old(self).examined,
                    old(self).same_ref,
                ) == (PageScan::Found {
                    index: index as int,
                    examined: final(self).examined,
                    same_ref: final(self).same_ref,
                }),
                None => scan_jobs(
                    job_views(jobs@),
                    fp_views(fps@),
                    head@,
                    job_name@,
                    crate::jobs::opt_view(*ref_name),
                    0,
                    old(self).examined,
                    old(self).same_ref,
                ) == (PageScan::NoMatch {
                    examined: final(self).examined,
                    same_ref: final(self).same_ref,
                }),
            },
    {
        let ghost jv = job_views(jobs@);
        let ghost fv = fp_views(fps@);
        let ghost refv = crate::jobs::opt_view(*ref_name);
        let ghost ex0 = self.examined;
        let ghost sr0 = self.same_ref;
        let n = jobs.len();
        let mut i: usize = 0;
        while i < n
            invariant
                i <= n,
                n == jobs@.len(),
                fps@.len() == jobs@.len(),
                jv == job_views(jobs@),
                fv == fp_views(fps@),
                refv == crate::jobs::opt_view(*ref_name),
                ex0 == old(self).examined,
                sr0 == old(self).same_ref,
                self.pages_done == old(self).pages_done,
                old(self).pages_done < u32::MAX,
                scan_jobs(jv, fv, head@, job_name@, refv, 0, ex0, sr0) == scan_jobs(
                    jv,
                    fv,
                    head@,
                    job_name@,
                    refv,
                    i as int,
                    self.examined,
                    self.same_ref,
                ),
            decreases n - i,
        {
            let ghost ex_in = self.examined;
            let ghost sr_in = self.same_ref;
            let job = &jobs[i];
            proof {
                assert(jv[i as int] == jobs@[i as int]@);
                assert(fv[i as int] == crate::jobs::opt_view(fps@[i as int]));
            }
            let is_eligible = text::str_eq(job.name.as_str(), job_name.as_str()) && text::str_eq(
                job.status.as_str(),
                "success",
            );
            proof {
                assert(is_eligible == eligible(jv[i as int], job_name@));
            }
            if is_eligible {
                self.examined = if self.examined < u64::MAX {
                    self.examined + 1
                } else {
                    self.examined
                };
                let same = match ref_name {
                    Some(r) => text::str_eq(job.job_ref.as_str(), r.as_str()),
                    None => false,
                };
                proof {
                    assert(same == on_ref(jv[i as int], refv));
                }
                if same {
                    self.same_ref = if self.same_ref < u64::MAX {
                        self.same_ref + 1
                    } else {
                        self.same_ref
                    };
                }
                proof {
                    assert(self.examined == sat_inc(ex_in));
                    assert(self.same_ref == if on_ref(jv[i as int], refv) {
                        sat_inc(sr_in)
                    } else {
                        sr_in
                    });
                }
                let matched = match &fps[i] {
                    Some(fp) => text::str_eq(fp.as_str(), head.as_str()),
                    None => false,
                };
                proof {
                    assert(matched == (fv[i as int] == Some(head@)));
                }
                if matched {
                    proof {
                        assert(scan_jobs(jv, fv, head@, job_name@, refv, i as int, ex_in, sr_in)
                            == (PageScan::Found {
                            index: i as int,
                            examined: self.examined,
                            same_ref: self.same_ref,
                        }));
                    }
                    self.pages_done = self.pages_done + 1;
                    return Some(i);
                }
                proof {
                    assert(scan_jobs(jv, fv, head@, job_name@, refv, i as int, ex_in, sr_in)
                        == scan_jobs(
                        jv,
                        fv,
                        head@,
                        job_name@,
                        refv,
                        i + 1,
                        self.examined,
                        self.same_ref,
                    ));
                }
            } else {
                proof {
                    assert(scan_jobs(jv, fv, head@, job_name@, refv, i as int, ex_in, sr_in)
                        == scan_jobs(
                        jv,
                        fv,
                        head@,
                        job_name@,
                        refv,
                        i + 1,
                        self.examined,
                        self.same_ref,
                    ));
                }
            }
            i += 1;
        }
        self.pages_done = self.pages_done + 1;
        None
    }

    /// Scans one fetched page against the object store: each eligible
    /// candidate's fingerprint is computed over `paths` at its commit (a
    /// computation failure is a non-match, never an abort), and the first one
    /// equal to `head_tree` wins and is returned as a clone. The store's
    /// answers are not the library's to pin down; whatever they were, the
    /// outcome and the counters are those of [`scan_jobs`] under some
    /// fingerprint assignment, and a returned job is eligible.
    pub fn scan_page(
        &mut self,
        repo: &git2::Repository,
        head_tree: &String,
        paths: &Vec<String>,
        jobs: &Vec<GitlabJob>,
        job_name: &String,
        ref_name: &Option<String>,
    ) -> (r: Option<GitlabJob>)
        requires
            old(self).pages_done < u32::MAX,
        ensures
            final(self).pages_done == old(self).pages_done + 1,
            match r {
                Some(job) => {
                    &&& job@.name == job_name@
                    &&& job@.status == "success"@
                    &&& exists|fps: Seq<Option<Seq<char>>>, index: int|
                        {
                            &&& fps.len() == jobs@.len()
                            &&& 0 <= index < jobs@.len()
                            &&& job == jobs@[index]
                            &&& scan_jobs(
                                job_views(jobs@),
                                fps,
                                head_tree@,
                                job_name@,
                                crate::jobs::opt_view(*ref_name),
                                0,
                                old(self).examined,
                                old(self).same_ref,
                            ) == (PageScan::Found {
                                index,
                                examined: final(self).examined,
                                same_ref: final(self).same_ref,
                            })
                        }
                },
                None => exists|fps: Seq<Option<Seq<char>>>|
                    {
                        &&& fps.len() == jobs@.len()
                        &&& scan_jobs(
                            job_views(jobs@),
                            fps,
                            head_tree@,
                            job_name@,
                            crate::jobs::opt_view(*ref_name),
                            0,
                            old(self).examined,
                            old(self).same_ref,
                        ) == (PageScan::NoMatch {
                            examined: final(self).examined,
                            same_ref: final(self).same_ref,
                        })
                    },
            },
    {
        let ghost jv = job_views(jobs@);
        let ghost refv = crate::jobs::opt_view(*ref_name);
        let ghost ex0 = self.examined;
        let ghost sr0 = self.same_ref;
        let ghost mut fpsg: Seq<Option<Seq<char>>> = Seq::<Option<Seq<char>>>::empty();
        let n = jobs.len();
        let mut i: usize = 0;
        while i < n
            invariant
                i <= n,
                n == jobs@.len(),
                jv == job_views(jobs@),
                refv == crate::jobs::opt_view(*ref_name),
                ex0 == old(self).examined,
                sr0 == old(self).same_ref,
                self.pages_done == old(self).pages_done,
                old(self).pages_done < u32::MAX,
                fpsg.len() == i,
                forall|tail: Seq<Option<Seq<char>>>|
                    tail.len() == n - i ==> #[trigger] scan_jobs(
                        jv,
                        fpsg + tail,
                        head_tree@,
                        job_name@,
                        refv,
                        0,
                        ex0,
                        sr0,
                    ) == scan_jobs(
                        jv,
                        fpsg + tail,
                        head_tree@,
                        job_name@,
                        refv,
                        i as int,
                        self.examined,
                        self.same_ref,
                    ),
            decreases n - i,
        {
            let ghost ex_in = self.examined;
            let ghost sr_in = self.same_ref;
            let job = &jobs[i];
            proof {
                assert(jv[i as int] == jobs@[i as int]@);
            }
            let is_eligible = text::str_eq(job.name.as_str(), job_name.as_str()) && text::str_eq(
                job.status.as_str(),
                "success",
            );
            proof {
                assert(is_eligible == eligible(jv[i as int], job_name@));
            }
            let ghost mut fpv: Option<Seq<char>> = None;
            if is_eligible {
                self.examined = if self.examined < u64::MAX {
                    self.examined + 1
                } else {
                    self.examined
                };
                let same = match ref_name {
                    Some(rn) => text::str_eq(job.job_ref.as_str(), rn.as_str()),
                    None => false,
                };
                proof {
                    assert(same == on_ref(jv[i as int], refv));
                }
                if same {
                    self.same_ref = if self.same_ref < u64::MAX {
                        self.same_ref + 1
                    } else {
                        self.same_ref
                    };
                }
                proof {
                    assert(self.examined == sat_inc(ex_in));
                    assert(self.same_ref == if on_ref(jv[i as int], refv) {
                        sat_inc(sr_in)
                    } else {
                        sr_in
                    });
                }
                let mut matched = false;
                match git::get_tree_of_paths(repo, job.commit.id.as_str(), paths) {
                    Ok(t) => {
                        matched = text::str_eq(t.as_str(), head_tree.as_str());
                        proof {
                            fpv = Some(t@);
                        }
                    },
                    Err(_) => {},
                }
                proof {
                    assert(matched == (fpv == Some(head_tree@)));
                }
                if matched {
                    let found = job.clone();
                    proof {
                        let pad = Seq::new((n - i - 1) as nat, |j: int| None::<Seq<char>>);
                        let tail = seq![fpv] + pad;
                        let w = fpsg + tail;
                        assert(tail.len() == n - i);
                        assert(w[i as int] == fpv);
                        assert(scan_jobs(jv, w, head_tree@, job_name@, refv, 0, ex0, sr0)
                            == scan_jobs(
                            jv,
                            w,
                            head_tree@,
                            job_name@,
                            refv,
                            i as int,
                            ex_in,
                            sr_in,
                        ));
                        assert(scan_jobs(jv, w, head_tree@, job_name@, refv, i as int, ex_in, sr_in)
                            == (PageScan::Found {
                            index: i as int,
                            examined: self.examined,
                            same_ref: self.same_ref,
                        }));
                        assert(w.len() == jobs@.len());
                        assert(found == jobs@[i as int]);
                    }
                    self.pages_done = self.pages_done + 1;
                    return Some(found);
                }
            }
            proof {
                let fpsg_next = fpsg.push(fpv);
                assert forall|tail2: Seq<Option<Seq<char>>>| tail2.len() == n - (i + 1)
                    implies #[trigger] scan_jobs(
                    jv,
                    fpsg_next + tail2,
                    head_tree@,
                    job_name@,
                    refv,
                    0,
                    ex0,
                    sr0,
                ) == scan_jobs(
                    jv,
                    fpsg_next + tail2,
                    head_tree@,
                    job_name@,
                    refv,
                    i + 1,
                    self.examined,
                    self.same_ref,
                ) by {
                    let tail = seq![fpv] + tail2;
                    assert(tail.len() == n - i);
                    assert(fpsg_next + tail2 =~~= fpsg + tail);
                    assert(scan_jobs(jv, fpsg + tail, head_tree@, job_name@, refv, 0, ex0, sr0)
                        == scan_jobs(
                        jv,
                        fpsg + tail,
                        head_tree@,
                        job_name@,
                        refv,
                        i as int,
                        ex_in,
                        sr_in,
                    ));
                    assert((fpsg + tail)[i as int] == fpv);
                    assert(scan_jobs(
                        jv,
                        fpsg + tail,
                        head_tree@,
                        job_name@,
                        refv,
                        i as int,
                        ex_in,
                        sr_in,
                    ) == scan_jobs(
                        jv,
                        fpsg + tail,
                        head_tree@,
                        job_name@,
                        refv,
                        i + 1,
                        self.examined,
                        self.same_ref,
                    ));
                }
                fpsg = fpsg_next;
            }
            i += 1;
        }
        proof {
            assert(fpsg + Seq::<Option<Seq<char>>>::empty() =~~= fpsg);
            assert(scan_jobs(jv, fpsg, head_tree@, job_name@, refv, 0, ex0, sr0) == scan_jobs(
                jv,
                fpsg,
                head_tree@,
                job_name@,
                refv,
                n as int,
                self.examined,
                self.same_ref,
            ));
        }
        self.pages_done = self.pages_done + 1;
        None
    }
}

/// What the whole search decides over the pages the API would return, in
/// order, with `budget` pages left to fetch: the first page with a match ends
/// the search with that match; after a no-match page a tripped circuit
/// breaker ends it with nothing; running out of pages or budget ends it with
/// nothing.
pub open spec fn search_pages_spec(
    pages: Seq<Seq<JobView>>,
    fps: Seq<Seq<Option<Seq<char>>>>,
    head: Seq<char>,
    job_name: Seq<char>,
    ref_name: Option<Seq<char>>,
    budget: int,
    examined: u64,
    same_ref: u64,
    same_ref_max: u32,
    same_job_max: u32,
) -> Option<(int, int)>
    decreases pages.len(),
{
    if pages.len() == 0 || budget <= 0 {
        None
    } else {
        match scan_jobs(pages[0], fps[0], head, job_name, ref_name, 0, examined, same_ref) {
            PageScan::Found { index, .. } => Some((0, index)),
            PageScan::NoMatch { examined: ex, same_ref: sr } => {
                if bounds_exceeded(ex, sr, same_ref_max, same_job_max) {
                    None
                } else {
                    match search_pages_spec(
                        pages.skip(1),
                        fps.skip(1),
                        head,
                        job_name,
                        ref_name,
                        budget - 1,
                        ex,
                        sr,
                        same_ref_max,
                        same_job_max,
                    ) {
                        Some((p, j)) => Some((p + 1, j)),
                        None => None,
                    }
                }
            },
        }
    }
}

/// Law: across pages too, the first match wins. A search that returns a
/// position holds an eligible, fingerprint-matching candidate there, every
/// eligible candidate earlier in the same page mismatches, and every eligible
/// candidate on every earlier page mismatches.
pub proof fn lemma_search_first_match(
    pages: Seq<Seq<JobView>>,
    fps: Seq<Seq<Option<Seq<char>>>>,
    head: Seq<char>,
    job_name: Seq<char>,
    ref_name: Option<Seq<char>>,
    budget: int,
    examined: u64,
    same_ref: u64,
    same_ref_max: u32,
    same_job_max: u32,
)
    requires
        fps.len() == pages.len(),
    ensures
        match search_pages_spec(
            pages,
            fps,
            head,
            job_name,
            ref_name,
            budget,
            examined,
            same_ref,
            same_ref_max,
            same_job_max,
        ) {
            Some((p, j)) => {
                &&& 0 <= p < pages.len()
                &&& 0 <= j < pages[p].len()
                &&& eligible(pages[p][j], job_name)
                &&& fps[p][j] == Some(head)
                &&& forall|t: int|
                    0 <= t < j && eligible(#[trigger] pages[p][t], job_name) ==> fps[p][t] != Some(
                        head,
                    )
                &&& forall|q: int, t: int|
                    0 <= q < p && 0 <= t < pages[q].len() && eligible(
                        #[trigger] pages[q][t],
                        job_name,
                    ) ==> fps[q][t] != Some(head)
            },
            None => true,
        },
    decreases pages.len(),
{
    if pages.len() > 0 && budget > 0 {
        lemma_scan_first_match(pages[0], fps[0], head, job_name, ref_name, 0, examined, same_ref);
        match scan_jobs(pages[0], fps[0], head, job_name, ref_name, 0, examined, same_ref) {
            PageScan::Found { .. } => {},
            PageScan::NoMatch { examined: ex2, same_ref: sr2 } => {
                if !bounds_exceeded(ex2, sr2, same_ref_max, same_job_max) {
                    lemma_search_first_match(
                        pages.skip(1),
                        fps.skip(1),
                        head,
                        job_name,
                        ref_name,
                        budget - 1,
                        ex2,
                        sr2,
                        same_ref_max,
                        same_job_max,
                    );
                    match search_pages_spec(
                        pages.skip(1),
                        fps.skip(1),
                        head,
                        job_name,
                        ref_name,
                        budget - 1,
                        ex2,
                        sr2,
                        same_ref_max,
                        same_job_max,
                    ) {
                        Some((p0, j0)) => {
                            assert(pages.skip(1)[p0] == pages[p0 + 1]);
                            assert(fps.skip(1)[p0] == fps[p0 + 1]);
                            assert forall|q: int, t: int|
                                0 <= q < p0 + 1 && 0 <= t < pages[q].len() && eligible(
                                    #[trigger] pages[q][t],
                                    job_name,
                                ) implies fps[q][t] != Some(head) by {
                                if q > 0 {
                                    assert(pages.skip(1)[q - 1] == pages[q]);
                                    assert(fps.skip(1)[q - 1] == fps[q]);
                                }
                            }
                        },
                        None => {},
                    }
                }
            },
        }
    }
}

/// The views of the fetched pages.
pub open spec fn page_views(pages: Seq<Vec<GitlabJob>>) -> Seq<Seq<JobView>> {
    Seq::new(pages.len(), |p: int| job_views(pages[p]@))
}

/// The views of the fetched pages' candidate fingerprints.
pub open spec fn page_fp_views(fps: Seq<Vec<Option<String>>>) -> Seq<Seq<Option<Seq<char>>>> {
    Seq::new(fps.len(), |p: int| fp_views(fps[p]@))
}

/// Runs the whole search over pages that are already fetched, with their
/// candidate fingerprints already computed: at most `page_to_fetch_max` pages
/// are scanned in order, and the result is the page and position of the first
/// match, exactly as [`search_pages_spec`] says. The live search is driven
/// the same way, one page fetch per [`SearchState::page_to_fetch`] and one
/// [`SearchState::scan_page`] per fetched page.
pub fn search_pages(
    pages: &Vec<Vec<GitlabJob>>,
    fps: &Vec<Vec<Option<String>>>,
    head: &String,
    job_name: &String,
    ref_name: &Option<String>,
    page_to_fetch_max: u32,
    same_ref_max: u32,
    same_job_max: u32,
) -> (r: Option<(usize, usize)>)
    requires
        fps@.len() == pages@.len(),
        forall|p: int| 0 <= p < pages@.len() ==> #[trigger] fps@[p]@.len() == pages@[p]@.len(),
    ensures
        ({
            let goal = search_pages_spec(
                page_views(pages@),
                page_fp_views(fps@),
                head@,
                job_name@,
                crate::jobs::opt_view(*ref_name),
                page_to_fetch_max as int,
                0,
                0,
                same_ref_max,
                same_job_max,
            );
            match r {
                Some((p, j)) => goal == Some((p as int, j as int)),
                None => goal is None,
            }
        }),
{
    let ghost pv = page_views(pages@);
    let ghost fv = page_fp_views(fps@);
    let ghost refv = crate::jobs::opt_view(*ref_name);
    let ghost goal = search_pages_spec(
        pv,
        fv,
        head@,
        job_name@,
        refv,
        page_to_fetch_max as int,
        0,
        0,
        same_ref_max,
        same_job_max,
    );
    let mut state = SearchState::new();
    let n = pages.len();
    let mut p: usize = 0;
    proof {
        assert(pv.skip(0) =~~= pv);
        assert(fv.skip(0) =~~= fv);
    }
    while p < n && p < page_to_fetch_max as usize
        invariant
            p <= n,
            n == pages@.len(),
            fps@.len() == pages@.len(),
            forall|q: int| 0 <= q < pages@.len() ==> #[trigger] fps@[q]@.len() == pages@[q]@.len(),
            pv == page_views(pages@),
            fv == page_fp_views(fps@),
            refv == crate::jobs::opt_view(*ref_name),
            p <= page_to_fetch_max as usize,
            state.pages_done == p,
            goal == search_pages_spec(
                pv,
                fv,
                head@,
                job_name@,
                refv,
                page_to_fetch_max as int,
                0,
                0,
                same_ref_max,
                same_job_max,
            ),
            ({
                let rest = search_pages_spec(
                    pv.skip(p as int),
                    fv.skip(p as int),
                    head@,
                    job_name@,
                    refv,
                    page_to_fetch_max - p,
                    state.examined,
                    state.same_ref,
                    same_ref_max,
                    same_job_max,
                );
                match rest {
                    Some((q, j)) => goal == Some((q + p, j)),
                    None => goal is None,
                }
            }),
        decreases n - p,
    {
        let ghost ex_in = state.examined;
        let ghost sr_in = state.same_ref;
        proof {
            assert(pv.skip(p as int)[0] == job_views(pages@[p as int]@));
            assert(fv.skip(p as int)[0] == fp_views(fps@[p as int]@));
        }
        let found = state.scan_page_with(&pages[p], &fps[p], head, job_name, ref_name);
        match found {
            Some(j) => {
                return Some((p, j));
            },
            None => {
                if state.bounds_exceeded(same_ref_max, same_job_max) {
                    return None;
                }
            },
        }
        proof {
            assert(pv.skip(p as int).skip(1) =~~= pv.skip(p + 1));
            assert(fv.skip(p as int).skip(1) =~~= fv.skip(p + 1));
        }
        p += 1;
    }
    proof {
        if p >= n {
            assert(pv.skip(p as int) =~~= Seq::<Seq<JobView>>::empty());
        }
    }
    None
}

} // verus!
