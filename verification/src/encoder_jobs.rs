use vstd::prelude::*;

verus! {

/// Whether no file ID stands twice in the list.
pub open spec fn job_ids_distinct<T>(s: Seq<(String, T)>) -> bool {
    forall|i: int, j: int| 0 <= i < j < s.len() ==> s[i].0@ != s[j].0@
}

/// Whether the list has a job for the file `k`.
pub open spec fn has_job<T>(s: Seq<(String, T)>, k: Seq<char>) -> bool {
    exists|i: int| 0 <= i < s.len() && (#[trigger] s[i]).0@ == k
}

/// The jobs of a list, by file ID.
pub open spec fn job_map<T>(s: Seq<(String, T)>) -> Map<Seq<char>, T> {
    Map::new(
        |k: Seq<char>| has_job(s, k),
        |k: Seq<char>| s[choose|i: int| 0 <= i < s.len() && (#[trigger] s[i]).0@ == k].1,
    )
}

/// In a list without repeated IDs, the job of an entry's file is that entry's.
proof fn lemma_job_at<T>(s: Seq<(String, T)>, i: int)
    requires
        job_ids_distinct(s),
        0 <= i < s.len(),
    ensures
        job_map(s).contains_key(s[i].0@),
        job_map(s)[s[i].0@] == s[i].1,
{
    let k = s[i].0@;
    assert(has_job(s, k));
    let j = choose|j: int| 0 <= j < s.len() && (#[trigger] s[j]).0@ == k;
    if j != i {
        if j < i {
            assert(s[j].0@ != s[i].0@);
        } else {
            assert(s[i].0@ != s[j].0@);
        }
    }
}

fn job_index<T>(jobs: &Vec<(String, T)>, file_id: &String) -> (r: Option<usize>)
    ensures
        match r {
            Some(i) => i < jobs@.len() && jobs@[i as int].0@ == file_id@,
            None => !has_job(jobs@, file_id@),
        },
{
    let mut i: usize = 0;
    while i < jobs.len()
        invariant
            i <= jobs@.len(),
            forall|j: int| 0 <= j < i ==> (#[trigger] jobs@[j]).0@ != file_id@,
        decreases jobs@.len() - i,
    {
        if jobs[i].0 == *file_id {
            return Some(i);
        }
        i = i + 1;
    }
    None
}

/// The files being encoded, each with the handle of its job (such as the token
/// that cancels it): at most one job for each file.
pub struct ActiveJobs<T> {
    jobs: Vec<(String, T)>,
}

impl<T> View for ActiveJobs<T> {
    type V = Map<Seq<char>, T>;

    closed spec fn view(&self) -> Map<Seq<char>, T> {
        job_map(self.jobs@)
    }
}

impl<T> ActiveJobs<T> {
    #[verifier::type_invariant]
    spec fn wf(&self) -> bool {
        job_ids_distinct(self.jobs@)
    }

    /// No job.
    pub fn new() -> (r: Self)
        ensures
            r@ == Map::<Seq<char>, T>::empty(),
    {
        let r = ActiveJobs { jobs: Vec::new() };
        assert(job_map(r.jobs@) =~= Map::<Seq<char>, T>::empty());
        r
    }

    /// The handle of the job of the file `file_id`, if one runs.
    pub fn job(&self, file_id: &str) -> (r: Option<&T>)
        ensures
            match r {
                Some(t) => self@.contains_key(file_id@) && *t == self@[file_id@],
                None => !self@.contains_key(file_id@),
            },
    {
        proof {
            use_type_invariant(self);
        }
        let id = file_id.to_owned();
        match job_index(&self.jobs, &id) {
            Some(i) => {
                proof {
                    lemma_job_at(self.jobs@, i as int);
                }
                Some(&self.jobs[i].1)
            },
            None => None,
        }
    }

    /// Starts a job for the file `file_id` unless one runs for it already:
    /// returns whether it started. A file is never encoded twice at once.
    pub fn begin_job(&mut self, file_id: &str, job: T) -> (r: bool)
        ensures
            r == !old(self)@.contains_key(file_id@),
            final(self)@ == if r {
                old(self)@.insert(file_id@, job)
            } else {
                old(self)@
            },
    {
        proof {
            use_type_invariant(&*self);
        }
        let id = file_id.to_owned();
        if let Some(i) = job_index(&self.jobs, &id) {
            proof {
                lemma_job_at(self.jobs@, i as int);
            }
            return false;
        }
        let mut jobs: Vec<(String, T)> = Vec::new();
        std::mem::swap(&mut jobs, &mut self.jobs);
        let ghost old_jobs = jobs@;
        jobs.push((id, job));
        proof {
            let new_jobs = jobs@;
            assert forall|a: int, b: int| 0 <= a < b < new_jobs.len() implies new_jobs[a].0@ != new_jobs[b].0@ by {
                if b < old_jobs.len() {
                    assert(old_jobs[a].0@ != old_jobs[b].0@);
                } else {
                    assert(new_jobs[a] == old_jobs[a]);
                    assert(!(old_jobs[a].0@ == file_id@));
                }
            }
            let target = job_map(old_jobs).insert(file_id@, job);
            assert forall|k: Seq<char>| #[trigger] job_map(new_jobs).contains_key(k) <==> target.contains_key(k) by {
                if has_job(new_jobs, k) {
                    let i = choose|i: int| 0 <= i < new_jobs.len() && (#[trigger] new_jobs[i]).0@ == k;
                    if i < old_jobs.len() {
                        assert(old_jobs[i] == new_jobs[i]);
                    }
                }
                if has_job(old_jobs, k) {
                    let i = choose|i: int| 0 <= i < old_jobs.len() && (#[trigger] old_jobs[i]).0@ == k;
                    assert(new_jobs[i] == old_jobs[i]);
                }
                if k == file_id@ {
                    assert(new_jobs[old_jobs.len() as int].0@ == k);
                }
            }
            assert forall|k: Seq<char>| job_map(new_jobs).contains_key(k) implies job_map(new_jobs)[k]
                == target[k] by {
                let i = choose|i: int| 0 <= i < new_jobs.len() && (#[trigger] new_jobs[i]).0@ == k;
                lemma_job_at(new_jobs, i);
                if i < old_jobs.len() {
                    assert(old_jobs[i] == new_jobs[i]);
                    lemma_job_at(old_jobs, i);
                }
            }
            assert(job_map(new_jobs) =~= target);
        }
        self.jobs = jobs;
        true
    }

    /// Ends the job of the file `file_id`, once its encoding is over.
    pub fn end_job(&mut self, file_id: &str)
        ensures
            final(self)@ == old(self)@.remove(file_id@),
    {
        proof {
            use_type_invariant(&*self);
        }
        let id = file_id.to_owned();
        match job_index(&self.jobs, &id) {
            None => {
                assert(job_map(self.jobs@) =~= job_map(self.jobs@).remove(file_id@));
            },
            Some(i) => {
                let mut jobs: Vec<(String, T)> = Vec::new();
                std::mem::swap(&mut jobs, &mut self.jobs);
                let ghost old_jobs = jobs@;
                let _ = jobs.remove(i);
                proof {
                    let new_jobs = jobs@;
                    assert(new_jobs =~= old_jobs.remove(i as int));
                    assert forall|a: int, b: int| 0 <= a < b < new_jobs.len() implies new_jobs[a].0@
                        != new_jobs[b].0@ by {
                        let oa = if a < i { a } else { a + 1 };
                        let ob = if b < i { b } else { b + 1 };
                        assert(new_jobs[a] == old_jobs[oa]);
                        assert(new_jobs[b] == old_jobs[ob]);
                        assert(old_jobs[oa].0@ != old_jobs[ob].0@);
                    }
                    let target = job_map(old_jobs).remove(file_id@);
                    assert forall|k: Seq<char>| #[trigger] job_map(new_jobs).contains_key(k) <==> target.contains_key(
                        k,
                    ) by {
                        if has_job(new_jobs, k) {
                            let a = choose|a: int| 0 <= a < new_jobs.len() && (#[trigger] new_jobs[a]).0@ == k;
                            let oa = if a < i { a } else { a + 1 };
                            assert(new_jobs[a] == old_jobs[oa]);
                            if k == file_id@ {
                                if oa < i {
                                    assert(old_jobs[oa].0@ != old_jobs[i as int].0@);
                                } else {
                                    assert(old_jobs[i as int].0@ != old_jobs[oa].0@);
                                }
                            }
                        }
                        if has_job(old_jobs, k) && k != file_id@ {
                            let o = choose|o: int| 0 <= o < old_jobs.len() && (#[trigger] old_jobs[o]).0@ == k;
                            let a = if o < i { o } else { o - 1 };
                            assert(o != i);
                            assert(new_jobs[a] == old_jobs[o]);
                        }
                    }
                    assert forall|k: Seq<char>| job_map(new_jobs).contains_key(k) implies job_map(new_jobs)[k]
                        == target[k] by {
                        let a = choose|a: int| 0 <= a < new_jobs.len() && (#[trigger] new_jobs[a]).0@ == k;
                        let oa = if a < i { a } else { a + 1 };
                        assert(new_jobs[a] == old_jobs[oa]);
                        lemma_job_at(new_jobs, a);
                        lemma_job_at(old_jobs, oa);
                    }
                    assert(job_map(new_jobs) =~= target);
                }
                self.jobs = jobs;
            },
        }
    }
}

} // verus!
