use vstd::prelude::*;
use crate::kind::FileKind;
use crate::path::PathParts;

verus! {

/// One classified filesystem object.
pub struct Entry {
    pub path: PathParts,
    pub kind: FileKind,
}

/// Why the classifier could not produce an entry for some path.
pub struct ScanError {
    pub message: String,
}

/// The entries of a scan result sequence that did not fail, in order.
pub open spec fn successful(scan: Seq<Result<Entry, ScanError>>) -> Seq<Entry>
    decreases scan.len(),
{
    if scan.len() == 0 {
        Seq::empty()
    } else {
        let rest = successful(scan.drop_last());
        match scan.last() {
            Ok(e) => rest.push(e),
            Err(_) => rest,
        }
    }
}

/// The number of results of a scan that did not fail.
pub open spec fn success_count(scan: Seq<Result<Entry, ScanError>>) -> nat {
    scan.filter(|r: Result<Entry, ScanError>| r is Ok).len()
}

/// What one entry adds to the artefact size: its measured size when it is
/// temporary and could be measured, else nothing.
pub open spec fn contribution(e: Entry, size: Option<u64>) -> int {
    if e.kind == FileKind::Temporary {
        match size {
            Some(n) => n as int,
            None => 0,
        }
    } else {
        0
    }
}

/// The sum of the sizes of the temporary entries of `files`, where `sizes[i]`
/// is what measuring `files[i]` gave (`None`: it could not be measured).
pub open spec fn artefact_total(files: Seq<Entry>, sizes: Seq<Option<u64>>) -> int
    decreases files.len(),
{
    if files.len() == 0 || sizes.len() == 0 {
        0
    } else {
        artefact_total(files.drop_last(), sizes.drop_last()) + contribution(files.last(), sizes.last())
    }
}

/// A byte count as a `u64`, held at `u64::MAX` when it does not fit.
pub open spec fn capped(n: int) -> u64 {
    if n > u64::MAX {
        u64::MAX
    } else {
        n as u64
    }
}

/// `sizes` is a possible outcome of measuring the temporary entries of `files`
/// with `metadata_len`: one slot per entry, filled for temporary entries only.
pub open spec fn measured_by<F: Fn(&PathParts) -> Option<u64>>(
    metadata_len: F,
    files: Seq<Entry>,
    sizes: Seq<Option<u64>>,
) -> bool {
    &&& sizes.len() == files.len()
    &&& forall|i: int|
        0 <= i < files.len() ==> if files[i].kind == FileKind::Temporary {
            metadata_len.ensures((&files[i].path,), sizes[i])
        } else {
            sizes[i] is None
        }
}

/// A scanned project: its root, its classified entries, and the total size of
/// its temporary artefacts once that has been measured.
pub struct Project {
    path: PathParts,
    files: Vec<Entry>,
    artefacts_sizes: Option<u64>,
}

impl Project {
    pub closed spec fn spec_path(self) -> PathParts {
        self.path
    }

    pub closed spec fn spec_files(self) -> Seq<Entry> {
        self.files@
    }

    pub closed spec fn spec_artefacts_sizes(self) -> Option<u64> {
        self.artefacts_sizes
    }

    /// Builds a project rooted at `base_path` from what the classifier yielded
    /// under it: failed results are dropped, the others kept in order, and no
    /// size has been measured yet.
    pub fn from_c_project_path(base_path: PathParts, scan: Vec<Result<Entry, ScanError>>) -> (r: Project)
        ensures
            r.spec_path() == base_path,
            r.spec_files() == successful(scan@),
            r.spec_artefacts_sizes() is None,
    {
        let ghost all = scan@;
        let mut files: Vec<Entry> = Vec::new();
        for item in it: scan.into_iter()
            invariant
                it.seq() == all,
                files@ == successful(all.subrange(0, it.index() as int)),
        {
            proof {
                assert(all.subrange(0, it.index() + 1).drop_last() == all.subrange(0, it.index() as int));
            }
            match item {
                Ok(e) => files.push(e),
                Err(_) => {},
            }
        }
        proof {
            assert(all.subrange(0, all.len() as int) == all);
        }
        Project { path: base_path, files, artefacts_sizes: None }
    }

    /// The scan root.
    pub fn path(&self) -> (r: &PathParts)
        ensures
            *r == self.spec_path(),
    {
        &self.path
    }

    /// The classified entries, in the order the classifier yielded them.
    pub fn files(&self) -> (r: &Vec<Entry>)
        ensures
            r@ == self.spec_files(),
    {
        &self.files
    }

    /// The measured artefact size, once it has been computed.
    pub fn artefacts_sizes(&self) -> (r: Option<u64>)
        ensures
            r == self.spec_artefacts_sizes(),
    {
        self.artefacts_sizes
    }

    /// Sums the sizes of the temporary entries and stores the sum as the
    /// project's artefact size. `sizes[i]` is what measuring `files[i]` gave;
    /// entries of other kinds and unmeasurable ones add nothing.
    pub fn compute_artefacts_sizes(&mut self, sizes: &Vec<Option<u64>>) -> (r: u64)
        requires
            old(self).spec_artefacts_sizes() is None,
            sizes@.len() == old(self).spec_files().len(),
        ensures
            r == capped(artefact_total(old(self).spec_files(), sizes@)),
            final(self).spec_artefacts_sizes() == Some(r),
            final(self).spec_path() == old(self).spec_path(),
            final(self).spec_files() == old(self).spec_files(),
    {
        let mut sum: u64 = 0;
        let mut i: usize = 0;
        while i < self.files.len()
            invariant
                i <= self.files@.len() == sizes@.len(),
                sum == capped(artefact_total(self.files@.subrange(0, i as int), sizes@.subrange(0, i as int))),
            decreases self.files@.len() - i,
        {
            proof {
                let fs = self.files@.subrange(0, i + 1);
                let ss = sizes@.subrange(0, i + 1);
                assert(fs.drop_last() == self.files@.subrange(0, i as int));
                assert(ss.drop_last() == sizes@.subrange(0, i as int));
                lemma_artefact_total_nonneg(fs.drop_last(), ss.drop_last());
            }
            if self.files[i].kind == FileKind::Temporary {
                match sizes[i] {
                    Some(n) => {
                        sum = sum.saturating_add(n);
                    },
                    None => {},
                }
            }
            i = i + 1;
        }
        proof {
            assert(self.files@.subrange(0, i as int) == self.files@);
            assert(sizes@.subrange(0, i as int) == sizes@);
        }
        self.artefacts_sizes = Some(sum);
        sum
    }

    /// Measures each temporary entry once with `metadata_len`, in entry order.
    fn measure_temporaries<F: Fn(&PathParts) -> Option<u64>>(&self, metadata_len: &F) -> (r: Vec<Option<u64>>)
        requires
            forall|p: &PathParts| metadata_len.requires((p,)),
        ensures
            measured_by(*metadata_len, self.spec_files(), r@),
    {
        let mut sizes: Vec<Option<u64>> = Vec::new();
        let mut i: usize = 0;
        while i < self.files.len()
            invariant
                i <= self.files@.len(),
                forall|p: &PathParts| metadata_len.requires((p,)),
                measured_by(*metadata_len, self.files@.subrange(0, i as int), sizes@),
            decreases self.files@.len() - i,
        {
            if self.files[i].kind == FileKind::Temporary {
                let n = metadata_len(&self.files[i].path);
                sizes.push(n);
            } else {
                sizes.push(None);
            }
            i = i + 1;
        }
        proof {
            assert(self.files@.subrange(0, i as int) == self.files@);
        }
        sizes
    }

    /// The total size of the temporary artefacts. The first call measures the
    /// temporary entries with `metadata_len` and stores the sum; every later
    /// call returns the stored sum and measures nothing.
    pub fn get_or_compute_artefact_sizes<F: Fn(&PathParts) -> Option<u64>>(&mut self, metadata_len: F) -> (r: u64)
        requires
            forall|p: &PathParts| metadata_len.requires((p,)),
        ensures
            final(self).spec_artefacts_sizes() == Some(r),
            final(self).spec_path() == old(self).spec_path(),
            final(self).spec_files() == old(self).spec_files(),
            old(self).spec_artefacts_sizes() is Some ==> answered_from_cache(*old(self), *final(self), r),
            old(self).spec_artefacts_sizes() is None ==> exists|sizes: Seq<Option<u64>>|
                measured_by(metadata_len, old(self).spec_files(), sizes)
                    && r == capped(artefact_total(old(self).spec_files(), sizes)),
    {
        match self.artefacts_sizes {
            Some(v) => v,
            None => {
                let sizes = self.measure_temporaries(&metadata_len);
                self.compute_artefacts_sizes(&sizes)
            },
        }
    }
}

/// The query was answered from the stored size, leaving the project as it was.
pub open spec fn answered_from_cache(before: Project, after: Project, r: u64) -> bool {
    before.spec_artefacts_sizes() == Some(r) && after == before
}

/// A project holds exactly one entry per classifier result that did not fail.
pub proof fn lemma_entries_are_successes(scan: Seq<Result<Entry, ScanError>>)
    ensures
        successful(scan).len() == success_count(scan),
    decreases scan.len(),
{
    reveal(Seq::filter);
    if scan.len() > 0 {
        lemma_entries_are_successes(scan.drop_last());
    }
}

/// Asking for the artefact size twice in a row gives the same value, and the
/// second query leaves the project untouched (so nothing is measured again):
/// `first` and `second` are the states after each call, `r1` and `r2` what
/// each call returned.
pub proof fn lemma_second_query_uses_cache(first: Project, r1: u64, second: Project, r2: u64)
    requires
        first.spec_artefacts_sizes() == Some(r1),
        first.spec_artefacts_sizes() is Some ==> answered_from_cache(first, second, r2),
    ensures
        r2 == r1,
        second == first,
{
}

/// Only temporary entries count towards the artefact size: two measurements
/// that agree on the temporary entries give the same total, whatever they say
/// of the other entries.
pub proof fn lemma_other_kinds_never_contribute(files: Seq<Entry>, s1: Seq<Option<u64>>, s2: Seq<Option<u64>>)
    requires
        s1.len() == files.len(),
        s2.len() == files.len(),
        forall|i: int| 0 <= i < files.len() && files[i].kind == FileKind::Temporary ==> s1[i] == s2[i],
    ensures
        artefact_total(files, s1) == artefact_total(files, s2),
    decreases files.len(),
{
    if files.len() > 0 {
        lemma_other_kinds_never_contribute(files.drop_last(), s1.drop_last(), s2.drop_last());
    }
}

proof fn lemma_artefact_total_nonneg(files: Seq<Entry>, sizes: Seq<Option<u64>>)
    ensures
        artefact_total(files, sizes) >= 0,
    decreases files.len(),
{
    if files.len() > 0 && sizes.len() > 0 {
        lemma_artefact_total_nonneg(files.drop_last(), sizes.drop_last());
    }
}

} // verus!
