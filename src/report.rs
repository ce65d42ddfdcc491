use vstd::prelude::*;
use crate::kind::FileKind;
use crate::path::{PathParts, is_under, joined, relative_display, spec_display, spec_strip_prefix};
use crate::project::{Entry, Project, artefact_total, capped, measured_by};
use crate::text::{decimal, decimal_text, push_str};

verus! {

/// The number of entries of `files` of kind `k`.
pub open spec fn count_kind(files: Seq<Entry>, k: FileKind) -> nat
    decreases files.len(),
{
    if files.len() == 0 {
        0
    } else {
        count_kind(files.drop_last(), k) + if files.last().kind == k { 1nat } else { 0nat }
    }
}

/// The number of entries of `files` that the listing is about.
pub open spec fn reported_count(files: Seq<Entry>) -> nat {
    count_kind(files, FileKind::Temporary) + count_kind(files, FileKind::Deliverable)
}

/// The listing line of an entry, given its path relative to the root.
pub open spec fn listing_line(rel: Seq<Seq<char>>, k: FileKind) -> Seq<char> {
    "- "@ + joined(rel) + " "@ + k.spec_label()
}

/// The detailed listing: one line per temporary or deliverable entry that
/// lies under `root`, in entry order.
pub open spec fn listing(root: PathParts, files: Seq<Entry>) -> Seq<Seq<char>>
    decreases files.len(),
{
    if files.len() == 0 {
        Seq::empty()
    } else {
        let rest = listing(root, files.drop_last());
        let e = files.last();
        if e.kind.is_reported() {
            match spec_strip_prefix(e.path, root) {
                Some(rel) => rest.push(listing_line(rel, e.kind)),
                None => rest,
            }
        } else {
            rest
        }
    }
}

/// The summary: root, temporary and deliverable counts, artefact size.
pub open spec fn summary(root: PathParts, files: Seq<Entry>, size: u64) -> Seq<Seq<char>> {
    seq![
        "- Project "@ + spec_display(root),
        "    - "@ + decimal(count_kind(files, FileKind::Temporary)) + " temporary files"@,
        "    - "@ + decimal(count_kind(files, FileKind::Deliverable)) + " deliverable files"@,
        "    - size of artefacts "@ + decimal(size as nat) + " "@,
    ]
}

/// The character sequences of some strings.
pub open spec fn texts(v: Seq<String>) -> Seq<Seq<char>> {
    v.map_values(|s: String| s@)
}

proof fn lemma_count_kind_bound(files: Seq<Entry>, k: FileKind)
    ensures
        count_kind(files, k) <= files.len(),
    decreases files.len(),
{
    if files.len() > 0 {
        lemma_count_kind_bound(files.drop_last(), k);
    }
}

/// When every entry lies under the root, the listing has exactly one line per
/// temporary or deliverable entry, and none for the others.
pub proof fn lemma_listing_one_line_per_reported(root: PathParts, files: Seq<Entry>)
    requires
        forall|i: int| 0 <= i < files.len() ==> is_under(#[trigger] files[i].path, root),
    ensures
        listing(root, files).len() == reported_count(files),
    decreases files.len(),
{
    if files.len() > 0 {
        let init = files.drop_last();
        assert forall|i: int| 0 <= i < init.len() implies is_under(#[trigger] init[i].path, root) by {
            assert(init[i] == files[i]);
        }
        lemma_listing_one_line_per_reported(root, init);
        assert(is_under(files[files.len() - 1].path, root));
    }
}

fn concat3(a: &str, b: &str, c: &str) -> (r: String)
    ensures
        r@ == a@ + b@ + c@,
{
    let mut r = String::new();
    push_str(&mut r, a);
    push_str(&mut r, b);
    push_str(&mut r, c);
    r
}

impl Project {
    /// The number of entries of kind `k`.
    pub fn count_kind(&self, k: FileKind) -> (r: usize)
        ensures
            r == count_kind(self.spec_files(), k),
    {
        let files = self.files();
        let mut n: usize = 0;
        let mut i: usize = 0;
        while i < files.len()
            invariant
                i <= files@.len(),
                files@ == self.spec_files(),
                n == count_kind(files@.subrange(0, i as int), k),
            decreases files@.len() - i,
        {
            proof {
                let fs = files@.subrange(0, i + 1);
                assert(fs.drop_last() == files@.subrange(0, i as int));
                lemma_count_kind_bound(fs.drop_last(), k);
            }
            if files[i].kind == k {
                n = n + 1;
            }
            i = i + 1;
        }
        proof {
            assert(files@.subrange(0, i as int) == files@);
        }
        n
    }

    /// The detailed listing, one line per temporary or deliverable entry,
    /// `- <path relative to the root> <kind>`; an entry that does not lie
    /// under the root is left out.
    pub fn temp_and_deliverables_lines(&self) -> (r: Vec<String>)
        ensures
            texts(r@) == listing(self.spec_path(), self.spec_files()),
    {
        let files = self.files();
        let root = self.path();
        let mut lines: Vec<String> = Vec::new();
        let mut i: usize = 0;
        while i < files.len()
            invariant
                i <= files@.len(),
                files@ == self.spec_files(),
                *root == self.spec_path(),
                texts(lines@) == listing(*root, files@.subrange(0, i as int)),
            decreases files@.len() - i,
        {
            let ghost before = lines@;
            proof {
                assert(files@.subrange(0, i + 1).drop_last() == files@.subrange(0, i as int));
            }
            let e = &files[i];
            if e.kind == FileKind::Temporary || e.kind == FileKind::Deliverable {
                match relative_display(&e.path, root) {
                    Some(rel) => {
                        let line = concat3("- ", rel.as_str(), " ");
                        let mut line = line;
                        push_str(&mut line, e.kind.label());
                        lines.push(line);
                        proof {
                            assert(texts(lines@) == texts(before).push(line@));
                        }
                    },
                    None => {},
                }
            }
            i = i + 1;
        }
        proof {
            assert(files@.subrange(0, i as int) == files@);
        }
        lines
    }

    /// The summary report. Measures the artefacts with `metadata_len` unless
    /// their size is already known, as `get_or_compute_artefact_sizes` does.
    pub fn summary_lines<F: Fn(&PathParts) -> Option<u64>>(&mut self, metadata_len: F) -> (r: Vec<String>)
        requires
            forall|p: &PathParts| metadata_len.requires((p,)),
        ensures
            final(self).spec_artefacts_sizes() is Some,
            texts(r@) == summary(old(self).spec_path(), old(self).spec_files(),
                final(self).spec_artefacts_sizes().unwrap()),
            final(self).spec_path() == old(self).spec_path(),
            final(self).spec_files() == old(self).spec_files(),
            old(self).spec_artefacts_sizes() is Some ==> *final(self) == *old(self),
            old(self).spec_artefacts_sizes() is None ==> exists|sizes: Seq<Option<u64>>|
                measured_by(metadata_len, old(self).spec_files(), sizes)
                    && final(self).spec_artefacts_sizes() == Some(
                    capped(artefact_total(old(self).spec_files(), sizes)),
                ),
    {
        let n_temporary = self.count_kind(FileKind::Temporary);
        let n_deliverable = self.count_kind(FileKind::Deliverable);
        proof {
            lemma_count_kind_bound(self.spec_files(), FileKind::Temporary);
            lemma_count_kind_bound(self.spec_files(), FileKind::Deliverable);
        }
        let size = self.get_or_compute_artefact_sizes(metadata_len);
        let root = self.path().display();
        let mut header = String::new();
        push_str(&mut header, "- Project ");
        push_str(&mut header, root.as_str());
        let t = decimal_text(n_temporary as u64);
        let d = decimal_text(n_deliverable as u64);
        let z = decimal_text(size);
        let mut lines: Vec<String> = Vec::new();
        lines.push(header);
        lines.push(concat3("    - ", t.as_str(), " temporary files"));
        lines.push(concat3("    - ", d.as_str(), " deliverable files"));
        lines.push(concat3("    - size of artefacts ", z.as_str(), " "));
        proof {
            assert(texts(lines@) == summary(old(self).spec_path(), old(self).spec_files(), size));
        }
        lines
    }
}

} // verus!
