use vstd::prelude::*;

verus! {

/// The role of a scanned file.
#[derive(Debug, PartialEq, Eq, Structural, Copy, Clone)]
pub enum FileKind {
    Source,
    Deliverable,
    Temporary,
    Other,
}

impl FileKind {
    /// The canonical label of the kind: the variant's name.
    pub open spec fn spec_label(self) -> Seq<char> {
        match self {
            FileKind::Source => "Source"@,
            FileKind::Deliverable => "Deliverable"@,
            FileKind::Temporary => "Temporary"@,
            FileKind::Other => "Other"@,
        }
    }

    /// Build byproducts and build outputs: the kinds that the reports list.
    pub open spec fn is_reported(self) -> bool {
        self == FileKind::Temporary || self == FileKind::Deliverable
    }

    pub fn label(&self) -> (r: &'static str)
        ensures
            r@ == self.spec_label(),
    {
        match self {
            FileKind::Source => "Source",
            FileKind::Deliverable => "Deliverable",
            FileKind::Temporary => "Temporary",
            FileKind::Other => "Other",
        }
    }
}

} // verus!
