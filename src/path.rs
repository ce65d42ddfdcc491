use vstd::prelude::*;
use crate::text::push_str;

verus! {

/// A filesystem path as its normal components, with a flag for a leading root.
pub struct PathParts {
    pub absolute: bool,
    pub parts: Vec<String>,
}

impl PathParts {
    /// The components as character sequences.
    pub open spec fn components(self) -> Seq<Seq<char>> {
        self.parts@.map_values(|s: String| s@)
    }
}

/// `base` is a leading run of components of `path`, with the same rootedness.
pub open spec fn is_under(path: PathParts, base: PathParts) -> bool {
    &&& path.absolute == base.absolute
    &&& base.components().len() <= path.components().len()
    &&& path.components().subrange(0, base.components().len() as int) == base.components()
}

/// The components of `path` that follow `base`, when `path` lies under `base`.
pub open spec fn spec_strip_prefix(path: PathParts, base: PathParts) -> Option<Seq<Seq<char>>> {
    if is_under(path, base) {
        Some(path.components().subrange(base.components().len() as int, path.components().len() as int))
    } else {
        None
    }
}

} // verus!

verus! {

/// Components joined by `/`.
pub open spec fn joined(cs: Seq<Seq<char>>) -> Seq<char>
    decreases cs.len(),
{
    if cs.len() == 0 {
        Seq::empty()
    } else if cs.len() == 1 {
        cs[0]
    } else {
        joined(cs.drop_last()) + seq!['/'] + cs.last()
    }
}

/// How a path is shown: a leading `/` when it is rooted, then its components
/// joined by `/`.
pub open spec fn spec_display(p: PathParts) -> Seq<char> {
    if p.absolute {
        seq!['/'] + joined(p.components())
    } else {
        joined(p.components())
    }
}

/// Joins `parts[from..]` by `/`.
fn join_from(parts: &Vec<String>, from: usize) -> (r: String)
    requires
        from <= parts@.len(),
    ensures
        r@ == joined(parts@.map_values(|s: String| s@).subrange(from as int, parts@.len() as int)),
{
    let ghost cs = parts@.map_values(|s: String| s@);
    let mut r = String::new();
    let mut i: usize = from;
    while i < parts.len()
        invariant
            from <= i <= parts@.len(),
            cs == parts@.map_values(|s: String| s@),
            r@ == joined(cs.subrange(from as int, i as int)),
        decreases parts@.len() - i,
    {
        let ghost before = cs.subrange(from as int, i as int);
        if i > from {
            push_str(&mut r, "/");
            proof {
                reveal_strlit("/");
            }
        }
        push_str(&mut r, parts[i].as_str());
        proof {
            let after = cs.subrange(from as int, i + 1);
            assert(after.drop_last() == before);
            assert(after.last() == parts@[i as int]@);
            if i == from {
                assert(after.len() == 1);
                assert(r@ == after[0]);
            }
        }
        i = i + 1;
    }
    r
}

impl PathParts {
    /// The path as text.
    pub fn display(&self) -> (r: String)
        ensures
            r@ == spec_display(*self),
    {
        let rest = join_from(&self.parts, 0);
        proof {
            assert(self.components().subrange(0, self.parts@.len() as int) == self.components());
        }
        if self.absolute {
            let mut r = String::new();
            push_str(&mut r, "/");
            push_str(&mut r, rest.as_str());
            proof {
                reveal_strlit("/");
            }
            r
        } else {
            rest
        }
    }
}

/// Shows `path` relative to `base`: the components after `base` joined by `/`,
/// or `None` when `path` does not lie under `base`.
pub fn relative_display(path: &PathParts, base: &PathParts) -> (r: Option<String>)
    ensures
        match spec_strip_prefix(*path, *base) {
            Some(rest) => r is Some && r.unwrap()@ == joined(rest),
            None => r is None,
        },
{
    if path.absolute != base.absolute || base.parts.len() > path.parts.len() {
        return None;
    }
    let ghost pc = path.components();
    let ghost bc = base.components();
    let mut i: usize = 0;
    while i < base.parts.len()
        invariant
            i <= bc.len() <= pc.len(),
            pc == path.components(),
            bc == base.components(),
            forall|j: int| 0 <= j < i ==> pc[j] == bc[j],
        decreases bc.len() - i,
    {
        if !(path.parts[i] == base.parts[i]) {
            proof {
                assert(pc.subrange(0, bc.len() as int)[i as int] != bc[i as int]);
            }
            return None;
        }
        i = i + 1;
    }
    proof {
        assert(pc.subrange(0, bc.len() as int) == bc);
    }
    Some(join_from(&path.parts, base.parts.len()))
}

} // verus!
