//! Confinement of caller-supplied working-tree paths to one allowed base directory.
//! Paths are sequences of components, as the file system compares them.
use vstd::prelude::*;
use crate::storage::strs;

verus! {

/// A requested path that resolves outside the allowed base.
#[derive(Debug, PartialEq, Eq, Structural, Clone, Copy)]
pub struct OutsideBase;

/// What the file system says of a resolved path.
#[derive(Debug)]
pub enum PathProbe {
    /// The path exists; its canonical form.
    Existing(Vec<String>),
    /// The path does not exist: the path as resolved, and the canonical form of its
    /// nearest existing ancestor (at worst the root).
    Missing { resolved: Vec<String>, canonical_ancestor: Vec<String> },
}

/// `base` is a component-wise prefix of `path`.
pub open spec fn within(base: Seq<Seq<char>>, path: Seq<Seq<char>>) -> bool {
    base.len() <= path.len() && path.subrange(0, base.len() as int) == base
}

/// Whether the component path `path` lies within `base`.
pub fn is_within(base: &Vec<String>, path: &Vec<String>) -> (r: bool)
    ensures
        r == within(strs(base@), strs(path@)),
{
    if base.len() > path.len() {
        return false;
    }
    let mut i: usize = 0;
    while i < base.len()
        invariant
            base@.len() <= path@.len(),
            i <= base@.len(),
            forall|j: int| 0 <= j < i ==> strs(base@)[j] == strs(path@)[j],
        decreases base@.len() - i,
    {
        if base[i] != path[i] {
            assert(strs(path@).subrange(0, base@.len() as int)[i as int] != strs(base@)[i as int]);
            return false;
        }
        i = i + 1;
    }
    assert(strs(path@).subrange(0, base@.len() as int) =~= strs(base@));
    true
}

/// Where a requested path points before it is checked: an absolute path as given, a
/// relative one under the base.
pub fn resolve_requested(base: &Vec<String>, requested: Vec<String>, absolute: bool) -> (r: Vec<
    String,
>)
    ensures
        strs(r@) == if absolute {
            strs(requested@)
        } else {
            strs(base@) + strs(requested@)
        },
{
    if absolute {
        return requested;
    }
    let mut out: Vec<String> = Vec::new();
    let mut i: usize = 0;
    while i < base.len()
        invariant
            i <= base@.len(),
            strs(out@) == strs(base@).subrange(0, i as int),
        decreases base@.len() - i,
    {
        let ghost before = out@;
        let c = base[i].clone();
        out.push(c);
        assert(strs(out@) =~= strs(before).push(c@));
        assert(strs(out@) =~= strs(base@).subrange(0, i + 1));
        i = i + 1;
    }
    let mut j: usize = 0;
    while j < requested.len()
        invariant
            base@.len() == i,
            j <= requested@.len(),
            strs(out@) == strs(base@) + strs(requested@).subrange(0, j as int),
        decreases requested@.len() - j,
    {
        let ghost before = out@;
        let c = requested[j].clone();
        out.push(c);
        assert(strs(out@) =~= strs(before).push(c@));
        assert(strs(out@) =~= strs(base@) + strs(requested@).subrange(0, j + 1));
        j = j + 1;
    }
    assert(strs(requested@).subrange(0, j as int) =~= strs(requested@));
    out
}

pub open spec fn parent_step() -> Seq<char> {
    seq!['.', '.']
}

/// Some component of `p` steps up to a parent directory.
pub open spec fn steps_up(p: Seq<Seq<char>>) -> bool {
    exists|i: int| 0 <= i < p.len() && p[i] == parent_step()
}

/// Whether some component of `p` is `..`.
pub fn has_parent_step(p: &Vec<String>) -> (r: bool)
    ensures
        r == steps_up(strs(p@)),
{
    proof {
        reveal_strlit("..");
    }
    assert(".."@ =~= parent_step());
    let mut i: usize = 0;
    while i < p.len()
        invariant
            i <= p@.len(),
            ".."@ == parent_step(),
            forall|j: int| 0 <= j < i ==> strs(p@)[j] != parent_step(),
        decreases p@.len() - i,
    {
        if crate::storage::str_eq(p[i].as_str(), "..") {
            assert(strs(p@)[i as int] == parent_step());
            return true;
        }
        i = i + 1;
    }
    false
}

/// The confinement verdict on a probed path: an existing path is judged by its
/// canonical form; a missing one by its nearest existing ancestor, and it may not step
/// up with `..` below that ancestor.
pub open spec fn confinement(base: Seq<Seq<char>>, probe: PathProbe) -> Result<
    Seq<Seq<char>>,
    OutsideBase,
> {
    match probe {
        PathProbe::Existing(c) => if within(base, strs(c@)) {
            Ok(strs(c@))
        } else {
            Err(OutsideBase)
        },
        PathProbe::Missing { resolved, canonical_ancestor } => if within(
            base,
            strs(canonical_ancestor@),
        ) && !steps_up(strs(resolved@)) {
            Ok(strs(resolved@))
        } else {
            Err(OutsideBase)
        },
    }
}

/// Accepts a path that lies within the canonical base: an existing path by its canonical
/// form, which is then the result; a missing one by the canonical form of its nearest
/// existing ancestor, the path as resolved being the result.
pub fn validate_repo_path(canonical_base: &Vec<String>, probe: PathProbe) -> (r: Result<
    Vec<String>,
    OutsideBase,
>)
    ensures
        match r {
            Ok(p) => confinement(strs(canonical_base@), probe) == Ok::<
                Seq<Seq<char>>,
                OutsideBase,
            >(strs(p@)),
            Err(e) => confinement(strs(canonical_base@), probe) == Err::<
                Seq<Seq<char>>,
                OutsideBase,
            >(e),
        },
{
    match probe {
        PathProbe::Existing(c) => {
            if is_within(canonical_base, &c) {
                Ok(c)
            } else {
                Err(OutsideBase)
            }
        },
        PathProbe::Missing { resolved, canonical_ancestor } => {
            if is_within(canonical_base, &canonical_ancestor) && !has_parent_step(&resolved) {
                Ok(resolved)
            } else {
                Err(OutsideBase)
            }
        },
    }
}

} // verus!
