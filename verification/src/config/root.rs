//! Which directory is the project root: the nearest ancestor of the working
//! directory that holds `.git`, else the nearest that holds a configured
//! marker, else the working directory itself.

use vstd::prelude::*;

verus! {

/// What was found in one ancestor of the working directory: whether it holds
/// `.git`, and, for each configured marker in order, whether it holds it.
#[derive(Debug, Clone)]
pub struct AncestorProbe {
    pub path: String,
    pub has_git: bool,
    pub has_marker: Vec<bool>,
}

/// Whether an ancestor holds one of the markers.
pub open spec fn holds_marker(p: AncestorProbe) -> bool {
    exists|j: int| 0 <= j < p.has_marker@.len() && #[trigger] p.has_marker@[j]
}

/// The path of the first probe that holds `.git`.
pub open spec fn first_git(probes: Seq<AncestorProbe>) -> Option<Seq<char>>
    decreases probes.len(),
{
    if probes.len() == 0 {
        None
    } else if probes[0].has_git {
        Some(probes[0].path@)
    } else {
        first_git(probes.drop_first())
    }
}

/// The path of the first probe that holds a marker.
pub open spec fn first_marked(probes: Seq<AncestorProbe>) -> Option<Seq<char>>
    decreases probes.len(),
{
    if probes.len() == 0 {
        None
    } else if holds_marker(probes[0]) {
        Some(probes[0].path@)
    } else {
        first_marked(probes.drop_first())
    }
}

/// The project root for a working directory whose ancestors, nearest first,
/// were probed as `probes`.
pub open spec fn project_root(
    cwd: Seq<char>,
    markers_configured: bool,
    probes: Seq<AncestorProbe>,
) -> Seq<char> {
    match first_git(probes) {
        Some(p) => p,
        None => if markers_configured && first_marked(probes) is Some {
            first_marked(probes)->0
        } else {
            cwd
        },
    }
}

fn any_marker(p: &AncestorProbe) -> (b: bool)
    ensures
        b == holds_marker(*p),
{
    let mut j: usize = 0;
    while j < p.has_marker.len()
        invariant
            j <= p.has_marker@.len(),
            forall|k: int| 0 <= k < j ==> !#[trigger] p.has_marker@[k],
        decreases p.has_marker@.len() - j,
    {
        if p.has_marker[j] {
            return true;
        }
        j = j + 1;
    }
    false
}

/// The project root: `probes` describes the ancestors of `cwd`, nearest
/// first, `cwd` itself included.
pub fn detect_project_root(cwd: &str, markers: &[String], probes: &[AncestorProbe]) -> (r: String)
    ensures
        r@ == project_root(cwd@, markers@.len() > 0, probes@),
{
    let mut i: usize = 0;
    assert(probes@.skip(0) =~= probes@);
    while i < probes.len()
        invariant
            i <= probes@.len(),
            first_git(probes@) == first_git(probes@.skip(i as int)),
        decreases probes@.len() - i,
    {
        assert(probes@.skip(i as int).drop_first() =~= probes@.skip(i + 1));
        if probes[i].has_git {
            return probes[i].path.clone();
        }
        i = i + 1;
    }
    assert(probes@.skip(i as int) =~= Seq::<AncestorProbe>::empty());
    if markers.len() > 0 {
        let mut i: usize = 0;
        assert(probes@.skip(0) =~= probes@);
        while i < probes.len()
            invariant
                i <= probes@.len(),
                first_marked(probes@) == first_marked(probes@.skip(i as int)),
                first_git(probes@) is None,
                markers@.len() > 0,
            decreases probes@.len() - i,
        {
            assert(probes@.skip(i as int).drop_first() =~= probes@.skip(i + 1));
            if any_marker(&probes[i]) {
                return probes[i].path.clone();
            }
            i = i + 1;
        }
        assert(probes@.skip(i as int) =~= Seq::<AncestorProbe>::empty());
    }
    cwd.to_owned()
}

/// The first probe, nearest first, that holds `.git` names the path.
proof fn lemma_first_git_at(probes: Seq<AncestorProbe>, k: int)
    requires
        0 <= k < probes.len(),
        probes[k].has_git,
        forall|i: int| 0 <= i < k ==> !(#[trigger] probes[i]).has_git,
    ensures
        first_git(probes) == Some(probes[k].path@),
    decreases k,
{
    if k > 0 {
        let rest = probes.drop_first();
        assert forall|i: int| 0 <= i < k - 1 implies !(#[trigger] rest[i]).has_git by {
            assert(rest[i] == probes[i + 1]);
        }
        lemma_first_git_at(rest, k - 1);
    }
}

/// Without a probe that holds `.git`, there is no first one.
proof fn lemma_first_git_none(probes: Seq<AncestorProbe>)
    requires
        forall|i: int| 0 <= i < probes.len() ==> !(#[trigger] probes[i]).has_git,
    ensures
        first_git(probes) is None,
    decreases probes.len(),
{
    if probes.len() > 0 {
        let rest = probes.drop_first();
        assert forall|i: int| 0 <= i < rest.len() implies !(#[trigger] rest[i]).has_git by {
            assert(rest[i] == probes[i + 1]);
        }
        lemma_first_git_none(rest);
    }
}

/// The first probe, nearest first, with any marker flag set names the path.
proof fn lemma_first_marked_at(probes: Seq<AncestorProbe>, k: int, j: int)
    requires
        0 <= k < probes.len(),
        0 <= j < probes[k].has_marker@.len(),
        probes[k].has_marker@[j],
        forall|i: int, l: int|
            0 <= i < k && 0 <= l < probes[i].has_marker@.len() ==> !#[trigger] probes[i].has_marker@[l],
    ensures
        first_marked(probes) == Some(probes[k].path@),
    decreases k,
{
    if k == 0 {
        assert(holds_marker(probes[0]));
    } else {
        let rest = probes.drop_first();
        assert(!holds_marker(probes[0]));
        assert forall|i: int, l: int|
            0 <= i < k - 1 && 0 <= l < rest[i].has_marker@.len() implies !#[trigger] rest[i].has_marker@[l] by {
            assert(rest[i] == probes[i + 1]);
        }
        assert(rest[k - 1] == probes[k]);
        lemma_first_marked_at(rest, k - 1, j);
    }
}

/// Without a probe with a marker flag set, there is no first one.
proof fn lemma_first_marked_none(probes: Seq<AncestorProbe>)
    requires
        forall|i: int, l: int|
            0 <= i < probes.len() && 0 <= l < probes[i].has_marker@.len() ==> !#[trigger] probes[i].has_marker@[l],
    ensures
        first_marked(probes) is None,
    decreases probes.len(),
{
    if probes.len() > 0 {
        let rest = probes.drop_first();
        assert(!holds_marker(probes[0]));
        assert forall|i: int, l: int|
            0 <= i < rest.len() && 0 <= l < rest[i].has_marker@.len() implies !#[trigger] rest[i].has_marker@[l] by {
            assert(rest[i] == probes[i + 1]);
        }
        lemma_first_marked_none(rest);
    }
}

/// `.git` wins: the nearest ancestor that holds `.git` is the root, whatever
/// markers any ancestor holds.
pub proof fn law_nearest_git_is_root(
    cwd: Seq<char>,
    markers_configured: bool,
    probes: Seq<AncestorProbe>,
    k: int,
)
    requires
        0 <= k < probes.len(),
        probes[k].has_git,
        forall|i: int| 0 <= i < k ==> !(#[trigger] probes[i]).has_git,
    ensures
        project_root(cwd, markers_configured, probes) == probes[k].path@,
{
    lemma_first_git_at(probes, k);
}

/// With markers configured and no `.git` in any ancestor, the root is the
/// nearest ancestor that holds any of the markers, the first one included.
pub proof fn law_nearest_marked_is_root(cwd: Seq<char>, probes: Seq<AncestorProbe>, k: int, j: int)
    requires
        forall|i: int| 0 <= i < probes.len() ==> !(#[trigger] probes[i]).has_git,
        0 <= k < probes.len(),
        0 <= j < probes[k].has_marker@.len(),
        probes[k].has_marker@[j],
        forall|i: int, l: int|
            0 <= i < k && 0 <= l < probes[i].has_marker@.len() ==> !#[trigger] probes[i].has_marker@[l],
    ensures
        project_root(cwd, true, probes) == probes[k].path@,
{
    lemma_first_git_none(probes);
    lemma_first_marked_at(probes, k, j);
}

/// Without `.git` in any ancestor, and with no markers configured or none
/// held by any ancestor, the root is the working directory.
pub proof fn law_root_falls_back_to_cwd(
    cwd: Seq<char>,
    markers_configured: bool,
    probes: Seq<AncestorProbe>,
)
    requires
        forall|i: int| 0 <= i < probes.len() ==> !(#[trigger] probes[i]).has_git,
        markers_configured ==> forall|i: int, l: int|
            0 <= i < probes.len() && 0 <= l < probes[i].has_marker@.len() ==> !#[trigger] probes[i].has_marker@[l],
    ensures
        project_root(cwd, markers_configured, probes) == cwd,
{
    lemma_first_git_none(probes);
    if markers_configured {
        lemma_first_marked_none(probes);
    }
}

}
