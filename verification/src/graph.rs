//! The repository resolver: walking the resolved lock graph to find, for a
//! dependency name, the first direct edge of a workspace member whose package
//! declares a repository URL.
//!
//! The lock graph is plain data: each node is a package identifier with the
//! identifiers of its direct dependencies. What only the package manager can
//! do — materialising one package and reading its metadata — stays outside:
//! [`Resolution`] hands out the next candidate to materialise and is fed the
//! answer, so the choice of candidates and the first-match rule are verified
//! for every possible answer.

use vstd::prelude::*;
use vstd::string::StringExecFns;

verus! {

/// A resolved package identifier: name, version and source location. Two
/// nodes are the same package exactly when all three agree; one name may
/// occur at several versions or sources.
pub struct PkgId {
    /// The package's name.
    pub name: String,
    /// The resolved version.
    pub version: String,
    /// The source the package was resolved from.
    pub source: String,
}

/// The view of a package identifier: its three fields as character sequences.
pub struct PkgIdView {
    /// The package's name.
    pub name: Seq<char>,
    /// The resolved version.
    pub version: Seq<char>,
    /// The source the package was resolved from.
    pub source: Seq<char>,
}

impl View for PkgId {
    type V = PkgIdView;

    open spec fn view(&self) -> PkgIdView {
        PkgIdView { name: self.name@, version: self.version@, source: self.source@ }
    }
}

/// One node of the lock graph: a package and its direct dependencies.
pub struct LockNode {
    /// The package this node records.
    pub id: PkgId,
    /// The identifiers of its direct dependencies, in edge order.
    pub deps: Vec<PkgId>,
}

/// The resolved dependency graph: one node for each package of the resolved
/// snapshot.
pub struct LockGraph {
    /// The nodes, in the snapshot's order.
    pub nodes: Vec<LockNode>,
}

/// The views of a sequence of identifiers.
pub open spec fn views_of(s: Seq<PkgId>) -> Seq<PkgIdView> {
    s.map_values(|p: PkgId| p@)
}

/// Taking views commutes with appending one identifier.
proof fn lemma_views_of_push(s: Seq<PkgId>, p: PkgId)
    ensures
        views_of(s.push(p)) == views_of(s).push(p@),
{
    assert(views_of(s.push(p)) =~= views_of(s).push(p@));
}

/// The direct dependencies the graph records for `m`: those of the first
/// node with identifier `m`, none if the graph has no such node.
pub open spec fn direct_deps(nodes: Seq<LockNode>, m: PkgIdView) -> Seq<PkgIdView>
    decreases nodes.len(),
{
    if nodes.len() == 0 {
        Seq::empty()
    } else if nodes[0].id@ == m {
        views_of(nodes[0].deps@)
    } else {
        direct_deps(nodes.skip(1), m)
    }
}

/// The identifiers of `deps` whose package name is `name`, in edge order.
pub open spec fn deps_named(deps: Seq<PkgIdView>, name: Seq<char>) -> Seq<PkgIdView>
    decreases deps.len(),
{
    if deps.len() == 0 {
        Seq::empty()
    } else {
        deps_named(deps.drop_last(), name) + if deps.last().name == name {
            seq![deps.last()]
        } else {
            Seq::empty()
        }
    }
}

/// Every direct edge of every member that matches `name`: member by member
/// in workspace order, edge by edge within a member.
pub open spec fn candidates_spec(
    nodes: Seq<LockNode>,
    members: Seq<PkgId>,
    name: Seq<char>,
) -> Seq<PkgIdView>
    decreases members.len(),
{
    if members.len() == 0 {
        Seq::empty()
    } else {
        candidates_spec(nodes, members.drop_last(), name) + deps_named(
            direct_deps(nodes, members.last()@),
            name,
        )
    }
}

impl PkgId {
    /// Whether two identifiers address the same package.
    pub fn id_equals(&self, other: &PkgId) -> (r: bool)
        ensures
            r == (self@ == other@),
    {
        let r = self.name == other.name && self.version == other.version && self.source
            == other.source;
        proof {
            if self.name@ == other.name@ && self.version@ == other.version@ && self.source@
                == other.source@ {
                assert(self@ == other@);
            }
        }
        r
    }

    /// Whether the package's name is `name`.
    pub fn name_is(&self, name: &String) -> (r: bool)
        ensures
            r == (self@.name == name@),
    {
        self.name == *name
    }

    /// A copy of the identifier with the same view.
    pub fn duplicate(&self) -> (r: PkgId)
        ensures
            r@ == self@,
    {
        PkgId { name: self.name.clone(), version: self.version.clone(), source: self.source.clone() }
    }
}

impl LockGraph {
    /// The direct dependencies recorded for `m`, as copies.
    pub fn deps_of(&self, m: &PkgId) -> (r: Vec<PkgId>)
        ensures
            views_of(r@) == direct_deps(self.nodes@, m@),
    {
        let n = self.nodes.len();
        let mut j: usize = 0;
        proof {
            assert(self.nodes@.skip(0) =~= self.nodes@);
        }
        while j < n
            invariant
                j <= n,
                n == self.nodes@.len(),
                direct_deps(self.nodes@, m@) == direct_deps(self.nodes@.skip(j as int), m@),
            decreases n - j,
        {
            proof {
                assert(self.nodes@.skip(j as int)[0] == self.nodes@[j as int]);
            }
            if self.nodes[j].id.id_equals(m) {
                let r = clone_ids(&self.nodes[j].deps);
                return r;
            }
            proof {
                assert(self.nodes@.skip(j as int).skip(1) =~= self.nodes@.skip(j as int + 1));
            }
            j = j + 1;
        }
        proof {
            assert(views_of(Seq::<PkgId>::empty()) =~= Seq::<PkgIdView>::empty());
        }
        Vec::new()
    }
}

/// Copies of a list of identifiers, views kept.
fn clone_ids(v: &Vec<PkgId>) -> (r: Vec<PkgId>)
    ensures
        views_of(r@) == views_of(v@),
{
    let n = v.len();
    let mut out: Vec<PkgId> = Vec::new();
    let mut k: usize = 0;
    while k < n
        invariant
            k <= n,
            n == v@.len(),
            views_of(out@) == views_of(v@.take(k as int)),
        decreases n - k,
    {
        let e = v[k].duplicate();
        let ghost out0 = out@;
        out.push(e);
        proof {
            lemma_views_of_push(out0, e);
            assert(v@.take(k as int + 1) =~= v@.take(k as int).push(v@[k as int]));
            lemma_views_of_push(v@.take(k as int), v@[k as int]);
        }
        k = k + 1;
    }
    proof {
        assert(v@.take(n as int) =~= v@);
    }
    out
}

/// Every direct lock-graph edge of a workspace member whose target's name is
/// `name`, in member order, then in edge order within a member.
pub fn matching_edges(graph: &LockGraph, members: &Vec<PkgId>, name: &str) -> (r: Vec<PkgId>)
    ensures
        views_of(r@) == candidates_spec(graph.nodes@, members@, name@),
{
    let name_owned: String = name.to_owned();
    let mut out: Vec<PkgId> = Vec::new();
    let mut i: usize = 0;
    while i < members.len()
        invariant
            i <= members@.len(),
            views_of(out@) == candidates_spec(graph.nodes@, members@.take(i as int), name@),
            name_owned@ == name@,
        decreases members@.len() - i,
    {
        let deps = graph.deps_of(&members[i]);
        let mut k: usize = 0;
        while k < deps.len()
            invariant
                k <= deps@.len(),
                views_of(out@) == candidates_spec(graph.nodes@, members@.take(i as int), name@)
                    + deps_named(views_of(deps@).take(k as int), name@),
                name_owned@ == name@,
            decreases deps@.len() - k,
        {
            let ghost vs = views_of(deps@);
            let ghost prefix = candidates_spec(graph.nodes@, members@.take(i as int), name@);
            let ghost named = deps_named(vs.take(k as int), name@);
            proof {
                assert(vs.take(k as int + 1).drop_last() =~= vs.take(k as int));
                assert(vs[k as int] == deps@[k as int]@);
                assert(vs.take(k as int + 1).last() == vs[k as int]);
            }
            if deps[k].name_is(&name_owned) {
                let e = deps[k].duplicate();
                let ghost out0 = out@;
                out.push(e);
                proof {
                    lemma_views_of_push(out0, e);
                    assert((prefix + named).push(vs[k as int]) =~= prefix + (named + seq![
                        vs[k as int],
                    ]));
                }
            } else {
                proof {
                    assert(named + Seq::<PkgIdView>::empty() =~= named);
                }
            }
            k = k + 1;
        }
        proof {
            let ms = members@;
            assert(views_of(deps@).take(deps@.len() as int) =~= views_of(deps@));
            assert(ms.take(i as int + 1).drop_last() =~= ms.take(i as int));
            assert(ms.take(i as int + 1).last() == ms[i as int]);
            assert(views_of(out@) =~= candidates_spec(graph.nodes@, ms.take(i as int + 1), name@));
        }
        i = i + 1;
    }
    proof {
        assert(members@.take(members@.len() as int) =~= members@);
    }
    out
}

/// Whether a repository metadata answer carries a usable URL: present and
/// non-empty.
pub open spec fn has_repository(meta: Option<Seq<char>>) -> bool {
    meta is Some && meta->0.len() > 0
}

/// The view of a repository metadata answer.
pub open spec fn meta_view(meta: Option<String>) -> Option<Seq<char>> {
    match meta {
        Some(u) => Some(u@),
        None => None,
    }
}

/// The index of the first answer that carries a repository URL.
pub open spec fn first_hit(metas: Seq<Option<Seq<char>>>) -> Option<int>
    decreases metas.len(),
{
    if metas.len() == 0 {
        None
    } else if has_repository(metas[0]) {
        Some(0)
    } else {
        match first_hit(metas.skip(1)) {
            Some(i) => Some(i + 1),
            None => None,
        }
    }
}

/// What a full resolution run returns when the candidates' metadata answers
/// are `metas`: the first URL, or nothing.
pub open spec fn resolve_outcome(metas: Seq<Option<Seq<char>>>) -> Option<Seq<char>> {
    match first_hit(metas) {
        Some(i) => Some(metas[i]->0),
        None => None,
    }
}

/// A resolution in progress: the candidate edges for one dependency name, and
/// how many of them have been answered. The caller materialises the pending
/// candidate, feeds the answer to [`Resolution::supply`], and stops at the
/// first URL; first match wins, in member order then edge order.
pub struct Resolution {
    /// The matching edges, in order.
    pub candidates: Vec<PkgId>,
    /// How many candidates have been answered.
    pub next: usize,
}

impl Resolution {
    /// The machine's well-formedness: it never runs past its candidates.
    pub open spec fn wf(self) -> bool {
        self.next <= self.candidates@.len()
    }

    /// Starts resolving `name`: collects the candidate edges of `members`.
    pub fn begin(graph: &LockGraph, members: &Vec<PkgId>, name: &str) -> (r: Resolution)
        ensures
            r.wf(),
            r.next == 0,
            views_of(r.candidates@) == candidates_spec(graph.nodes@, members@, name@),
    {
        Resolution { candidates: matching_edges(graph, members, name), next: 0 }
    }

    /// The candidate to materialise next, none once all are answered.
    pub fn pending(&self) -> (r: Option<PkgId>)
        requires
            self.wf(),
        ensures
            r is Some <==> self.next < self.candidates@.len(),
            r is Some ==> r->0@ == self.candidates@[self.next as int]@,
    {
        if self.next < self.candidates.len() {
            Some(self.candidates[self.next].duplicate())
        } else {
            None
        }
    }

    /// Whether every candidate has been answered without a hit.
    pub fn finished(&self) -> (r: bool)
        requires
            self.wf(),
        ensures
            r == (self.next == self.candidates@.len()),
    {
        self.next == self.candidates.len()
    }

    /// Feeds the repository metadata of the pending candidate. Returns the
    /// repository URL exactly when the answer carries one: the first such
    /// answer ends the run.
    pub fn supply(&mut self, repository: Option<String>) -> (r: Option<String>)
        requires
            old(self).wf(),
            old(self).next < old(self).candidates@.len(),
        ensures
            final(self).wf(),
            final(self).candidates == old(self).candidates,
            final(self).next == old(self).next + 1,
            r is Some <==> has_repository(meta_view(repository)),
            r is Some ==> repository is Some && r->0 == repository->0,
    {
        if self.next < self.candidates.len() {
            self.next = self.next + 1;
        }
        match repository {
            Some(url) => {
                if url.as_str().is_empty() {
                    None
                } else {
                    Some(url)
                }
            },
            None => None,
        }
    }
}

/// The error of a resolution that ran out of candidates: no workspace member
/// has a direct edge to a package of that name that declares a repository.
pub struct DependencyNotFound {
    /// The dependency name that failed to resolve.
    pub dependency: String,
}

impl DependencyNotFound {
    /// What went wrong, naming the dependency, for the error stream.
    pub fn message(&self) -> (r: String)
        ensures
            r@ == "Could not find use of dependency "@ + self.dependency@,
    {
        let mut r = String::from_str("Could not find use of dependency ");
        r.append(self.dependency.as_str());
        r
    }
}

/// What to do about the lock graph next: the graph is loaded if present,
/// generated once if absent, and the run fails if it still cannot be loaded.
#[derive(PartialEq, Eq, Structural, Clone, Copy, Debug)]
pub enum LockAction {
    /// A graph was loaded: resolve against it.
    UseGraph,
    /// No graph yet: generate one, then load again.
    Generate,
    /// Generation already happened and loading still failed: give up.
    FailResolution,
}

/// The load-or-generate decision for the lock graph, one step at a time:
/// `generated_already` says whether a generation pass already ran,
/// `load_succeeded` whether the last load produced a graph.
pub fn lock_load_action(generated_already: bool, load_succeeded: bool) -> (r: LockAction)
    ensures
        load_succeeded ==> r == LockAction::UseGraph,
        !load_succeeded && !generated_already ==> r == LockAction::Generate,
        !load_succeeded && generated_already ==> r == LockAction::FailResolution,
{
    if load_succeeded {
        LockAction::UseGraph
    } else if !generated_already {
        LockAction::Generate
    } else {
        LockAction::FailResolution
    }
}

/// The first hit is sound and first: it points at an answer with a URL, and
/// no earlier answer has one; and when there is no hit, no answer has one.
pub proof fn lemma_first_hit_characterised(metas: Seq<Option<Seq<char>>>)
    ensures
        first_hit(metas) matches Some(i) ==> 0 <= i < metas.len() && has_repository(metas[i]) && (
        forall|j: int| 0 <= j < i ==> !has_repository(metas[j])),
        first_hit(metas) is None ==> forall|j: int|
            0 <= j < metas.len() ==> !has_repository(metas[j]),
    decreases metas.len(),
{
    if metas.len() == 0 {
    } else if has_repository(metas[0]) {
    } else {
        lemma_first_hit_characterised(metas.skip(1));
        assert(forall|j: int| 1 <= j < metas.len() ==> metas[j] == metas.skip(1)[j - 1]);
    }
}

/// A resolution returns a URL exactly when some candidate's metadata carries
/// one, and then it returns the first one, in candidate order.
pub proof fn lemma_resolution_first_match(metas: Seq<Option<Seq<char>>>)
    ensures
        resolve_outcome(metas) is Some <==> exists|j: int|
            0 <= j < metas.len() && has_repository(metas[j]),
        resolve_outcome(metas) matches Some(u) ==> exists|i: int|
            {
                &&& 0 <= i < metas.len()
                &&& has_repository(metas[i])
                &&& u == metas[i]->0
                &&& forall|j: int| 0 <= j < i ==> !has_repository(metas[j])
            },
{
    lemma_first_hit_characterised(metas);
    match first_hit(metas) {
        Some(i) => {
            assert(0 <= i < metas.len() && has_repository(metas[i]));
        },
        None => {},
    }
}

/// A dependency that appears as a direct edge of some workspace member is
/// among the candidates the resolver materialises.
pub proof fn lemma_candidates_complete(
    nodes: Seq<LockNode>,
    members: Seq<PkgId>,
    name: Seq<char>,
    i: int,
    j: int,
)
    requires
        0 <= i < members.len(),
        0 <= j < direct_deps(nodes, members[i]@).len(),
        direct_deps(nodes, members[i]@)[j].name == name,
    ensures
        candidates_spec(nodes, members, name).contains(direct_deps(nodes, members[i]@)[j]),
    decreases members.len(),
{
    let deps = direct_deps(nodes, members[i]@);
    if i == members.len() - 1 {
        lemma_deps_named_complete(deps, name, j);
        let named = deps_named(deps, name);
        let all = candidates_spec(nodes, members, name);
        assert(members.last() == members[i]);
        let k = choose|k: int| 0 <= k < named.len() && named[k] == deps[j];
        assert(all[candidates_spec(nodes, members.drop_last(), name).len() + k] == deps[j]);
    } else {
        lemma_candidates_complete(nodes, members.drop_last(), name, i, j);
        assert(members.drop_last()[i] == members[i]);
        let prior = candidates_spec(nodes, members.drop_last(), name);
        let k = choose|k: int| 0 <= k < prior.len() && prior[k] == deps[j];
        assert(candidates_spec(nodes, members, name)[k] == deps[j]);
    }
}

/// A dependency named `name` among `deps` is among the `name`-filtered edges.
proof fn lemma_deps_named_complete(deps: Seq<PkgIdView>, name: Seq<char>, j: int)
    requires
        0 <= j < deps.len(),
        deps[j].name == name,
    ensures
        deps_named(deps, name).contains(deps[j]),
    decreases deps.len(),
{
    if j == deps.len() - 1 {
        let named = deps_named(deps, name);
        assert(named[named.len() - 1] == deps[j]);
    } else {
        lemma_deps_named_complete(deps.drop_last(), name, j);
        let prior = deps_named(deps.drop_last(), name);
        let k = choose|k: int| 0 <= k < prior.len() && prior[k] == deps.drop_last()[j];
        assert(deps_named(deps, name)[k] == deps[j]);
    }
}

/// A name that is not the name of any direct edge of any member has no
/// candidates: resolving it fails with the dependency-not-found error.
pub proof fn lemma_resolution_not_found(nodes: Seq<LockNode>, members: Seq<PkgId>, name: Seq<char>)
    requires
        forall|i: int, j: int|
            0 <= i < members.len() && 0 <= j < direct_deps(nodes, members[i]@).len()
                ==> direct_deps(nodes, members[i]@)[j].name != name,
    ensures
        candidates_spec(nodes, members, name).len() == 0,
    decreases members.len(),
{
    if members.len() > 0 {
        assert(forall|i: int, j: int|
            0 <= i < members.drop_last().len() && 0 <= j < direct_deps(
                nodes,
                members.drop_last()[i]@,
            ).len() ==> direct_deps(nodes, members.drop_last()[i]@)[j].name != name) by {
            assert(forall|i: int| 0 <= i < members.drop_last().len() ==> members.drop_last()[i]
                == members[i]);
        }
        lemma_resolution_not_found(nodes, members.drop_last(), name);
        assert(members.last() == members[members.len() - 1]);
        lemma_deps_named_empty(direct_deps(nodes, members.last()@), name);
    }
}

/// A name that no member's direct edges carry resolves to nothing, whatever
/// metadata the materialised packages would have answered.
pub proof fn lemma_absent_name_resolves_to_nothing(
    nodes: Seq<LockNode>,
    members: Seq<PkgId>,
    name: Seq<char>,
    metas: Seq<Option<Seq<char>>>,
)
    requires
        metas.len() == candidates_spec(nodes, members, name).len(),
        forall|i: int, j: int|
            0 <= i < members.len() && 0 <= j < direct_deps(nodes, members[i]@).len()
                ==> direct_deps(nodes, members[i]@)[j].name != name,
    ensures
        resolve_outcome(metas) is None,
{
    lemma_resolution_not_found(nodes, members, name);
}

/// Filtering edges for a name none of them has yields nothing.
proof fn lemma_deps_named_empty(deps: Seq<PkgIdView>, name: Seq<char>)
    requires
        forall|j: int| 0 <= j < deps.len() ==> deps[j].name != name,
    ensures
        deps_named(deps, name).len() == 0,
    decreases deps.len(),
{
    if deps.len() > 0 {
        lemma_deps_named_empty(deps.drop_last(), name);
    }
}

} // verus!
