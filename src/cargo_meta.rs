//! Queries on a resolved dependency graph: each workspace member's direct
//! dependencies, and the packages that only sit deeper in the graph.

use crate::nested_diff::{find_by_name, index_of_name, package_views};
use crate::package_id_info::{decode_package_id, decode_source, PackageIdInfo, PackageView};
use crate::paths::{parent_of, path_parent};
use crate::text::{contains_text, has_text};
use vstd::prelude::*;

verus! {

/// One node of a resolved graph: a package id and the ids it depends on.
#[derive(Debug)]
pub struct GraphNode {
    pub id: String,
    pub dependencies: Vec<String>,
}

/// What a node is.
pub struct NodeView {
    pub id: Seq<char>,
    pub dependencies: Seq<Seq<char>>,
}

pub open spec fn text_views(s: Seq<String>) -> Seq<Seq<char>> {
    s.map_values(|t: String| t@)
}

impl View for GraphNode {
    type V = NodeView;

    open spec fn view(&self) -> NodeView {
        NodeView { id: self.id@, dependencies: text_views(self.dependencies@) }
    }
}

pub open spec fn node_views(s: Seq<GraphNode>) -> Seq<NodeView> {
    s.map_values(|n: GraphNode| n@)
}

/// Direct dependencies per target name.
pub type TargetDependencies = Vec<(String, Vec<PackageIdInfo>)>;

pub open spec fn target_views(s: Seq<(String, Vec<PackageIdInfo>)>) -> Seq<
    (Seq<char>, Seq<PackageView>),
> {
    s.map_values(|e: (String, Vec<PackageIdInfo>)| (e.0@, package_views(e.1@)))
}

/// The metadata of a project: its workspace members, the resolved graph if
/// there is one, and the manifest path of each package.
#[derive(Debug)]
pub struct CargoMeta {
    pub workspace_members: Vec<String>,
    pub resolve: Option<Vec<GraphNode>>,
    pub workspace_root: String,
    pub manifest_paths: Vec<String>,
}

/// The dependency ids that decode to a package not on a local path.
pub open spec fn direct_packages(deps: Seq<Seq<char>>) -> Seq<PackageView>
    decreases deps.len(),
{
    if deps.len() == 0 {
        Seq::empty()
    } else {
        let before = direct_packages(deps.drop_last());
        match decode_package_id(deps.last()) {
            Some(p) => if p.source is Path {
                before
            } else {
                before.push(p)
            },
            None => before,
        }
    }
}

/// The dependency ids whose source reads as other than a local path.
pub open spec fn direct_ids(deps: Seq<Seq<char>>) -> Seq<Seq<char>>
    decreases deps.len(),
{
    if deps.len() == 0 {
        Seq::empty()
    } else {
        let before = direct_ids(deps.drop_last());
        match decode_source(deps.last()) {
            Some(s) => if s is Path {
                before
            } else {
                before.push(deps.last())
            },
            None => before,
        }
    }
}

/// `i` is the first position of key `k` in an association list.
pub open spec fn is_first_key<V>(m: Seq<(Seq<char>, V)>, k: Seq<char>, i: int) -> bool {
    0 <= i < m.len() && m[i].0 == k && forall|j: int| 0 <= j < i ==> m[j].0 != k
}

/// First position of key `k` in an association list, or -1.
pub open spec fn key_index<V>(m: Seq<(Seq<char>, V)>, k: Seq<char>) -> int {
    if exists|i: int| is_first_key(m, k, i) {
        choose|i: int| is_first_key(m, k, i)
    } else {
        -1
    }
}

/// Sets key `k` to `v`, in place where `k` is present, else at the end.
pub open spec fn assoc_insert<V>(m: Seq<(Seq<char>, V)>, k: Seq<char>, v: V) -> Seq<(Seq<char>, V)> {
    let i = key_index(m, k);
    if i < 0 {
        m.push((k, v))
    } else {
        m.update(i, (k, v))
    }
}

/// Each workspace member's direct non-local dependencies, keyed by the
/// member's name, in the order of the graph's nodes.
pub open spec fn member_dependencies(members: Seq<Seq<char>>, nodes: Seq<NodeView>) -> Seq<
    (Seq<char>, Seq<PackageView>),
>
    decreases nodes.len(),
{
    if nodes.len() == 0 {
        Seq::empty()
    } else {
        let before = member_dependencies(members, nodes.drop_last());
        let n = nodes.last();
        if members.contains(n.id) {
            match decode_package_id(n.id) {
                Some(info) => assoc_insert(before, info.name, direct_packages(n.dependencies)),
                None => before,
            }
        } else {
            before
        }
    }
}

/// The direct non-local dependency ids of all member nodes among `part`.
pub open spec fn member_direct_ids(members: Seq<Seq<char>>, part: Seq<NodeView>) -> Seq<Seq<char>>
    decreases part.len(),
{
    if part.len() == 0 {
        Seq::empty()
    } else {
        let before = member_direct_ids(members, part.drop_last());
        if members.contains(part.last().id) {
            before + direct_ids(part.last().dependencies)
        } else {
            before
        }
    }
}

/// A node id is left out of the nested set when it is a member's, or the id
/// of a member's direct non-local dependency.
pub open spec fn is_member_or_direct(
    members: Seq<Seq<char>>,
    nodes: Seq<NodeView>,
    id: Seq<char>,
) -> bool {
    members.contains(id) || member_direct_ids(members, nodes).contains(id)
}

/// The packages of `part` (nodes of the graph `nodes`) that are neither a
/// member nor a member's direct dependency, in node order.
pub open spec fn nested_of(members: Seq<Seq<char>>, nodes: Seq<NodeView>, part: Seq<NodeView>) -> Seq<
    PackageView,
>
    decreases part.len(),
{
    if part.len() == 0 {
        Seq::empty()
    } else {
        let before = nested_of(members, nodes, part.drop_last());
        let id = part.last().id;
        if is_member_or_direct(members, nodes, id) {
            before
        } else {
            match decode_package_id(id) {
                Some(p) => before.push(p),
                None => before,
            }
        }
    }
}

/// The entries of a member-dependency list that hold crate `name`: for each
/// target, its first dependency of that name.
pub open spec fn dependency_entries(deps: Seq<(Seq<char>, Seq<PackageView>)>, name: Seq<char>) -> Seq<
    (Seq<char>, PackageView),
>
    decreases deps.len(),
{
    if deps.len() == 0 {
        Seq::empty()
    } else {
        let before = dependency_entries(deps.drop_last(), name);
        let (target, list) = deps.last();
        let k = index_of_name(list, name);
        if k < 0 {
            before
        } else {
            before.push((target, list[k]))
        }
    }
}

fn contains_string(v: &Vec<String>, s: &str) -> (r: bool)
    ensures
        r == text_views(v@).contains(s@),
{
    let mut i: usize = 0;
    while i < v.len()
        invariant
            i <= v.len(),
            forall|j: int| 0 <= j < i ==> v@[j]@ != s@,
        decreases v.len() - i,
    {
        if crate::text::same_text(v[i].as_str(), s) {
            assert(text_views(v@)[i as int] == s@);
            return true;
        }
        i = i + 1;
    }
    assert forall|j: int| 0 <= j < text_views(v@).len() implies text_views(v@)[j] != s@ by {}
    false
}

fn find_target(m: &TargetDependencies, k: &String) -> (r: Option<usize>)
    ensures
        r is None ==> key_index(target_views(m@), k@) == -1,
        r matches Some(i) ==> i < m.len() && key_index(target_views(m@), k@) == i,
{
    let ghost s = target_views(m@);
    let mut i: usize = 0;
    while i < m.len()
        invariant
            s == target_views(m@),
            i <= m.len(),
            forall|j: int| 0 <= j < i ==> s[j].0 != k@,
        decreases m.len() - i,
    {
        if m[i].0 == *k {
            proof {
                assert(is_first_key(s, k@, i as int));
                let c = key_index(s, k@);
                if c < i {
                    assert(s[c].0 != k@);
                }
                if i < c {
                    assert(s[i as int].0 != k@);
                }
            }
            return Some(i);
        }
        i = i + 1;
    }
    None
}

/// Sets the dependencies of target `name`.
fn insert_target(m: &mut TargetDependencies, name: String, deps: Vec<PackageIdInfo>)
    ensures
        target_views(final(m)@) == assoc_insert(target_views(old(m)@), name@, package_views(deps@)),
{
    let ghost before = m@;
    match find_target(m, &name) {
        Some(k) => {
            m.remove(k);
            m.insert(k, (name, deps));
            assert(target_views(m@) =~= target_views(before).update(
                k as int,
                (name@, package_views(deps@)),
            ));
        },
        None => {
            m.push((name, deps));
            assert(target_views(m@) =~= target_views(before).push((name@, package_views(deps@))));
        },
    }
}

fn direct_dependencies(deps: &Vec<String>) -> (r: Vec<PackageIdInfo>)
    ensures
        package_views(r@) == direct_packages(text_views(deps@)),
{
    let ghost d = text_views(deps@);
    let mut r: Vec<PackageIdInfo> = Vec::new();
    let mut i: usize = 0;
    assert(d.take(0) =~= Seq::<Seq<char>>::empty());
    assert(package_views(r@) =~= Seq::<PackageView>::empty());
    while i < deps.len()
        invariant
            d == text_views(deps@),
            i <= deps.len(),
            package_views(r@) == direct_packages(d.take(i as int)),
        decreases deps.len() - i,
    {
        assert(d.take(i + 1).drop_last() =~= d.take(i as int));
        assert(d.take(i + 1).last() == deps@[i as int]@);
        match PackageIdInfo::from_package_id(deps[i].as_str()) {
            Some(p) => {
                if !p.source.is_path() {
                    let ghost before = r@;
                    r.push(p);
                    assert(package_views(r@) =~= package_views(before).push(p@));
                }
            },
            None => {},
        }
        i = i + 1;
    }
    assert(d.take(deps.len() as int) =~= d);
    r
}

fn direct_dependency_ids(deps: &Vec<String>) -> (r: Vec<String>)
    ensures
        text_views(r@) == direct_ids(text_views(deps@)),
{
    let ghost d = text_views(deps@);
    let mut r: Vec<String> = Vec::new();
    let mut i: usize = 0;
    assert(d.take(0) =~= Seq::<Seq<char>>::empty());
    assert(text_views(r@) =~= Seq::<Seq<char>>::empty());
    while i < deps.len()
        invariant
            d == text_views(deps@),
            i <= deps.len(),
            text_views(r@) == direct_ids(d.take(i as int)),
        decreases deps.len() - i,
    {
        assert(d.take(i + 1).drop_last() =~= d.take(i as int));
        assert(d.take(i + 1).last() == deps@[i as int]@);
        match PackageIdInfo::parse_source(deps[i].as_str()) {
            Some(s) => {
                if !s.is_path() {
                    let ghost before = r@;
                    r.push(deps[i].clone());
                    assert(text_views(r@) =~= text_views(before).push(deps@[i as int]@));
                }
            },
            None => {},
        }
        i = i + 1;
    }
    assert(d.take(deps.len() as int) =~= d);
    r
}

/// The registry source folder two levels above a manifest path, where it
/// is a crates.io registry source folder.
pub open spec fn registry_folder(path: Seq<char>) -> Option<Seq<char>> {
    match path_parent(path) {
        Some(p) => match path_parent(p) {
            Some(q) => if has_text(q, ".cargo/registry/src/index.crates.io-"@) {
                Some(q)
            } else {
                None
            },
            None => None,
        },
        None => None,
    }
}

/// The first registry folder among the manifest paths under `.cargo/`.
pub open spec fn registry_path_in(paths: Seq<Seq<char>>) -> Option<Seq<char>>
    decreases paths.len(),
{
    if paths.len() == 0 {
        None
    } else {
        let found = if has_text(paths[0], ".cargo/"@) {
            registry_folder(paths[0])
        } else {
            None
        };
        match found {
            Some(q) => Some(q),
            None => registry_path_in(paths.drop_first()),
        }
    }
}

impl CargoMeta {
    /// The direct dependencies of each member that the graph gives.
    pub open spec fn dependencies_view(&self) -> Seq<(Seq<char>, Seq<PackageView>)> {
        match self.resolve {
            Some(nodes) => member_dependencies(text_views(self.workspace_members@), node_views(nodes@)),
            None => Seq::empty(),
        }
    }

    /// Direct non-local dependencies of each workspace member, keyed by the
    /// member's name; empty where the graph is not resolved.
    pub fn workspace_member_dependencies(&self) -> (r: TargetDependencies)
        ensures
            target_views(r@) == match self.resolve {
                Some(nodes) => member_dependencies(
                    text_views(self.workspace_members@),
                    node_views(nodes@),
                ),
                None => Seq::empty(),
            },
    {
        let mut r: TargetDependencies = Vec::new();
        let nodes = match &self.resolve {
            Some(nodes) => nodes,
            None => {
                assert(target_views(r@) =~= Seq::empty());
                return r;
            },
        };
        let ghost members = text_views(self.workspace_members@);
        let ghost ns = node_views(nodes@);
        let mut i: usize = 0;
        assert(ns.take(0) =~= Seq::<NodeView>::empty());
        assert(target_views(r@) =~= Seq::empty());
        while i < nodes.len()
            invariant
                members == text_views(self.workspace_members@),
                ns == node_views(nodes@),
                i <= nodes.len(),
                target_views(r@) == member_dependencies(members, ns.take(i as int)),
            decreases nodes.len() - i,
        {
            assert(ns.take(i + 1).drop_last() =~= ns.take(i as int));
            assert(ns.take(i + 1).last() == nodes@[i as int]@);
            let node = &nodes[i];
            if contains_string(&self.workspace_members, node.id.as_str()) {
                match PackageIdInfo::from_package_id(node.id.as_str()) {
                    Some(info) => {
                        let deps = direct_dependencies(&node.dependencies);
                        insert_target(&mut r, info.name, deps);
                    },
                    None => {},
                }
            }
            i = i + 1;
        }
        assert(ns.take(nodes.len() as int) =~= ns);
        r
    }

    /// Every package of the graph that is neither a workspace member nor a
    /// member's direct non-local dependency, in node order; empty where the
    /// graph is not resolved.
    pub fn workspace_nested_packages(&self) -> (r: Vec<PackageIdInfo>)
        ensures
            package_views(r@) == match self.resolve {
                Some(nodes) => nested_of(
                    text_views(self.workspace_members@),
                    node_views(nodes@),
                    node_views(nodes@),
                ),
                None => Seq::empty(),
            },
    {
        let mut r: Vec<PackageIdInfo> = Vec::new();
        let nodes = match &self.resolve {
            Some(nodes) => nodes,
            None => {
                assert(package_views(r@) =~= Seq::empty());
                return r;
            },
        };
        let ghost members = text_views(self.workspace_members@);
        let ghost ns = node_views(nodes@);
        let mut excluded: Vec<String> = Vec::new();
        let mut i: usize = 0;
        assert(ns.take(0) =~= Seq::<NodeView>::empty());
        assert(text_views(excluded@) =~= Seq::<Seq<char>>::empty());
        while i < nodes.len()
            invariant
                members == text_views(self.workspace_members@),
                ns == node_views(nodes@),
                i <= nodes.len(),
                text_views(excluded@) == member_direct_ids(members, ns.take(i as int)),
            decreases nodes.len() - i,
        {
            assert(ns.take(i + 1).drop_last() =~= ns.take(i as int));
            assert(ns.take(i + 1).last() == nodes@[i as int]@);
            let node = &nodes[i];
            if contains_string(&self.workspace_members, node.id.as_str()) {
                let mut ids = direct_dependency_ids(&node.dependencies);
                let ghost before = excluded@;
                let ghost added = ids@;
                excluded.append(&mut ids);
                assert(text_views(excluded@) =~= text_views(before) + text_views(added));
            }
            i = i + 1;
        }
        assert(ns.take(nodes.len() as int) =~= ns);
        let mut j: usize = 0;
        assert(package_views(r@) =~= Seq::<PackageView>::empty());
        while j < nodes.len()
            invariant
                members == text_views(self.workspace_members@),
                ns == node_views(nodes@),
                text_views(excluded@) == member_direct_ids(members, ns),
                j <= nodes.len(),
                package_views(r@) == nested_of(members, ns, ns.take(j as int)),
            decreases nodes.len() - j,
        {
            assert(ns.take(j + 1).drop_last() =~= ns.take(j as int));
            assert(ns.take(j + 1).last() == nodes@[j as int]@);
            let id = nodes[j].id.as_str();
            if !contains_string(&self.workspace_members, id) && !contains_string(&excluded, id) {
                match PackageIdInfo::from_package_id(id) {
                    Some(p) => {
                        let ghost before = r@;
                        r.push(p);
                        assert(package_views(r@) =~= package_views(before).push(p@));
                    },
                    None => {},
                }
            }
            j = j + 1;
        }
        assert(ns.take(nodes.len() as int) =~= ns);
        r
    }

    /// For each target that depends on crate `crate_name`, the target's name
    /// and that dependency.
    pub fn get_dependency_info(&self, crate_name: &str) -> (r: Vec<(String, PackageIdInfo)>)
        ensures
            r@.map_values(|e: (String, PackageIdInfo)| (e.0@, e.1@)) == dependency_entries(
                match self.resolve {
                    Some(nodes) => member_dependencies(
                        text_views(self.workspace_members@),
                        node_views(nodes@),
                    ),
                    None => Seq::empty(),
                },
                crate_name@,
            ),
    {
        let deps = self.workspace_member_dependencies();
        let ghost d = target_views(deps@);
        let mut r: Vec<(String, PackageIdInfo)> = Vec::new();
        let mut i: usize = 0;
        assert(d.take(0) =~= Seq::<(Seq<char>, Seq<PackageView>)>::empty());
        assert(r@.map_values(|e: (String, PackageIdInfo)| (e.0@, e.1@)) =~= Seq::empty());
        while i < deps.len()
            invariant
                d == target_views(deps@),
                i <= deps.len(),
                r@.map_values(|e: (String, PackageIdInfo)| (e.0@, e.1@)) == dependency_entries(
                    d.take(i as int),
                    crate_name@,
                ),
            decreases deps.len() - i,
        {
            assert(d.take(i + 1).drop_last() =~= d.take(i as int));
            assert(d.take(i + 1).last() == d[i as int]);
            let (target, list) = &deps[i];
            match find_by_name(list, crate_name) {
                Some(k) => {
                    let ghost before = r@;
                    r.push((target.clone(), list[k].copy()));
                    assert(r@.map_values(|e: (String, PackageIdInfo)| (e.0@, e.1@)) =~= before.map_values(
                        |e: (String, PackageIdInfo)| (e.0@, e.1@),
                    ).push((target@, package_views(list@)[k as int])));
                },
                None => {},
            }
            i = i + 1;
        }
        assert(d.take(deps.len() as int) =~= d);
        r
    }

    /// The registry source folder that a package's manifest path shows: of
    /// the first manifest under `.cargo/`, the folder two levels up, where
    /// that is a crates.io registry source folder.
    pub fn registry_path(&self) -> (r: Option<String>)
        ensures
            r is None <==> registry_path_in(text_views(self.manifest_paths@)) is None,
            r matches Some(p) ==> registry_path_in(text_views(self.manifest_paths@)) == Some(p@),
    {
        let ghost mv = text_views(self.manifest_paths@);
        let mut i: usize = 0;
        assert(mv.skip(0) =~= mv);
        while i < self.manifest_paths.len()
            invariant
                mv == text_views(self.manifest_paths@),
                i <= self.manifest_paths.len(),
                registry_path_in(mv.skip(i as int)) == registry_path_in(mv),
            decreases self.manifest_paths.len() - i,
        {
            let path = self.manifest_paths[i].as_str();
            assert(mv.skip(i as int)[0] == path@);
            assert(mv.skip(i as int).drop_first() =~= mv.skip(i + 1));
            if contains_text(path, ".cargo/") {
                let found = match parent_of(path) {
                    Some(p) => match parent_of(p.as_str()) {
                        Some(q) => if contains_text(q.as_str(), ".cargo/registry/src/index.crates.io-") {
                            Some(q)
                        } else {
                            None
                        },
                        None => None,
                    },
                    None => None,
                };
                assert(found is None <==> registry_folder(path@) is None);
                match found {
                    Some(q) => return Some(q),
                    None => {},
                }
            }
            i = i + 1;
        }
        None
    }
}

} // verus!
