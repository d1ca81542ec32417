//! Accessibility trees: the flat node list that CDP's
//! `Accessibility.getFullAXTree` returns, and the simplified tree built
//! from it for snapshots.

use vstd::hash_map::StringHashMap;
use vstd::prelude::*;

use crate::json::{model_as_str, JsonValue};
use crate::text::owned;

verus! {

/// A typed accessibility value (`AXValue`).
pub struct AXValue {
    pub value_type: String,
    pub value: Option<JsonValue>,
}

/// A named accessibility property (`AXProperty`).
pub struct AXProperty {
    pub name: String,
    pub value: AXValue,
}

/// An accessibility node as CDP reports it (`AXNode`).
pub struct AXNode {
    pub node_id: String,
    pub ignored: bool,
    pub role: Option<AXValue>,
    pub name: Option<AXValue>,
    pub description: Option<AXValue>,
    pub value: Option<AXValue>,
    pub properties: Vec<AXProperty>,
    pub child_ids: Vec<String>,
    pub backend_dom_node_id: Option<i64>,
    pub frame_id: Option<String>,
}

/// A simplified accessibility node, built into a tree.
pub struct AccessibilityNode {
    pub role: String,
    pub name: String,
    pub value: String,
    pub description: String,
    pub backend_node_id: Option<i64>,
    pub properties: Vec<(String, String)>,
    pub children: Vec<AccessibilityNode>,
}

/// The view of an `AccessibilityNode`.
pub struct AccessibilityModel {
    pub role: Seq<char>,
    pub name: Seq<char>,
    pub value: Seq<char>,
    pub description: Seq<char>,
    pub backend_node_id: Option<i64>,
    pub properties: Seq<(Seq<char>, Seq<char>)>,
    pub children: Seq<AccessibilityModel>,
}

/// The views of a list of string pairs.
pub open spec fn pairs_model(p: Seq<(String, String)>) -> Seq<(Seq<char>, Seq<char>)> {
    p.map_values(|e: (String, String)| (e.0@, e.1@))
}

impl AccessibilityNode {
    pub open spec fn model(self) -> AccessibilityModel
        decreases self,
    {
        AccessibilityModel {
            role: self.role@,
            name: self.name@,
            value: self.value@,
            description: self.description@,
            backend_node_id: self.backend_node_id,
            properties: pairs_model(self.properties@),
            children: Seq::new(
                self.children@.len(),
                |i: int|
                    if 0 <= i < self.children@.len() {
                        self.children@[i].model()
                    } else {
                        arbitrary()
                    },
            ),
        }
    }
}

/// The views of a list of nodes.
pub open spec fn nodes_model(v: Seq<AccessibilityNode>) -> Seq<AccessibilityModel> {
    v.map_values(|n: AccessibilityNode| n.model())
}

/// The string carried by an optional `AXValue`, or `default`.
pub open spec fn ax_text(v: Option<AXValue>, default: Seq<char>) -> Seq<char> {
    match v {
        Some(a) => match a.value {
            Some(j) => match model_as_str(j.model()) {
                Some(s) => s,
                None => default,
            },
            None => default,
        },
        None => default,
    }
}

/// The properties whose values are strings, as (name, value) pairs, in order.
pub open spec fn string_properties(ps: Seq<AXProperty>) -> Seq<(Seq<char>, Seq<char>)>
    decreases ps.len(),
{
    if ps.len() == 0 {
        Seq::empty()
    } else {
        let rest = string_properties(ps.drop_last());
        let p = ps.last();
        match p.value.value {
            Some(j) => match model_as_str(j.model()) {
                Some(s) => rest.push((p.name@, s)),
                None => rest,
            },
            None => rest,
        }
    }
}

/// Index of the node a child id refers to: the last node with that id,
/// or -1 when there is none.
pub open spec fn resolve(nodes: Seq<AXNode>, id: Seq<char>) -> int
    decreases nodes.len(),
{
    if nodes.len() == 0 {
        -1
    } else if nodes.last().node_id@ == id {
        nodes.len() - 1
    } else {
        resolve(nodes.drop_last(), id)
    }
}

/// The tree built from node `i`, with `fuel` nested node builds allowed.
/// Children of ignored nodes take their place; a child id that names no
/// node is skipped.
pub open spec fn tree_of(nodes: Seq<AXNode>, i: int, fuel: nat) -> AccessibilityModel
    decreases fuel, 2int, 0int,
{
    let n = nodes[i];
    AccessibilityModel {
        role: ax_text(n.role, "none"@),
        name: ax_text(n.name, Seq::empty()),
        value: ax_text(n.value, Seq::empty()),
        description: ax_text(n.description, Seq::empty()),
        backend_node_id: n.backend_dom_node_id,
        properties: string_properties(n.properties@),
        children: if fuel == 0 {
            Seq::empty()
        } else {
            child_trees(nodes, ids_model(n.child_ids@), (fuel - 1) as nat)
        },
    }
}

/// The views of a list of ids.
pub open spec fn ids_model(ids: Seq<String>) -> Seq<Seq<char>> {
    ids.map_values(|s: String| s@)
}

/// The trees for a list of child ids, each built with `fuel`.
pub open spec fn child_trees(nodes: Seq<AXNode>, ids: Seq<Seq<char>>, fuel: nat) -> Seq<
    AccessibilityModel,
>
    decreases fuel, 3int, ids.len(),
{
    if ids.len() == 0 {
        Seq::empty()
    } else {
        let rest = child_trees(nodes, ids.drop_last(), fuel);
        let j = resolve(nodes, ids.last());
        if j < 0 {
            rest
        } else if nodes[j].ignored {
            rest + grandchild_trees(nodes, ids_model(nodes[j].child_ids@), fuel)
        } else {
            rest.push(tree_of(nodes, j, fuel))
        }
    }
}

/// The trees for the children of an ignored node, each built with `fuel`.
pub open spec fn grandchild_trees(nodes: Seq<AXNode>, ids: Seq<Seq<char>>, fuel: nat) -> Seq<
    AccessibilityModel,
>
    decreases fuel, 2int, ids.len(),
{
    if ids.len() == 0 {
        Seq::empty()
    } else {
        let rest = grandchild_trees(nodes, ids.drop_last(), fuel);
        let k = resolve(nodes, ids.last());
        if k < 0 {
            rest
        } else {
            rest.push(tree_of(nodes, k, fuel))
        }
    }
}

/// Building from node `i` needs at most `fuel` nested node builds. Building
/// terminates exactly when this holds for the root with fuel equal to the
/// number of nodes: a deeper nesting repeats a node and never ends.
pub open spec fn builds_within(nodes: Seq<AXNode>, i: int, fuel: nat) -> bool
    decreases fuel, 2int, 0int,
{
    &&& 0 <= i < nodes.len()
    &&& fuel > 0
    &&& children_build_within(nodes, ids_model(nodes[i].child_ids@), (fuel - 1) as nat)
}

pub open spec fn children_build_within(nodes: Seq<AXNode>, ids: Seq<Seq<char>>, fuel: nat) -> bool
    decreases fuel, 3int, ids.len(),
{
    if ids.len() == 0 {
        true
    } else {
        let j = resolve(nodes, ids.last());
        &&& children_build_within(nodes, ids.drop_last(), fuel)
        &&& (j < 0 || if nodes[j].ignored {
            grandchildren_build_within(nodes, ids_model(nodes[j].child_ids@), fuel)
        } else {
            builds_within(nodes, j, fuel)
        })
    }
}

pub open spec fn grandchildren_build_within(nodes: Seq<AXNode>, ids: Seq<Seq<char>>, fuel: nat) -> bool
    decreases fuel, 2int, ids.len(),
{
    if ids.len() == 0 {
        true
    } else {
        let k = resolve(nodes, ids.last());
        &&& grandchildren_build_within(nodes, ids.drop_last(), fuel)
        &&& (k < 0 || builds_within(nodes, k, fuel))
    }
}

proof fn lemma_resolve(nodes: Seq<AXNode>, id: Seq<char>)
    ensures
        -1 <= resolve(nodes, id) < nodes.len(),
        resolve(nodes, id) >= 0 ==> nodes[resolve(nodes, id)].node_id@ == id,
    decreases nodes.len(),
{
    if nodes.len() > 0 && nodes.last().node_id@ != id {
        lemma_resolve(nodes.drop_last(), id);
    }
}

/// The index map holds, for every node id, the last node with that id.
spec fn index_map_ok(m: Map<Seq<char>, usize>, nodes: Seq<AXNode>) -> bool {
    forall|id: Seq<char>|
        #![trigger m.contains_key(id)]
        (m.contains_key(id) <==> resolve(nodes, id) >= 0) && (m.contains_key(id) ==> m[id]
            == resolve(nodes, id))
}

fn index_nodes(nodes: &Vec<AXNode>) -> (m: StringHashMap<usize>)
    ensures
        index_map_ok(m@, nodes@),
{
    let mut m: StringHashMap<usize> = StringHashMap::new();
    let mut i: usize = 0;
    while i < nodes.len()
        invariant
            i <= nodes@.len(),
            index_map_ok(m@, nodes@.take(i as int)),
        decreases nodes@.len() - i,
    {
        let ghost before = m@;
        let ghost prefix = nodes@.take(i + 1);
        assert(prefix.drop_last() =~= nodes@.take(i as int));
        m.insert(owned(nodes[i].node_id.as_str()), i);
        assert forall|id: Seq<char>| #![trigger m@.contains_key(id)]
            (m@.contains_key(id) <==> resolve(prefix, id) >= 0) && (m@.contains_key(id) ==> m@[id]
                == resolve(prefix, id)) by {
            if id != nodes@[i as int].node_id@ {
                assert(before.contains_key(id) == m@.contains_key(id));
            }
        }
        i = i + 1;
    }
    assert(nodes@.take(nodes@.len() as int) =~= nodes@);
    m
}

fn ax_string(v: &Option<AXValue>, default: &str) -> (s: String)
    ensures
        s@ == ax_text(*v, default@),
{
    match v {
        Some(a) => match &a.value {
            Some(j) => match j.as_str() {
                Some(t) => owned(t),
                None => owned(default),
            },
            None => owned(default),
        },
        None => owned(default),
    }
}

fn ax_string_or_empty(v: &Option<AXValue>) -> (s: String)
    ensures
        s@ == ax_text(*v, Seq::empty()),
{
    match v {
        Some(a) => match &a.value {
            Some(j) => match j.as_str() {
                Some(t) => owned(t),
                None => String::new(),
            },
            None => String::new(),
        },
        None => String::new(),
    }
}

fn collect_properties(ps: &Vec<AXProperty>) -> (r: Vec<(String, String)>)
    ensures
        pairs_model(r@) == string_properties(ps@),
{
    let mut r: Vec<(String, String)> = Vec::new();
    let mut i: usize = 0;
    while i < ps.len()
        invariant
            i <= ps@.len(),
            pairs_model(r@) == string_properties(ps@.take(i as int)),
        decreases ps@.len() - i,
    {
        assert(ps@.take(i + 1).drop_last() =~= ps@.take(i as int));
        let p = &ps[i];
        match &p.value.value {
            Some(j) => match j.as_str() {
                Some(t) => {
                    let ghost before = r@;
                    r.push((p.name.clone(), owned(t)));
                    assert(pairs_model(r@) =~= pairs_model(before).push((p.name@, t@)));
                },
                None => {},
            },
            None => {},
        }
        i = i + 1;
    }
    assert(ps@.take(ps@.len() as int) =~= ps@);
    r
}

/// Appends the node built from `k` to `out`, unless `k` names no node.
fn push_resolved(
    nodes: &Vec<AXNode>,
    index: &StringHashMap<usize>,
    id: &String,
    fuel: usize,
    out: &mut Vec<AccessibilityNode>,
)
    requires
        index_map_ok(index@, nodes@),
        resolve(nodes@, id@) < 0 || builds_within(nodes@, resolve(nodes@, id@), fuel as nat),
    ensures
        nodes_model(final(out)@) == if resolve(nodes@, id@) < 0 {
            nodes_model(old(out)@)
        } else {
            nodes_model(old(out)@).push(tree_of(nodes@, resolve(nodes@, id@), fuel as nat))
        },
    decreases fuel, 3int,
{
    assert(index@.contains_key(id@) == (resolve(nodes@, id@) >= 0));
    match index.get(id.as_str()) {
        Some(k) => {
            let t = build_node(nodes, index, *k, fuel);
            let ghost before = out@;
            out.push(t);
            assert(nodes_model(out@) =~= nodes_model(before).push(t.model()));
        },
        None => {},
    }
}

fn build_node(nodes: &Vec<AXNode>, index: &StringHashMap<usize>, i: usize, fuel: usize) -> (r:
    AccessibilityNode)
    requires
        index_map_ok(index@, nodes@),
        builds_within(nodes@, i as int, fuel as nat),
    ensures
        r.model() == tree_of(nodes@, i as int, fuel as nat),
    decreases fuel, 2int,
{
    let node = &nodes[i];
    let role = ax_string(&node.role, "none");
    let name = ax_string_or_empty(&node.name);
    let value = ax_string_or_empty(&node.value);
    let description = ax_string_or_empty(&node.description);
    let properties = collect_properties(&node.properties);
    let g = fuel - 1;
    let ids = &node.child_ids;
    let ghost idm = ids_model(ids@);
    let mut children: Vec<AccessibilityNode> = Vec::new();
    let mut c: usize = 0;
    while c < ids.len()
        invariant
            index_map_ok(index@, nodes@),
            fuel > 0,
            g == fuel - 1,
            children_build_within(nodes@, idm, g as nat),
            idm == ids_model(ids@),
            c <= ids@.len(),
            nodes_model(children@) == child_trees(nodes@, idm.take(c as int), g as nat),
        decreases ids@.len() - c,
    {
        assert(idm.take(c + 1).drop_last() =~= idm.take(c as int));
        assert(idm.take(c + 1).last() == ids@[c as int]@);
        proof {
            lemma_children_prefix(nodes@, idm, g as nat, c + 1);
            lemma_resolve(nodes@, ids@[c as int]@);
        }
        let id = &ids[c];
        assert(index@.contains_key(id@) == (resolve(nodes@, id@) >= 0));
        match index.get(id.as_str()) {
            Some(j) => {
                let child = &nodes[*j];
                if child.ignored {
                    let gids = &child.child_ids;
                    let ghost gm = ids_model(gids@);
                    let ghost before = nodes_model(children@);
                    let mut k: usize = 0;
                    while k < gids.len()
                        invariant
                            index_map_ok(index@, nodes@),
                            fuel > 0,
                            g == fuel - 1,
                            grandchildren_build_within(nodes@, gm, g as nat),
                            gm == ids_model(gids@),
                            k <= gids@.len(),
                            nodes_model(children@) == before + grandchild_trees(
                                nodes@,
                                gm.take(k as int),
                                g as nat,
                            ),
                        decreases gids@.len() - k,
                    {
                        assert(gm.take(k + 1).drop_last() =~= gm.take(k as int));
                        assert(gm.take(k + 1).last() == gids@[k as int]@);
                        proof {
                            lemma_grandchildren_prefix(nodes@, gm, g as nat, k + 1);
                        }
                        push_resolved(nodes, index, &gids[k], g, &mut children);
                        k = k + 1;
                    }
                    assert(gm.take(gids@.len() as int) =~= gm);
                } else {
                    let t = build_node(nodes, index, *j, g);
                    let ghost before = children@;
                    children.push(t);
                    assert(nodes_model(children@) =~= nodes_model(before).push(t.model()));
                }
            },
            None => {},
        }
        c = c + 1;
    }
    assert(idm.take(ids@.len() as int) =~= idm);
    let r = AccessibilityNode {
        role,
        name,
        value,
        description,
        backend_node_id: node.backend_dom_node_id,
        properties,
        children,
    };
    assert(r.model().children =~= nodes_model(children@));
    r
}

proof fn lemma_children_prefix(nodes: Seq<AXNode>, ids: Seq<Seq<char>>, fuel: nat, n: int)
    requires
        children_build_within(nodes, ids, fuel),
        0 <= n <= ids.len(),
    ensures
        children_build_within(nodes, ids.take(n), fuel),
    decreases ids.len(),
{
    if n < ids.len() {
        assert(ids.drop_last().take(n) =~= ids.take(n));
        lemma_children_prefix(nodes, ids.drop_last(), fuel, n);
    } else {
        assert(ids.take(n) =~= ids);
    }
}

proof fn lemma_grandchildren_prefix(nodes: Seq<AXNode>, ids: Seq<Seq<char>>, fuel: nat, n: int)
    requires
        grandchildren_build_within(nodes, ids, fuel),
        0 <= n <= ids.len(),
    ensures
        grandchildren_build_within(nodes, ids.take(n), fuel),
    decreases ids.len(),
{
    if n < ids.len() {
        assert(ids.drop_last().take(n) =~= ids.take(n));
        lemma_grandchildren_prefix(nodes, ids.drop_last(), fuel, n);
    } else {
        assert(ids.take(n) =~= ids);
    }
}

fn check_node(nodes: &Vec<AXNode>, index: &StringHashMap<usize>, i: usize, fuel: usize) -> (r: bool)
    requires
        index_map_ok(index@, nodes@),
        i < nodes@.len(),
    ensures
        r == builds_within(nodes@, i as int, fuel as nat),
    decreases fuel,
{
    if fuel == 0 {
        return false;
    }
    let g = fuel - 1;
    let ids = &nodes[i].child_ids;
    let ghost idm = ids_model(ids@);
    let mut c: usize = 0;
    while c < ids.len()
        invariant
            index_map_ok(index@, nodes@),
            g == fuel - 1,
            idm == ids_model(ids@),
            ids@ == nodes@[i as int].child_ids@,
            c <= ids@.len(),
            children_build_within(nodes@, idm.take(c as int), g as nat),
        decreases ids@.len() - c,
    {
        assert(idm.take(c + 1).drop_last() =~= idm.take(c as int));
        assert(idm.take(c + 1).last() == ids@[c as int]@);
        proof {
            lemma_resolve(nodes@, ids@[c as int]@);
        }
        let id = &ids[c];
        assert(index@.contains_key(id@) == (resolve(nodes@, id@) >= 0));
        let ok = match index.get(id.as_str()) {
            Some(j) => {
                let child = &nodes[*j];
                if child.ignored {
                    let gids = &child.child_ids;
                    let ghost gm = ids_model(gids@);
                    let mut all = true;
                    let mut k: usize = 0;
                    while k < gids.len()
                        invariant
                            index_map_ok(index@, nodes@),
                            g == fuel - 1,
                            gm == ids_model(gids@),
                            k <= gids@.len(),
                            all == grandchildren_build_within(nodes@, gm.take(k as int), g as nat),
                        decreases gids@.len() - k,
                    {
                        assert(gm.take(k + 1).drop_last() =~= gm.take(k as int));
                        assert(gm.take(k + 1).last() == gids@[k as int]@);
                        proof {
                            lemma_resolve(nodes@, gids@[k as int]@);
                        }
                        let gid = &gids[k];
                        assert(index@.contains_key(gid@) == (resolve(nodes@, gid@) >= 0));
                        let this_ok = match index.get(gid.as_str()) {
                            Some(x) => check_node(nodes, index, *x, g),
                            None => true,
                        };
                        all = all && this_ok;
                        k = k + 1;
                    }
                    assert(gm.take(gids@.len() as int) =~= gm);
                    all
                } else {
                    check_node(nodes, index, *j, g)
                }
            },
            None => true,
        };
        if !ok {
            proof {
                if children_build_within(nodes@, idm, g as nat) {
                    lemma_children_prefix(nodes@, idm, g as nat, c + 1);
                }
            }
            return false;
        }
        c = c + 1;
    }
    assert(idm.take(ids@.len() as int) =~= idm);
    true
}

/// Whether the node list describes a finite tree from its first node, as
/// `build_accessibility_tree` needs (an empty list does).
pub fn tree_is_finite(nodes: &Vec<AXNode>) -> (r: bool)
    ensures
        r == (nodes@.len() > 0 ==> builds_within(nodes@, 0, nodes@.len() as nat)),
{
    if nodes.len() == 0 {
        return true;
    }
    let index = index_nodes(nodes);
    check_node(nodes, &index, 0, nodes.len())
}

/// Build the tree of simplified nodes from the flat CDP node list; the first
/// node is the root. The list must describe a finite tree from the root
/// (see `builds_within`); an empty list gives no tree.
pub fn build_accessibility_tree(nodes: &Vec<AXNode>) -> (r: Option<AccessibilityNode>)
    requires
        nodes@.len() > 0 ==> builds_within(nodes@, 0, nodes@.len() as nat),
    ensures
        match r {
            Some(t) => nodes@.len() > 0 && t.model() == tree_of(nodes@, 0, nodes@.len() as nat),
            None => nodes@.len() == 0,
        },
{
    if nodes.len() == 0 {
        return None;
    }
    let index = index_nodes(nodes);
    Some(build_node(nodes, &index, 0, nodes.len()))
}

/// The string an optional AX value carries, or `default`.
pub open spec fn carried_text(v: Option<AXValue>, default: Seq<char>) -> Seq<char> {
    match v {
        Some(a) => match a.value {
            Some(j) => match j.model() {
                crate::json::JsonModel::String(s) => s,
                _ => default,
            },
            None => default,
        },
        None => default,
    }
}

/// Each field of a built node comes from the same-named field of its AX
/// node: the role from `role` (`none` where it carries no string), and the
/// name, value and description from `name`, `value` and `description`
/// (empty where they carry no string); the backend id is the node's
/// `backendDOMNodeId`. The built tree's root is the first node.
pub proof fn law_built_fields(nodes: Seq<AXNode>, i: int, fuel: nat)
    requires
        0 <= i < nodes.len(),
    ensures
        tree_of(nodes, i, fuel).role == carried_text(nodes[i].role, "none"@),
        tree_of(nodes, i, fuel).name == carried_text(nodes[i].name, Seq::empty()),
        tree_of(nodes, i, fuel).value == carried_text(nodes[i].value, Seq::empty()),
        tree_of(nodes, i, fuel).description == carried_text(nodes[i].description, Seq::empty()),
        tree_of(nodes, i, fuel).backend_node_id == nodes[i].backend_dom_node_id,
        tree_of(nodes, i, fuel).properties == string_properties(nodes[i].properties@),
{
}

/// The properties of a node are those whose values are strings, as (name,
/// value) pairs, in their given order: the properties of two lists one
/// after the other are those of the first, then those of the second; a
/// single property with a string value gives its pair, any other none.
pub proof fn law_string_properties(ps: Seq<AXProperty>, qs: Seq<AXProperty>)
    ensures
        string_properties(ps + qs) == string_properties(ps) + string_properties(qs),
        qs.len() == 1 ==> string_properties(qs) == match qs[0].value.value {
            Some(j) => match j.model() {
                crate::json::JsonModel::String(s) => seq![(qs[0].name@, s)],
                _ => Seq::empty(),
            },
            None => Seq::empty(),
        },
    decreases qs.len(),
{
    if qs.len() == 0 {
        assert(ps + qs =~= ps);
        assert(string_properties(ps) + string_properties(qs) =~= string_properties(ps));
    } else {
        law_string_properties(ps, qs.drop_last());
        assert((ps + qs).drop_last() =~= ps + qs.drop_last());
        assert((ps + qs).last() == qs.last());
        let a = string_properties(ps);
        let b = string_properties(qs.drop_last());
        assert((a + b).push((qs.last().name@, crate::json::model_as_str(
            qs.last().value.value.unwrap().model(),
        ).unwrap_or(Seq::empty()))) =~= a + b.push((qs.last().name@, crate::json::model_as_str(
            qs.last().value.value.unwrap().model(),
        ).unwrap_or(Seq::empty()))));
        if qs.len() == 1 {
            assert(qs.drop_last() =~= Seq::<AXProperty>::empty());
            assert(string_properties(qs.drop_last()) =~= Seq::<(Seq<char>, Seq<char>)>::empty());
        }
    }
}

} // verus!
