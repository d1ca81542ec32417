//! Accessibility snapshots: the text rendering that tools show, and the
//! UID-annotated node table that input tools resolve element UIDs against.

use vstd::hash_map::StringHashMap;
use vstd::prelude::*;

use crate::accessibility::{AccessibilityModel, AccessibilityNode, nodes_model, pairs_model};
use crate::text::{decimal, push_char, push_str, push_u64, str_eq};

verus! {

// ---------------------------------------------------------------------------
// Text rendering
// ---------------------------------------------------------------------------

/// `s` repeated `n` times.
pub open spec fn repeat(s: Seq<char>, n: nat) -> Seq<char>
    decreases n,
{
    if n == 0 {
        Seq::empty()
    } else {
        repeat(s, (n - 1) as nat) + s
    }
}

/// Roles that carry no information of their own.
pub open spec fn is_filler_role(role: Seq<char>) -> bool {
    role == "none"@ || role == "generic"@ || role == "InlineTextBox"@ || role == "LineBreak"@
}

/// The property list of a node rendered as ` key=value` items.
pub open spec fn properties_text(ps: Seq<(Seq<char>, Seq<char>)>) -> Seq<char>
    decreases ps.len(),
{
    if ps.len() == 0 {
        Seq::empty()
    } else {
        properties_text(ps.drop_last()) + " "@ + ps.last().0 + "="@ + ps.last().1
    }
}

/// The line for one shown node (without its children), carrying the
/// node's UID.
pub open spec fn node_line(n: AccessibilityModel, depth: nat, verbose: bool, uid: Seq<char>) -> Seq<
    char,
> {
    repeat("  "@, depth) + "- uid="@ + uid + " "@ + n.role + (if n.name.len() > 0 {
        " \""@ + n.name + "\""@
    } else {
        Seq::empty()
    }) + (if n.value.len() > 0 {
        " value=\""@ + n.value + "\""@
    } else {
        Seq::empty()
    }) + (if verbose && n.description.len() > 0 {
        " description=\""@ + n.description + "\""@
    } else {
        Seq::empty()
    }) + (if verbose {
        properties_text(n.properties)
    } else {
        Seq::empty()
    }) + "\n"@
}

/// The rendering of a node and its subtree at a given depth, the node being
/// number `start` in pre-order (so its UID is `uid_of(start)`, as
/// `assign_uids` numbers it). Unnamed filler nodes are not shown unless
/// `verbose`; their children take their place, and they keep their number.
pub open spec fn node_text(n: AccessibilityModel, depth: nat, verbose: bool, start: nat) -> Seq<char>
    decreases n, 0int,
{
    if !verbose && is_filler_role(n.role) && n.name.len() == 0 {
        children_text(n.children, depth, verbose, start + 1)
    } else {
        node_line(n, depth, verbose, uid_of(start)) + children_text(
            n.children,
            depth + 1,
            verbose,
            start + 1,
        )
    }
}

/// The renderings of a list of sibling subtrees, in order, the first one
/// numbered `start` and each next one after all nodes of the previous ones.
pub open spec fn children_text(
    cs: Seq<AccessibilityModel>,
    depth: nat,
    verbose: bool,
    start: nat,
) -> Seq<char>
    decreases cs, 1int,
{
    if cs.len() == 0 {
        Seq::empty()
    } else {
        proof {
            assert(decreases_to!(cs => cs.subrange(0, cs.len() - 1)));
        }
        children_text(cs.drop_last(), depth, verbose, start) + node_text(
            cs.last(),
            depth,
            verbose,
            start + preorder_all(cs.drop_last()).len(),
        )
    }
}

fn push_quoted(out: &mut String, prefix: &str, s: &String)
    ensures
        final(out)@ == old(out)@ + prefix@ + s@ + "\""@,
{
    push_str(out, prefix);
    push_str(out, s.as_str());
    push_str(out, "\"");
}

fn filler_role(role: &String) -> (r: bool)
    ensures
        r == is_filler_role(role@),
{
    str_eq(role.as_str(), "none") || str_eq(role.as_str(), "generic") || str_eq(
        role.as_str(),
        "InlineTextBox",
    ) || str_eq(role.as_str(), "LineBreak")
}

fn push_indent(output: &mut String, depth: usize)
    ensures
        final(output)@ == old(output)@ + repeat("  "@, depth as nat),
{
    let ghost start = output@;
    let mut d: usize = 0;
    while d < depth
        invariant
            d <= depth,
            output@ == start + repeat("  "@, d as nat),
        decreases depth - d,
    {
        push_str(output, "  ");
        d = d + 1;
        assert(output@ =~= start + repeat("  "@, d as nat));
    }
}

fn push_properties(output: &mut String, ps: &Vec<(String, String)>)
    ensures
        final(output)@ == old(output)@ + properties_text(pairs_model(ps@)),
{
    let ghost e = output@;
    let mut i: usize = 0;
    while i < ps.len()
        invariant
            i <= ps@.len(),
            output@ == e + properties_text(pairs_model(ps@).take(i as int)),
        decreases ps@.len() - i,
    {
        assert(pairs_model(ps@).take(i + 1).drop_last() =~= pairs_model(ps@).take(i as int));
        push_str(output, " ");
        push_str(output, ps[i].0.as_str());
        push_str(output, "=");
        push_str(output, ps[i].1.as_str());
        i = i + 1;
    }
    assert(pairs_model(ps@).take(ps@.len() as int) =~= pairs_model(ps@));
}

fn push_quoted_if(out: &mut String, shown: bool, prefix: &str, s: &String)
    ensures
        final(out)@ == old(out)@ + (if shown {
            prefix@ + s@ + "\""@
        } else {
            Seq::empty()
        }),
{
    if shown {
        push_quoted(out, prefix, s);
    } else {
        assert(out@ =~= out@ + Seq::<char>::empty());
    }
}

fn push_line_head(output: &mut String, depth: usize, uid: &String, role: &String)
    ensures
        final(output)@ == old(output)@ + repeat("  "@, depth as nat) + "- uid="@ + uid@ + " "@
            + role@,
{
    push_indent(output, depth);
    push_str(output, "- uid=");
    push_str(output, uid.as_str());
    push_str(output, " ");
    push_str(output, role.as_str());
}

fn push_line(node: &AccessibilityNode, output: &mut String, depth: usize, verbose: bool, uid: &String)
    ensures
        final(output)@ == old(output)@ + node_line(node.model(), depth as nat, verbose, uid@),
{
    push_line_head(output, depth, uid, &node.role);
    push_quoted_if(output, node.name.unicode_len() > 0, " \"", &node.name);
    push_quoted_if(output, node.value.unicode_len() > 0, " value=\"", &node.value);
    push_quoted_if(
        output,
        verbose && node.description.unicode_len() > 0,
        " description=\"",
        &node.description,
    );
    let ghost e = output@;
    if verbose {
        push_properties(output, &node.properties);
    } else {
        assert(output@ =~= e + Seq::<char>::empty());
    }
    push_str(output, "\n");
    assert(output@ =~= old(output)@ + node_line(node.model(), depth as nat, verbose, uid@));
}

/// The UID of the node numbered `n`.
pub fn uid_string(n: u32) -> (r: String)
    ensures
        r@ == uid_of(n as nat),
{
    let mut uid = String::new();
    push_char(&mut uid, 'e');
    push_u64(&mut uid, n as u64);
    assert(uid@ =~= uid_of(n as nat));
    uid
}

/// Renders `node` and its subtree into `output`, numbering its nodes in
/// pre-order from `*next` on; `*next` moves past them.
#[verifier::loop_isolation(false)]
pub fn format_node(
    node: &AccessibilityNode,
    output: &mut String,
    depth: usize,
    verbose: bool,
    next: &mut u32,
)
    requires
        depth < usize::MAX - subtree_depth(node.model()),
        *old(next) + preorder(node.model()).len() <= u32::MAX,
    ensures
        final(output)@ == old(output)@ + node_text(
            node.model(),
            depth as nat,
            verbose,
            *old(next) as nat,
        ),
        *final(next) == *old(next) + preorder(node.model()).len(),
    decreases node,
{
    let start = *next;
    let show = verbose || !filler_role(&node.role) || node.name.unicode_len() > 0;
    let child_depth = if show {
        let uid = uid_string(start);
        push_line(node, output, depth, verbose, &uid);
        depth + 1
    } else {
        depth
    };
    *next = start + 1;
    let ghost base = output@;
    let cs = &node.children;
    let ghost cm = nodes_model(cs@);
    assert(cm =~= node.model().children);
    assert(cm.take(0) =~= Seq::<AccessibilityModel>::empty());
    let mut i: usize = 0;
    while i < cs.len()
        invariant
            i <= cs@.len(),
            output@ == base + children_text(
                cm.take(i as int),
                child_depth as nat,
                verbose,
                start as nat + 1,
            ),
            *next == start + 1 + preorder_all(cm.take(i as int)).len(),
        decreases cs@.len() - i,
    {
        assert(decreases_to!(*cs => cs[i as int]));
        proof {
            lemma_subtree_depth_child(node.model(), i as int);
            lemma_preorder_all_prefix_len(cm, i + 1);
        }
        assert(cm.take(i + 1).drop_last() =~= cm.take(i as int));
        assert(cm.take(i + 1).last() == cs@[i as int].model());
        format_node(&cs[i], output, child_depth, verbose, next);
        i = i + 1;
    }
    assert(cm.take(cs@.len() as int) =~= cm);
}

/// The height of a tree (a leaf has height 0).
pub open spec fn subtree_depth(n: AccessibilityModel) -> nat
    decreases n, 0int,
{
    children_depth(n.children)
}

pub open spec fn children_depth(cs: Seq<AccessibilityModel>) -> nat
    decreases cs, 1int,
{
    if cs.len() == 0 {
        0
    } else {
        proof {
            assert(decreases_to!(cs => cs.subrange(0, cs.len() - 1)));
        }
        let a = children_depth(cs.drop_last());
        let b = subtree_depth(cs.last()) + 1;
        if a > b {
            a
        } else {
            b
        }
    }
}

proof fn lemma_children_depth(cs: Seq<AccessibilityModel>, i: int)
    requires
        0 <= i < cs.len(),
    ensures
        subtree_depth(cs[i]) + 1 <= children_depth(cs),
    decreases cs.len(),
{
    if i < cs.len() - 1 {
        lemma_children_depth(cs.drop_last(), i);
    }
}

proof fn lemma_subtree_depth_child(n: AccessibilityModel, i: int)
    requires
        0 <= i < n.children.len(),
    ensures
        subtree_depth(n.children[i]) + 1 <= subtree_depth(n),
{
    lemma_children_depth(n.children, i);
}

/// The height of a tree, where it fits in a `usize`.
#[verifier::loop_isolation(false)]
pub fn tree_height(node: &AccessibilityNode) -> (r: Option<usize>)
    ensures
        match r {
            Some(d) => d == subtree_depth(node.model()),
            None => subtree_depth(node.model()) >= usize::MAX,
        },
    decreases node,
{
    let cs = &node.children;
    let ghost cm = nodes_model(cs@);
    assert(cm =~= node.model().children);
    let mut best: usize = 0;
    let mut i: usize = 0;
    assert(cm.take(0) =~= Seq::<AccessibilityModel>::empty());
    while i < cs.len()
        invariant
            i <= cs@.len(),
            best == children_depth(cm.take(i as int)),
        decreases cs@.len() - i,
    {
        assert(decreases_to!(*cs => cs[i as int]));
        assert(cm.take(i + 1).drop_last() =~= cm.take(i as int));
        assert(cm.take(i + 1).last() == cs@[i as int].model());
        match tree_height(&cs[i]) {
            Some(h) => {
                if h >= usize::MAX - 1 {
                    proof {
                        lemma_children_depth(cm, i as int);
                    }
                    return None;
                }
                if h + 1 > best {
                    best = h + 1;
                }
            },
            None => {
                proof {
                    lemma_children_depth(cm, i as int);
                }
                return None;
            },
        }
        i = i + 1;
    }
    assert(cm.take(cs@.len() as int) =~= cm);
    Some(best)
}

/// Format an accessibility tree into its text representation: one line
/// per shown node, carrying the node's UID (`e0`, `e1`, ... in pre-order,
/// as `assign_uids` numbers the nodes).
pub fn format_snapshot(root: &AccessibilityNode, verbose: bool) -> (r: String)
    requires
        subtree_depth(root.model()) < usize::MAX,
        preorder(root.model()).len() <= u32::MAX,
    ensures
        r@ == node_text(root.model(), 0, verbose, 0),
{
    let mut output = String::new();
    let mut next: u32 = 0;
    format_node(root, &mut output, 0, verbose, &mut next);
    output
}

// ---------------------------------------------------------------------------
// UID-annotated snapshot nodes
// ---------------------------------------------------------------------------

/// A node in the text snapshot tree with an assigned UID.
pub struct TextSnapshotNode {
    pub id: String,
    pub role: String,
    pub name: String,
    pub value: String,
    pub description: String,
    pub backend_node_id: Option<i64>,
    pub children: Vec<TextSnapshotNode>,
}

/// Accessibility tree snapshot with UID-annotated nodes.
pub struct TextSnapshot {
    pub snapshot_id: String,
    pub root: TextSnapshotNode,
    pub id_to_node: StringHashMap<TextSnapshotNode>,
    pub verbose: bool,
}

/// The view of a `TextSnapshotNode`.
pub struct SnapshotNodeModel {
    pub id: Seq<char>,
    pub role: Seq<char>,
    pub name: Seq<char>,
    pub value: Seq<char>,
    pub description: Seq<char>,
    pub backend_node_id: Option<i64>,
    pub children: Seq<SnapshotNodeModel>,
}

impl TextSnapshotNode {
    pub open spec fn model(self) -> SnapshotNodeModel
        decreases self,
    {
        SnapshotNodeModel {
            id: self.id@,
            role: self.role@,
            name: self.name@,
            value: self.value@,
            description: self.description@,
            backend_node_id: self.backend_node_id,
            children: Seq::new(
                self.children@.len(),
                |i: int|
                    if 0 <= i < self.children@.len() {
                        self.children@[i].model()
                    } else {
                        arbitrary()
                    },
            ),
        }
    }
}

/// The UID of the node numbered `n`: `e` followed by the number.
pub open spec fn uid_of(n: nat) -> Seq<char> {
    seq!['e'] + decimal(n)
}

/// The nodes of a tree in pre-order (a node, then its children's subtrees).
pub open spec fn preorder(n: AccessibilityModel) -> Seq<AccessibilityModel>
    decreases n, 0int,
{
    seq![n] + preorder_all(n.children)
}

pub open spec fn preorder_all(cs: Seq<AccessibilityModel>) -> Seq<AccessibilityModel>
    decreases cs, 1int,
{
    if cs.len() == 0 {
        Seq::empty()
    } else {
        proof {
            assert(decreases_to!(cs => cs.subrange(0, cs.len() - 1)));
        }
        preorder_all(cs.drop_last()) + preorder(cs.last())
    }
}

/// The table entry for a node: its UID and its own fields, without children.
pub open spec fn entry_of(n: AccessibilityModel, uid: Seq<char>) -> SnapshotNodeModel {
    SnapshotNodeModel {
        id: uid,
        role: n.role,
        name: n.name,
        value: n.value,
        description: n.description,
        backend_node_id: n.backend_node_id,
        children: Seq::empty(),
    }
}

/// The table after numbering `ns` from `start` on: the `k`-th node is entered
/// under `uid_of(start + k)`.
pub open spec fn numbered(
    table: Map<Seq<char>, SnapshotNodeModel>,
    ns: Seq<AccessibilityModel>,
    start: nat,
) -> Map<Seq<char>, SnapshotNodeModel>
    decreases ns.len(),
{
    if ns.len() == 0 {
        table
    } else {
        let k = (ns.len() - 1) as nat;
        numbered(table, ns.drop_last(), start).insert(
            uid_of(start + k),
            entry_of(ns.last(), uid_of(start + k)),
        )
    }
}

/// The views of a UID table.
pub open spec fn table_model(m: Map<Seq<char>, TextSnapshotNode>) -> Map<Seq<char>, SnapshotNodeModel> {
    m.map_values(|n: TextSnapshotNode| n.model())
}

proof fn lemma_numbered_append(
    table: Map<Seq<char>, SnapshotNodeModel>,
    a: Seq<AccessibilityModel>,
    b: Seq<AccessibilityModel>,
    start: nat,
)
    ensures
        numbered(table, a + b, start) == numbered(numbered(table, a, start), b, start + a.len()),
    decreases b.len(),
{
    if b.len() == 0 {
        assert(a + b =~= a);
    } else {
        assert((a + b).drop_last() =~= a + b.drop_last());
        lemma_numbered_append(table, a, b.drop_last(), start);
        assert((a + b).last() == b.last());
    }
}

/// Different node numbers give different UIDs.
pub proof fn law_uids_distinct(a: nat, b: nat)
    ensures
        a != b ==> uid_of(a) != uid_of(b),
{
    if uid_of(a) == uid_of(b) {
        assert(uid_of(a).drop_first() =~= decimal(a));
        assert(uid_of(b).drop_first() =~= decimal(b));
        crate::text::lemma_decimal_injective(a, b);
    }
}

/// After numbering, the UID of the `k`-th node (from `start`) reads back
/// that node's entry.
pub proof fn law_numbered_lookup(
    table: Map<Seq<char>, SnapshotNodeModel>,
    ns: Seq<AccessibilityModel>,
    start: nat,
    k: int,
)
    requires
        0 <= k < ns.len(),
    ensures
        numbered(table, ns, start).contains_key(uid_of(start + k as nat)),
        numbered(table, ns, start)[uid_of(start + k as nat)] == entry_of(
            ns[k],
            uid_of(start + k as nat),
        ),
    decreases ns.len(),
{
    let last = (ns.len() - 1) as nat;
    if k < last {
        law_numbered_lookup(table, ns.drop_last(), start, k);
        law_uids_distinct(start + k as nat, start + last);
    }
}

/// Numbers the subtree of `node` in pre-order from `*counter` on, entering
/// each node (without children) under its UID.
#[verifier::loop_isolation(false)]
pub fn assign_uids(
    node: &AccessibilityNode,
    map: &mut StringHashMap<TextSnapshotNode>,
    counter: &mut u32,
)
    requires
        *old(counter) + preorder(node.model()).len() <= u32::MAX,
    ensures
        *final(counter) == *old(counter) + preorder(node.model()).len(),
        table_model(final(map)@) == numbered(
            table_model(old(map)@),
            preorder(node.model()),
            *old(counter) as nat,
        ),
    decreases node,
{
    let ghost start = *counter as nat;
    let ghost t0 = table_model(map@);
    let mut uid = String::new();
    push_char(&mut uid, 'e');
    push_u64(&mut uid, *counter as u64);
    assert(uid@ =~= uid_of(start));
    *counter = *counter + 1;
    let text_node = TextSnapshotNode {
        id: uid.clone(),
        role: node.role.clone(),
        name: node.name.clone(),
        value: node.value.clone(),
        description: node.description.clone(),
        backend_node_id: node.backend_node_id,
        children: Vec::new(),
    };
    assert(text_node.model().children =~= Seq::<SnapshotNodeModel>::empty());
    assert(text_node.model() =~= entry_of(node.model(), uid_of(start)));
    map.insert(uid, text_node);
    assert(table_model(map@) =~= t0.insert(uid_of(start), entry_of(node.model(), uid_of(start))));
    assert(seq![node.model()].drop_last() =~= Seq::<AccessibilityModel>::empty());
    assert(numbered(t0, Seq::<AccessibilityModel>::empty(), start) == t0);
    assert(numbered(t0, seq![node.model()], start) =~= t0.insert(
        uid_of(start),
        entry_of(node.model(), uid_of(start)),
    ));
    let cs = &node.children;
    let ghost cm = nodes_model(cs@);
    assert(cm =~= node.model().children);
    let mut i: usize = 0;
    while i < cs.len()
        invariant
            i <= cs@.len(),
            *counter == start + 1 + preorder_all(cm.take(i as int)).len(),
            table_model(map@) == numbered(t0, seq![node.model()] + preorder_all(cm.take(i as int)), start),
            start + preorder(node.model()).len() <= u32::MAX,
        decreases cs@.len() - i,
    {
        assert(decreases_to!(*cs => cs[i as int]));
        assert(cm.take(i + 1).drop_last() =~= cm.take(i as int));
        assert(cm.take(i + 1).last() == cm[i as int]);
        proof {
            lemma_preorder_all_prefix_len(cm, i as int + 1);
        }
        let ghost before = seq![node.model()] + preorder_all(cm.take(i as int));
        assign_uids(&cs[i], map, counter);
        proof {
            lemma_numbered_append(t0, before, preorder(cm[i as int]), start);
            assert(before + preorder(cm[i as int]) =~= seq![node.model()] + preorder_all(
                cm.take(i + 1),
            ));
        }
        i = i + 1;
    }
    assert(cm.take(cs@.len() as int) =~= cm);
    assert(seq![node.model()] + preorder_all(cm) =~= preorder(node.model()));
}

proof fn lemma_preorder_all_prefix_len(cs: Seq<AccessibilityModel>, n: int)
    requires
        0 <= n <= cs.len(),
    ensures
        preorder_all(cs.take(n)).len() <= preorder_all(cs).len(),
    decreases cs.len(),
{
    if n < cs.len() {
        assert(cs.drop_last().take(n) =~= cs.take(n));
        lemma_preorder_all_prefix_len(cs.drop_last(), n);
    } else {
        assert(cs.take(n) =~= cs);
    }
}

/// The snapshot tree of an accessibility tree whose root is node number
/// `start` in pre-order: each node carries the UID `assign_uids` gives it.
pub open spec fn uid_tree(n: AccessibilityModel, start: nat) -> SnapshotNodeModel
    decreases n, 0int,
{
    SnapshotNodeModel {
        id: uid_of(start),
        role: n.role,
        name: n.name,
        value: n.value,
        description: n.description,
        backend_node_id: n.backend_node_id,
        children: uid_forest(n.children, start + 1),
    }
}

/// The snapshot trees of sibling subtrees, the first one numbered `start`
/// and each next one after all nodes of the previous ones.
pub open spec fn uid_forest(cs: Seq<AccessibilityModel>, start: nat) -> Seq<SnapshotNodeModel>
    decreases cs, 1int,
{
    if cs.len() == 0 {
        Seq::empty()
    } else {
        proof {
            assert(decreases_to!(cs => cs.subrange(0, cs.len() - 1)));
        }
        uid_forest(cs.drop_last(), start).push(
            uid_tree(cs.last(), start + preorder_all(cs.drop_last()).len()),
        )
    }
}

/// The views of a list of snapshot nodes.
pub open spec fn snapshot_models(v: Seq<TextSnapshotNode>) -> Seq<SnapshotNodeModel> {
    v.map_values(|n: TextSnapshotNode| n.model())
}

/// Copies a subtree into snapshot nodes numbered in pre-order from `*next`
/// on; `*next` moves past them.
#[verifier::loop_isolation(false)]
fn text_node_from(node: &AccessibilityNode, next: &mut u32) -> (r: TextSnapshotNode)
    requires
        *old(next) + preorder(node.model()).len() <= u32::MAX,
    ensures
        r.model() == uid_tree(node.model(), *old(next) as nat),
        *final(next) == *old(next) + preorder(node.model()).len(),
    decreases node,
{
    let start = *next;
    let id = uid_string(start);
    *next = start + 1;
    let cs = &node.children;
    let ghost cm = nodes_model(cs@);
    assert(cm =~= node.model().children);
    assert(cm.take(0) =~= Seq::<AccessibilityModel>::empty());
    let mut children: Vec<TextSnapshotNode> = Vec::new();
    assert(snapshot_models(children@) =~= Seq::<SnapshotNodeModel>::empty());
    let mut i: usize = 0;
    while i < cs.len()
        invariant
            i <= cs@.len(),
            snapshot_models(children@) == uid_forest(cm.take(i as int), start as nat + 1),
            *next == start + 1 + preorder_all(cm.take(i as int)).len(),
        decreases cs@.len() - i,
    {
        assert(decreases_to!(*cs => cs[i as int]));
        proof {
            lemma_preorder_all_prefix_len(cm, i + 1);
        }
        assert(cm.take(i + 1).drop_last() =~= cm.take(i as int));
        assert(cm.take(i + 1).last() == cs@[i as int].model());
        let ghost before = snapshot_models(children@);
        let child = text_node_from(&cs[i], next);
        children.push(child);
        assert(snapshot_models(children@) =~= before.push(child.model()));
        i = i + 1;
    }
    assert(cm.take(cs@.len() as int) =~= cm);
    let r = TextSnapshotNode {
        id,
        role: node.role.clone(),
        name: node.name.clone(),
        value: node.value.clone(),
        description: node.description.clone(),
        backend_node_id: node.backend_node_id,
        children,
    };
    assert(r.model().children =~= snapshot_models(r.children@));
    r
}

/// Copies the accessibility tree into snapshot nodes, each carrying the UID
/// that `assign_uids` gives it when numbering from 0 (the root's is `e0`),
/// so that every node's id is its key in the table (`law_snapshot_ids`).
pub fn to_text_node(node: &AccessibilityNode, _map: &StringHashMap<TextSnapshotNode>) -> (r:
    TextSnapshotNode)
    requires
        preorder(node.model()).len() <= u32::MAX,
    ensures
        r.model() == uid_tree(node.model(), 0),
{
    let mut next: u32 = 0;
    text_node_from(node, &mut next)
}

/// The nodes of a snapshot tree in pre-order.
pub open spec fn snap_preorder(t: SnapshotNodeModel) -> Seq<SnapshotNodeModel>
    decreases t, 0int,
{
    seq![t] + snap_preorder_all(t.children)
}

pub open spec fn snap_preorder_all(ts: Seq<SnapshotNodeModel>) -> Seq<SnapshotNodeModel>
    decreases ts, 1int,
{
    if ts.len() == 0 {
        Seq::empty()
    } else {
        proof {
            assert(decreases_to!(ts => ts.subrange(0, ts.len() - 1)));
        }
        snap_preorder_all(ts.drop_last()) + snap_preorder(ts.last())
    }
}

/// A snapshot node on its own, as the UID table holds it.
pub open spec fn without_children(t: SnapshotNodeModel) -> SnapshotNodeModel {
    SnapshotNodeModel { children: Seq::empty(), ..t }
}

/// The nodes of a list, each on its own.
pub open spec fn strip_all(ts: Seq<SnapshotNodeModel>) -> Seq<SnapshotNodeModel> {
    Seq::new(ts.len(), |k: int| without_children(ts[k]))
}

/// The table entries of nodes numbered from `start` on.
pub open spec fn entries_from(ns: Seq<AccessibilityModel>, start: nat) -> Seq<SnapshotNodeModel> {
    Seq::new(ns.len(), |k: int| entry_of(ns[k], uid_of(start + k as nat)))
}

proof fn lemma_strip_append(a: Seq<SnapshotNodeModel>, b: Seq<SnapshotNodeModel>)
    ensures
        strip_all(a + b) == strip_all(a) + strip_all(b),
{
    assert forall|k: int| 0 <= k < a.len() + b.len() implies #[trigger] strip_all(a + b)[k] == (
    strip_all(a) + strip_all(b))[k] by {
        if k >= a.len() {
            assert((a + b)[k] == b[k - a.len()]);
        }
    }
    assert(strip_all(a + b) =~= strip_all(a) + strip_all(b));
}

proof fn lemma_entries_from_append(a: Seq<AccessibilityModel>, b: Seq<AccessibilityModel>, start: nat)
    ensures
        entries_from(a + b, start) == entries_from(a, start) + entries_from(b, start + a.len()),
{
    assert forall|k: int| 0 <= k < a.len() + b.len() implies #[trigger] entries_from(a + b, start)[k]
        == (entries_from(a, start) + entries_from(b, start + a.len()))[k] by {
        if k >= a.len() {
            assert((a + b)[k] == b[k - a.len()]);
            assert(start + k as nat == (start + a.len()) + (k - a.len()) as nat);
        }
    }
    assert(entries_from(a + b, start) =~= entries_from(a, start) + entries_from(b, start + a.len()));
}

proof fn lemma_uid_tree_preorder(n: AccessibilityModel, start: nat)
    ensures
        strip_all(snap_preorder(uid_tree(n, start))) == entries_from(preorder(n), start),
    decreases n, 0int,
{
    let t = uid_tree(n, start);
    lemma_uid_forest_preorder(n.children, start + 1);
    let f = snap_preorder_all(uid_forest(n.children, start + 1));
    assert(snap_preorder(t) == seq![t] + f);
    lemma_strip_append(seq![t], f);
    lemma_entries_from_append(seq![n], preorder_all(n.children), start);
    assert(entries_from(seq![n], start) =~= seq![entry_of(n, uid_of(start))]);
    assert(strip_all(seq![t]) =~= seq![without_children(t)]);
    assert(without_children(t) == entry_of(n, uid_of(start)));
}

proof fn lemma_uid_forest_preorder(cs: Seq<AccessibilityModel>, start: nat)
    ensures
        strip_all(snap_preorder_all(uid_forest(cs, start))) == entries_from(preorder_all(cs), start),
    decreases cs, 1int,
{
    if cs.len() == 0 {
        assert(strip_all(snap_preorder_all(uid_forest(cs, start))) =~= entries_from(
            preorder_all(cs),
            start,
        ));
    } else {
        assert(decreases_to!(cs => cs.subrange(0, cs.len() - 1)));
        let init = cs.drop_last();
        let s2 = start + preorder_all(init).len();
        lemma_uid_forest_preorder(init, start);
        lemma_uid_tree_preorder(cs.last(), s2);
        let ff = uid_forest(init, start);
        let tt = uid_tree(cs.last(), s2);
        assert(ff.push(tt).drop_last() =~= ff);
        assert(ff.push(tt).last() == tt);
        let a = snap_preorder_all(ff);
        let b = snap_preorder(tt);
        assert(snap_preorder_all(uid_forest(cs, start)) == a + b);
        lemma_strip_append(a, b);
        lemma_entries_from_append(preorder_all(init), preorder(cs.last()), start);
    }
}

/// Every node of a snapshot carries its key in the UID table: looking up the
/// id of the `k`-th node (in pre-order) in the table that `assign_uids`
/// builds from 0 gives that node back (without its children).
pub proof fn law_snapshot_ids(n: AccessibilityModel, k: int)
    requires
        0 <= k < preorder(n).len(),
    ensures
        snap_preorder(uid_tree(n, 0)).len() == preorder(n).len(),
        snap_preorder(uid_tree(n, 0))[k].id == uid_of(k as nat),
        numbered(Map::empty(), preorder(n), 0).contains_key(snap_preorder(uid_tree(n, 0))[k].id),
        numbered(Map::empty(), preorder(n), 0)[snap_preorder(uid_tree(n, 0))[k].id]
            == without_children(snap_preorder(uid_tree(n, 0))[k]),
{
    lemma_uid_tree_preorder(n, 0);
    let sp = snap_preorder(uid_tree(n, 0));
    assert(strip_all(sp).len() == sp.len());
    assert(strip_all(sp)[k] == without_children(sp[k]));
    assert(entries_from(preorder(n), 0)[k] == entry_of(preorder(n)[k], uid_of(0 + k as nat)));
    law_numbered_lookup(Map::empty(), preorder(n), 0, k);
}

/// Why a UID could not be resolved.
pub open spec fn uid_error(uid: Seq<char>, entry: Option<SnapshotNodeModel>) -> Seq<char> {
    match entry {
        None => "Element with UID '"@ + uid + "' not found in snapshot"@,
        Some(_) => "Element '"@ + uid + "' has no backendNodeId"@,
    }
}

/// Resolve an element UID against a snapshot to its backend DOM node id.
pub fn resolve_snapshot_uid(snapshot: Option<&TextSnapshot>, uid: &str) -> (r: Result<i64, String>)
    ensures
        match snapshot {
            None => r matches Err(e) && e@ == "No snapshot taken yet. Call take_snapshot first."@,
            Some(s) => match table_model(s.id_to_node@).get(uid@) {
                Some(n) => match n.backend_node_id {
                    Some(b) => r == Ok::<i64, String>(b),
                    None => r matches Err(e) && e@ == uid_error(uid@, Some(n)),
                },
                None => r matches Err(e) && e@ == uid_error(uid@, None),
            },
        },
{
    let s = match snapshot {
        Some(s) => s,
        None => {
            return Err(crate::text::owned("No snapshot taken yet. Call take_snapshot first."));
        },
    };
    match s.id_to_node.get(uid) {
        Some(n) => {
            assert(table_model(s.id_to_node@).get(uid@) == Some(n.model()));
            match n.backend_node_id {
                Some(b) => Ok(b),
                None => {
                    let mut e = crate::text::owned("Element '");
                    push_str(&mut e, uid);
                    push_str(&mut e, "' has no backendNodeId");
                    Err(e)
                },
            }
        },
        None => {
            let mut e = crate::text::owned("Element with UID '");
            push_str(&mut e, uid);
            push_str(&mut e, "' not found in snapshot");
            Err(e)
        },
    }
}

/// The number of nodes of a tree, where it fits in a `u32`.
#[verifier::loop_isolation(false)]
pub fn tree_size(node: &AccessibilityNode) -> (r: Option<u32>)
    ensures
        match r {
            Some(n) => n == preorder(node.model()).len(),
            None => preorder(node.model()).len() > u32::MAX,
        },
    decreases node,
{
    let cs = &node.children;
    let ghost cm = nodes_model(cs@);
    assert(cm =~= node.model().children);
    let mut total: u32 = 1;
    let mut i: usize = 0;
    assert(cm.take(0) =~= Seq::<AccessibilityModel>::empty());
    while i < cs.len()
        invariant
            i <= cs@.len(),
            total == 1 + preorder_all(cm.take(i as int)).len(),
        decreases cs@.len() - i,
    {
        assert(decreases_to!(*cs => cs[i as int]));
        assert(cm.take(i + 1).drop_last() =~= cm.take(i as int));
        assert(cm.take(i + 1).last() == cs@[i as int].model());
        match tree_size(&cs[i]) {
            Some(k) => {
                if k > u32::MAX - total {
                    proof {
                        lemma_preorder_all_prefix_len(cm, i + 1);
                    }
                    return None;
                }
                total = total + k;
            },
            None => {
                proof {
                    lemma_preorder_all_prefix_len(cm, i + 1);
                }
                return None;
            },
        }
        i = i + 1;
    }
    assert(cm.take(cs@.len() as int) =~= cm);
    Some(total)
}

/// An empty UID table.
pub fn empty_uid_table() -> (r: StringHashMap<TextSnapshotNode>)
    ensures
        r@ == Map::<Seq<char>, TextSnapshotNode>::empty(),
{
    StringHashMap::new()
}

impl TextSnapshot {
    /// Takes a snapshot of a tree: its nodes numbered `e0`, `e1`, ... in
    /// pre-order and entered in the UID table, and a copy of the tree.
    pub fn take(snapshot_id: u32, root: &AccessibilityNode, verbose: bool) -> (r: TextSnapshot)
        requires
            preorder(root.model()).len() <= u32::MAX,
        ensures
            r.snapshot_id@ == decimal(snapshot_id as nat),
            table_model(r.id_to_node@) == numbered(
                Map::<Seq<char>, SnapshotNodeModel>::empty(),
                preorder(root.model()),
                0,
            ),
            r.root.model() == uid_tree(root.model(), 0),
            r.verbose == verbose,
    {
        let mut id_to_node = empty_uid_table();
        let mut counter: u32 = 0;
        assert(table_model(id_to_node@) =~= Map::<Seq<char>, SnapshotNodeModel>::empty());
        assign_uids(root, &mut id_to_node, &mut counter);
        let text_root = to_text_node(root, &id_to_node);
        TextSnapshot {
            snapshot_id: crate::text::u64_to_string(snapshot_id as u64),
            root: text_root,
            id_to_node,
            verbose,
        }
    }
}

/// A shown node's line carries its name as ` "<name>"` whenever the name is
/// non-empty and its value as ` value="<value>"` whenever the value is
/// non-empty, verbose or not; it starts with the indentation, `- uid=`, the
/// UID, a space and the role, and ends with a newline.
pub proof fn law_line_shows_value(n: AccessibilityModel, depth: nat, verbose: bool, uid: Seq<char>)
    ensures
        n.value.len() > 0 ==> crate::text::contains_seq(
            node_line(n, depth, verbose, uid),
            " value=\""@ + n.value + "\""@,
        ),
        n.name.len() > 0 ==> crate::text::contains_seq(
            node_line(n, depth, verbose, uid),
            " \""@ + n.name + "\""@,
        ),
        crate::text::starts_with_seq(
            node_line(n, depth, verbose, uid),
            repeat("  "@, depth) + "- uid="@ + uid + " "@ + n.role,
        ),
        node_line(n, depth, verbose, uid).last() == '\n',
{
    let head = repeat("  "@, depth) + "- uid="@ + uid + " "@ + n.role;
    let pn = if n.name.len() > 0 {
        " \""@ + n.name + "\""@
    } else {
        Seq::empty()
    };
    let pv = if n.value.len() > 0 {
        " value=\""@ + n.value + "\""@
    } else {
        Seq::empty()
    };
    let line = node_line(n, depth, verbose, uid);
    let rest = line.subrange((head + pn + pv).len() as int, line.len() as int);
    assert(line =~= head + pn + pv + rest);
    if n.value.len() > 0 {
        let at = (head + pn).len() as int;
        assert(line.subrange(at, at + pv.len()) =~= pv);
        assert(crate::text::occurs_at(line, pv, at));
    }
    if n.name.len() > 0 {
        let at = head.len() as int;
        assert(line.subrange(at, at + pn.len()) =~= pn);
        assert(crate::text::occurs_at(line, pn, at));
    }
    assert(line.subrange(0, head.len() as int) =~= head);
    reveal_strlit("\n");
}

} // verus!
