//! What holds of every mirrored tree.

use crate::a11y::{
    element_writes, last_place, list_digest, list_writes, text_writes, A11yElementView, A11yUpdate,
    BridgeState, TraitBits,
};
use crate::a11y_tree::{AccessNodeView, AccessTreeView, ElementFrame};
use accesskit::Role;
use std::collections::hash_map::DefaultHasher;
use vstd::bytes::spec_u64_to_le_bytes;
use vstd::prelude::*;
use vstd::std_specs::hash::DefaultHasherAdditionalSpecFns;
use vstd::utf8::encode_utf8;

verus! {

/// Activating a bridge again changes nothing.
pub proof fn law_activation_is_idempotent(bridge: BridgeState)
    ensures
        bridge.activated().active,
        bridge.activated().activated() == bridge.activated(),
{
}

/// The tree that was mirrored last is no news: mirroring it again posts nothing and changes
/// nothing.
pub proof fn law_a_repeated_tree_posts_nothing(
    bridge: BridgeState,
    tree: AccessTreeView,
    bits: TraitBits,
)
    requires
        tree.reading_order() is Some,
    ensures
        bridge.updated(tree, bits).told(tree, bits) is Unchanged,
        bridge.updated(tree, bits).updated(tree, bits) == bridge.updated(tree, bits),
{
}

/// A change of focus is always posted, and leads VoiceOver to the focused element where the list
/// has it. Without one VoiceOver is never led anywhere.
pub proof fn law_the_focus_is_followed_when_it_moves(
    bridge: BridgeState,
    tree: AccessTreeView,
    bits: TraitBits,
)
    requires
        tree.reading_order() is Some,
        tree.reading_order()->0.len() <= usize::MAX,
    ensures
        bridge.focus != Some(tree.focus) ==> bridge.told(tree, bits) == A11yUpdate::Changed(
            last_place(tree.reading_order()->0, tree.focus),
        ),
        bridge.focus == Some(tree.focus) ==> bridge.told(tree, bits) is Unchanged || bridge.told(
            tree,
            bits,
        ) == A11yUpdate::Changed(None),
        last_place(tree.reading_order()->0, tree.focus) matches Some(place) ==> {
            &&& place < tree.reading_order()->0.len()
            &&& tree.reading_order()->0[place as int] == tree.focus
            &&& forall|later: int|
                place < later < tree.reading_order()->0.len()
                    ==> #[trigger] tree.reading_order()->0[later] != tree.focus
        },
        last_place(tree.reading_order()->0, tree.focus) is None ==> !tree.reading_order()->0.contains(
            tree.focus,
        ),
{
    lemma_last_place(tree.reading_order()->0, tree.focus);
}

proof fn lemma_last_place(order: Seq<u64>, id: u64)
    requires
        order.len() <= usize::MAX,
    ensures
        last_place(order, id) matches Some(place) ==> place < order.len() && order[place as int]
            == id && forall|later: int|
            place < later < order.len() ==> #[trigger] order[later] != id,
        last_place(order, id) is None ==> !order.contains(id),
    decreases order.len(),
{
    if order.len() > 0 && order.last() != id {
        lemma_last_place(order.drop_last(), id);
        if order.contains(id) {
            let i = choose|i: int| 0 <= i < order.len() && order[i] == id;
            assert(order.drop_last()[i] == id);
        }
        assert forall|later: int| 0 <= later < order.len() - 1 implies #[trigger] order[later]
            == order.drop_last()[later] by {}
    }
}

/// How far down a tree is walked makes no difference once it is far enough.
pub proof fn law_reading_further_down_changes_nothing(
    tree: AccessTreeView,
    id: u64,
    depth: nat,
    deeper: nat,
)
    requires
        depth <= deeper,
        tree.stops(id, depth) is Some,
    ensures
        tree.stops(id, deeper) == tree.stops(id, depth),
    decreases depth, 0nat,
{
    if tree.node(id) is Some {
        let children = tree.node(id)->0.children;
        lemma_row_further_down(
            tree,
            children,
            children.len(),
            (depth - 1) as nat,
            (deeper - 1) as nat,
        );
    }
}

proof fn lemma_row_further_down(
    tree: AccessTreeView,
    children: Seq<u64>,
    count: nat,
    depth: nat,
    deeper: nat,
)
    requires
        depth <= deeper,
        tree.stops_of(children, count, depth) is Some,
    ensures
        tree.stops_of(children, count, deeper) == tree.stops_of(children, count, depth),
    decreases depth, count,
{
    if count > 0 {
        lemma_row_further_down(tree, children, (count - 1) as nat, depth, deeper);
        law_reading_further_down_changes_nothing(tree, children[count - 1], depth, deeper);
    }
}

/// Whether `reach` holds every node that its nodes have for a child, and each such child ranks
/// below its parent.
pub open spec fn ranked(tree: AccessTreeView, reach: Set<u64>, rank: spec_fn(u64) -> nat) -> bool {
    forall|id: u64, child: u64|
        #![trigger tree.node(id), tree.node(child)]
        reach.contains(id) && tree.node(id) is Some && tree.node(child) is Some && tree.node(
            id,
        )->0.children.contains(child) ==> reach.contains(child) && rank(child) < rank(id)
}

/// The nodes that rank no higher than `id`.
spec fn below(tree: AccessTreeView, rank: spec_fn(u64) -> nat, id: u64) -> Set<u64> {
    ids(tree).filter(|other: u64| rank(other) <= rank(id))
}

spec fn ids(tree: AccessTreeView) -> Set<u64> {
    Seq::new(tree.nodes.len(), |i: int| tree.nodes[i].id).to_set()
}

proof fn lemma_ids(tree: AccessTreeView, id: u64, count: int)
    requires
        count <= tree.nodes.len(),
        tree.position(id, count) is Some,
    ensures
        ids(tree).contains(id),
    decreases count,
{
    if count > 0 {
        let all = Seq::new(tree.nodes.len(), |i: int| tree.nodes[i].id);
        if tree.nodes[count - 1].id == id {
            assert(all[count - 1] == id);
            assert(all.contains(id));
        } else {
            lemma_ids(tree, id, count - 1);
        }
    }
}

/// A tree has a reading order if the part of it that the root reaches has no cycle, whatever the
/// rest looks like.
pub proof fn law_a_tree_without_cycles_has_a_reading_order(
    tree: AccessTreeView,
    reach: Set<u64>,
    rank: spec_fn(u64) -> nat,
)
    requires
        reach.contains(tree.root),
        ranked(tree, reach, rank),
    ensures
        tree.reading_order() is Some,
{
    let all = Seq::new(tree.nodes.len(), |i: int| tree.nodes[i].id);
    vstd::seq_lib::seq_to_set_is_finite(all);
    all.lemma_cardinality_of_set();
    assert(below(tree, rank, tree.root).subset_of(ids(tree)));
    vstd::set_lib::lemma_len_subset(below(tree, rank, tree.root), ids(tree));
    lemma_deep_enough(tree, reach, rank, tree.root, tree.nodes.len());
}

proof fn lemma_deep_enough(
    tree: AccessTreeView,
    reach: Set<u64>,
    rank: spec_fn(u64) -> nat,
    id: u64,
    depth: nat,
)
    requires
        reach.contains(id),
        ranked(tree, reach, rank),
        below(tree, rank, id).len() <= depth,
    ensures
        tree.stops(id, depth) is Some,
    decreases depth, 0nat,
{
    if tree.node(id) is Some {
        let all = Seq::new(tree.nodes.len(), |i: int| tree.nodes[i].id);
        vstd::seq_lib::seq_to_set_is_finite(all);
        lemma_ids(tree, id, tree.nodes.len() as int);
        let own = below(tree, rank, id);
        assert(own.contains(id));
        assert(own.subset_of(ids(tree)));
        vstd::set_lib::lemma_len_subset(own, ids(tree));
        assert(own.len() > 0) by {
            assert(own.remove(id).len() == own.len() - 1);
        }
        let children = tree.node(id)->0.children;
        lemma_row_deep_enough(tree, reach, rank, id, children.len(), (depth - 1) as nat);
    }
}

proof fn lemma_row_deep_enough(
    tree: AccessTreeView,
    reach: Set<u64>,
    rank: spec_fn(u64) -> nat,
    id: u64,
    count: nat,
    depth: nat,
)
    requires
        reach.contains(id),
        ranked(tree, reach, rank),
        tree.node(id) is Some,
        count <= tree.node(id)->0.children.len(),
        below(tree, rank, id).len() <= depth + 1,
    ensures
        tree.stops_of(tree.node(id)->0.children, count, depth) is Some,
    decreases depth, count,
{
    if count > 0 {
        lemma_row_deep_enough(tree, reach, rank, id, (count - 1) as nat, depth);
        let children = tree.node(id)->0.children;
        let child = children[count - 1];
        if tree.node(child) is Some {
            assert(children.contains(child));
            let all = Seq::new(tree.nodes.len(), |i: int| tree.nodes[i].id);
            vstd::seq_lib::seq_to_set_is_finite(all);
            lemma_ids(tree, id, tree.nodes.len() as int);
            let own = below(tree, rank, id);
            let lower = below(tree, rank, child);
            assert(own.subset_of(ids(tree)));
            vstd::set_lib::lemma_len_subset(own, ids(tree));
            assert(own.contains(id));
            assert(lower.subset_of(own.remove(id)));
            vstd::set_lib::lemma_len_subset(lower, own.remove(id));
            lemma_deep_enough(tree, reach, rank, child, depth);
        }
    }
}

/// Whether a path leads down a tree, each node a child of the one before it.
pub open spec fn leads_down(tree: AccessTreeView, path: Seq<u64>) -> bool {
    &&& path.len() > 0
    &&& forall|i: int| 0 <= i < path.len() ==> tree.node(#[trigger] path[i]) is Some
    &&& forall|i: int, j: int|
        0 <= i && j == i + 1 && j < path.len() ==> tree.node(
            #[trigger] path[i],
        )->0.children.contains(#[trigger] path[j])
}

/// A tree that has no reading order loops: some path leads down from its root and comes to a node
/// twice.
pub proof fn law_a_tree_without_a_reading_order_loops(tree: AccessTreeView) -> (path: Seq<u64>)
    requires
        tree.reading_order() is None,
    ensures
        leads_down(tree, path),
        path[0] == tree.root,
        !path.no_duplicates(),
{
    let path = lemma_deep_path(tree, tree.root, tree.nodes.len());
    if path.no_duplicates() {
        let all = Seq::new(tree.nodes.len(), |i: int| tree.nodes[i].id);
        vstd::seq_lib::seq_to_set_is_finite(all);
        all.lemma_cardinality_of_set();
        path.unique_seq_to_set();
        assert forall|id: u64| path.to_set().contains(id) implies #[trigger] ids(tree).contains(
            id,
        ) by {
            let i = choose|i: int| 0 <= i < path.len() && path[i] == id;
            assert(tree.node(path[i]) is Some);
            lemma_ids(tree, id, tree.nodes.len() as int);
        }
        assert(path.to_set().subset_of(ids(tree)));
        vstd::set_lib::lemma_len_subset(path.to_set(), ids(tree));
    }
    path
}

/// Where the walk goes deeper than `depth`, a path of so many nodes and one more leads down.
proof fn lemma_deep_path(tree: AccessTreeView, id: u64, depth: nat) -> (path: Seq<u64>)
    requires
        tree.stops(id, depth) is None,
    ensures
        leads_down(tree, path),
        path[0] == id,
        path.len() == depth + 1,
    decreases depth, 0nat,
{
    if depth == 0 {
        seq![id]
    } else {
        let children = tree.node(id)->0.children;
        let rest = lemma_deep_path_below(tree, children, children.len(), (depth - 1) as nat);
        let path = seq![id] + rest;
        assert forall|a: int, b: int| 0 <= a && b == a + 1 && b < path.len() implies tree.node(
            #[trigger] path[a],
        )->0.children.contains(#[trigger] path[b]) by {
            if a > 0 {
                assert(path[a] == rest[a - 1]);
            }
            assert(path[b] == rest[b - 1]);
        }
        path
    }
}

proof fn lemma_deep_path_below(
    tree: AccessTreeView,
    children: Seq<u64>,
    count: nat,
    depth: nat,
) -> (path: Seq<u64>)
    requires
        count <= children.len(),
        tree.stops_of(children, count, depth) is None,
    ensures
        leads_down(tree, path),
        children.contains(path[0]),
        path.len() == depth + 1,
    decreases depth, count,
{
    if tree.stops_of(children, (count - 1) as nat, depth) is None {
        lemma_deep_path_below(tree, children, (count - 1) as nat, depth)
    } else {
        lemma_deep_path(tree, children[count - 1], depth)
    }
}

/// A tree that has a reading order does not loop: no path that leads down from its root comes to
/// a node twice.
pub proof fn law_a_tree_with_a_reading_order_never_loops(tree: AccessTreeView, path: Seq<u64>)
    requires
        tree.reading_order() is Some,
        leads_down(tree, path),
        path[0] == tree.root,
    ensures
        path.no_duplicates(),
{
    assert forall|i: int, j: int| 0 <= i < j < path.len() implies path[i] != path[j] by {
        if path[i] == path[j] {
            lemma_depth_along(tree, path, tree.nodes.len(), i);
            let circle = path.subrange(i, j + 1);
            assert(leads_down(tree, circle)) by {
                assert forall|a: int| 0 <= a < circle.len() implies tree.node(
                    #[trigger] circle[a],
                ) is Some by {
                    assert(circle[a] == path[i + a]);
                }
                assert forall|a: int, b: int|
                    0 <= a && b == a + 1 && b < circle.len() implies tree.node(
                    #[trigger] circle[a],
                )->0.children.contains(#[trigger] circle[b]) by {
                    assert(circle[a] == path[i + a]);
                    assert(circle[b] == path[i + b]);
                }
            }
            lemma_no_depth_for_a_circle(tree, circle, (tree.nodes.len() - i) as nat);
        }
    }
}

/// Each step down a path takes one off the depth that is needed.
proof fn lemma_depth_along(tree: AccessTreeView, path: Seq<u64>, depth: nat, i: int)
    requires
        leads_down(tree, path),
        tree.stops(path[0], depth) is Some,
        0 <= i < path.len(),
    ensures
        i <= depth,
        tree.stops(path[i], (depth - i) as nat) is Some,
    decreases i,
{
    if i > 0 {
        lemma_depth_along(tree, path, depth, i - 1);
        let parent = path[i - 1];
        let left = (depth - (i - 1)) as nat;
        let children = tree.node(parent)->0.children;
        assert(tree.node(parent) is Some);
        assert(children.contains(path[i]));
        let at = choose|at: int| 0 <= at < children.len() && children[at] == path[i];
        lemma_row_holds(tree, children, children.len(), at, (left - 1) as nat);
    }
}

/// No depth is enough for a path that ends where it began.
proof fn lemma_no_depth_for_a_circle(tree: AccessTreeView, path: Seq<u64>, depth: nat)
    requires
        leads_down(tree, path),
        path.len() > 1,
        path[0] == path.last(),
    ensures
        tree.stops(path[0], depth) is None,
    decreases depth,
{
    if tree.stops(path[0], depth) is Some {
        lemma_depth_along(tree, path, depth, path.len() - 1);
        lemma_no_depth_for_a_circle(tree, path, (depth - (path.len() - 1)) as nat);
    }
}

/// Every node with a label, a value or a click action that the root leads to is a stop, unless
/// it is a window or a generic container.
pub proof fn law_every_exposed_node_is_a_stop(tree: AccessTreeView, path: Seq<u64>)
    requires
        tree.reading_order() is Some,
        leads_down(tree, path),
        path[0] == tree.root,
        ({
            let node = tree.node(path.last())->0;
            &&& node.role != Role::Window
            &&& node.role != Role::GenericContainer
            &&& node.label is Some || node.value is Some || node.clickable
        }),
    ensures
        tree.reading_order()->0.contains(path.last()),
{
    lemma_path_is_stopped_at(tree, path, tree.nodes.len());
}

proof fn lemma_path_is_stopped_at(tree: AccessTreeView, path: Seq<u64>, depth: nat)
    requires
        leads_down(tree, path),
        tree.stops(path[0], depth) is Some,
        tree.node(path.last())->0.exposed(),
    ensures
        tree.stops(path[0], depth)->0.contains(path.last()),
    decreases depth,
{
    let node = tree.node(path[0])->0;
    let stops = tree.stops(path[0], depth)->0;
    let row = tree.stops_of(node.children, node.children.len(), (depth - 1) as nat);
    if path.len() == 1 {
        assert(stops[0] == path.last());
    } else {
        let rest = path.drop_first();
        assert forall|i: int| 0 <= i < rest.len() implies tree.node(#[trigger] rest[i]) is Some by {
            assert(rest[i] == path[i + 1]);
        }
        assert forall|i: int, j: int| 0 <= i && j == i + 1 && j < rest.len() implies tree.node(
            #[trigger] rest[i],
        )->0.children.contains(#[trigger] rest[j]) by {
            assert(rest[i] == path[i + 1]);
            assert(rest[j] == path[j + 1]);
        }
        assert(node.children.contains(path[1]));
        let at = choose|i: int| 0 <= i < node.children.len() && node.children[i] == path[1];
        lemma_row_holds(tree, node.children, node.children.len(), at, (depth - 1) as nat);
        lemma_path_is_stopped_at(tree, rest, (depth - 1) as nat);
        assert(row->0.contains(path.last()));
        let place = choose|i: int| 0 <= i < row->0.len() && row->0[i] == path.last();
        if node.exposed() {
            assert(stops[place + 1] == path.last());
        } else {
            assert(stops[place] == path.last());
        }
    }
}

/// A row's stops hold those of each of its children.
proof fn lemma_row_holds(
    tree: AccessTreeView,
    children: Seq<u64>,
    count: nat,
    at: int,
    depth: nat,
)
    requires
        0 <= at < count <= children.len(),
        tree.stops_of(children, count, depth) is Some,
    ensures
        tree.stops(children[at], depth) is Some,
        forall|id: u64|
            tree.stops(children[at], depth)->0.contains(id) ==> #[trigger] tree.stops_of(
                children,
                count,
                depth,
            )->0.contains(id),
    decreases count,
{
    let all = tree.stops_of(children, count, depth)->0;
    let earlier = tree.stops_of(children, (count - 1) as nat, depth)->0;
    let last = tree.stops(children[count - 1], depth)->0;
    assert(all == earlier + last);
    if at < count - 1 {
        lemma_row_holds(tree, children, (count - 1) as nat, at, depth);
        assert forall|id: u64| tree.stops(children[at], depth)->0.contains(id) implies #[trigger] all.contains(
            id,
        ) by {
            assert(earlier.contains(id));
            let i = choose|i: int| 0 <= i < earlier.len() && earlier[i] == id;
            assert(all[i] == id);
        }
    } else {
        assert forall|id: u64| last.contains(id) implies #[trigger] all.contains(id) by {
            let i = choose|i: int| 0 <= i < last.len() && last[i] == id;
            assert(all[earlier.len() + i] == id);
        }
    }
}

/// Every stop is a node of the tree that is neither a window nor a generic container and has a
/// label, a value or a click action.
pub proof fn law_every_stop_is_exposed(tree: AccessTreeView, i: int)
    requires
        tree.reading_order() is Some,
        0 <= i < tree.reading_order()->0.len(),
    ensures
        ({
            let node = tree.node(tree.reading_order()->0[i])->0;
            &&& tree.node(tree.reading_order()->0[i]) is Some
            &&& node.role != Role::Window
            &&& node.role != Role::GenericContainer
            &&& node.label is Some || node.value is Some || node.clickable
        }),
{
    lemma_stops_are_exposed(tree, tree.root, tree.nodes.len(), i);
}

proof fn lemma_stops_are_exposed(tree: AccessTreeView, id: u64, depth: nat, i: int)
    requires
        tree.stops(id, depth) is Some,
        0 <= i < tree.stops(id, depth)->0.len(),
    ensures
        tree.node(tree.stops(id, depth)->0[i]) matches Some(node) && node.exposed(),
    decreases depth, 0nat,
{
    let node = tree.node(id)->0;
    let count = node.children.len();
    if node.exposed() {
        if i > 0 {
            lemma_row_stops_are_exposed(tree, node.children, count, (depth - 1) as nat, i - 1);
        }
    } else {
        lemma_row_stops_are_exposed(tree, node.children, count, (depth - 1) as nat, i);
    }
}

proof fn lemma_row_stops_are_exposed(
    tree: AccessTreeView,
    children: Seq<u64>,
    count: nat,
    depth: nat,
    i: int,
)
    requires
        tree.stops_of(children, count, depth) is Some,
        0 <= i < tree.stops_of(children, count, depth)->0.len(),
    ensures
        tree.node(tree.stops_of(children, count, depth)->0[i]) matches Some(node)
            && node.exposed(),
    decreases depth, count,
{
    let earlier = tree.stops_of(children, (count - 1) as nat, depth)->0;
    if i < earlier.len() {
        lemma_row_stops_are_exposed(tree, children, (count - 1) as nat, depth, i);
    } else {
        lemma_stops_are_exposed(tree, children[count - 1], depth, i - earlier.len());
    }
}

/// The root leads to every stop.
pub proof fn law_the_root_leads_to_every_stop(tree: AccessTreeView, i: int) -> (path: Seq<u64>)
    requires
        tree.reading_order() is Some,
        0 <= i < tree.reading_order()->0.len(),
    ensures
        leads_down(tree, path),
        path[0] == tree.root,
        path.last() == tree.reading_order()->0[i],
{
    lemma_path_to_stop(tree, tree.root, tree.nodes.len(), i)
}

proof fn lemma_path_to_stop(tree: AccessTreeView, id: u64, depth: nat, i: int) -> (path: Seq<u64>)
    requires
        tree.stops(id, depth) is Some,
        0 <= i < tree.stops(id, depth)->0.len(),
    ensures
        leads_down(tree, path),
        path[0] == id,
        path.last() == tree.stops(id, depth)->0[i],
    decreases depth, 0nat,
{
    let node = tree.node(id)->0;
    let count = node.children.len();
    if node.exposed() && i == 0 {
        seq![id]
    } else {
        let below = if node.exposed() {
            i - 1
        } else {
            i
        };
        let rest = lemma_path_below(tree, node.children, count, (depth - 1) as nat, below);
        let path = seq![id] + rest;
        assert forall|a: int, b: int| 0 <= a && b == a + 1 && b < path.len() implies tree.node(
            #[trigger] path[a],
        )->0.children.contains(#[trigger] path[b]) by {
            if a > 0 {
                assert(path[a] == rest[a - 1]);
            }
            assert(path[b] == rest[b - 1]);
        }
        path
    }
}

proof fn lemma_path_below(
    tree: AccessTreeView,
    children: Seq<u64>,
    count: nat,
    depth: nat,
    i: int,
) -> (path: Seq<u64>)
    requires
        count <= children.len(),
        tree.stops_of(children, count, depth) is Some,
        0 <= i < tree.stops_of(children, count, depth)->0.len(),
    ensures
        leads_down(tree, path),
        children.contains(path[0]),
        path.last() == tree.stops_of(children, count, depth)->0[i],
    decreases depth, count,
{
    let earlier = tree.stops_of(children, (count - 1) as nat, depth)->0;
    if i < earlier.len() {
        lemma_path_below(tree, children, (count - 1) as nat, depth, i)
    } else {
        lemma_path_to_stop(tree, children[count - 1], depth, i - earlier.len())
    }
}

/// A disabled node always has the trait that says so, a selected one its own, and a node
/// described as a key its own.
pub proof fn law_states_show_in_the_traits(node: AccessNodeView, bits: TraitBits)
    ensures
        node.disabled ==> node.traits(bits) & bits.not_enabled == bits.not_enabled,
        node.selected == Some(true) ==> node.traits(bits) & bits.selected == bits.selected,
        node.role_description == Some("key"@) ==> node.traits(bits) & bits.keyboard_key
            == bits.keyboard_key,
        node.traits(bits) & node.role_traits(bits) == node.role_traits(bits),
{
    assert(forall|a: u64, b: u64| #[trigger] ((a | b) & b) == b) by (bit_vector);
    assert(forall|a: u64, b: u64| #[trigger] ((a | b) & a) == a) by (bit_vector);
    assert(forall|a: u64, b: u64, c: u64| #[trigger] (((a | b) | c) & b) == b) by (bit_vector);
    assert(forall|a: u64, b: u64, c: u64| #[trigger] (((a | b) | c) & a) == a) by (bit_vector);
    assert(forall|a: u64, b: u64, c: u64, d: u64|
        #[trigger] ((((a | b) | c) | d) & b) == b) by (bit_vector);
    assert(forall|a: u64, b: u64, c: u64, d: u64|
        #[trigger] ((((a | b) | c) | d) & a) == a) by (bit_vector);
    assert(forall|a: u64| #[trigger] (a & a) == a) by (bit_vector);
}

/// Two sequences that agree are cut alike by parts of one length.
proof fn lemma_cut<A>(a: Seq<A>, x: Seq<A>, b: Seq<A>, y: Seq<A>)
    requires
        a + x == b + y,
        a.len() == b.len(),
    ensures
        a == b,
        x == y,
{
    let whole = a + x;
    assert(a =~= whole.take(a.len() as int));
    assert(b =~= (b + y).take(a.len() as int));
    assert(x =~= whole.skip(a.len() as int));
    assert(y =~= (b + y).skip(a.len() as int));
}

proof fn lemma_regroup<A>(a: Seq<A>, b: Seq<A>, c: Seq<A>)
    ensures
        (a + b) + c == a + (b + c),
{
    assert((a + b) + c =~= a + (b + c));
}

/// Numbers that differ are written differently.
proof fn lemma_number_written(a: u64, b: u64)
    ensures
        spec_u64_to_le_bytes(a).len() == 8,
        spec_u64_to_le_bytes(a) == spec_u64_to_le_bytes(b) ==> a == b,
{
    vstd::bytes::lemma_auto_spec_u64_to_from_le_bytes();
}

proof fn lemma_coordinate_written(a: i64, b: i64)
    ensures
        spec_u64_to_le_bytes(a as u64) == spec_u64_to_le_bytes(b as u64) ==> a == b,
{
    lemma_number_written(a as u64, b as u64);
    assert(a as u64 == b as u64 ==> a == b) by (bit_vector);
}

/// Texts that differ are written differently, whatever follows them.
proof fn lemma_text_written(
    a: Option<Seq<char>>,
    x: Seq<Seq<u8>>,
    b: Option<Seq<char>>,
    y: Seq<Seq<u8>>,
)
    requires
        text_writes(a) + x == text_writes(b) + y,
    ensures
        a == b,
        x == y,
{
    let absent = seq![0u8];
    let present = seq![1u8];
    assert(absent[0] != present[0]);
    assert((text_writes(a) + x)[0] == (text_writes(b) + y)[0]);
    assert((text_writes(a) + x)[0] == if a is None {
        absent
    } else {
        present
    });
    assert((text_writes(b) + y)[0] == if b is None {
        absent
    } else {
        present
    });
    lemma_cut(text_writes(a), x, text_writes(b), y);
    if a is Some {
        assert(text_writes(a)[1] == text_writes(b)[1]);
        vstd::utf8::encode_utf8_decode_utf8(a->0);
        vstd::utf8::encode_utf8_decode_utf8(b->0);
        assert(encode_utf8(a->0) == encode_utf8(b->0));
    }
}

/// What the digest covers of a frame.
spec fn frame_writes(frame: Option<ElementFrame>) -> Seq<Seq<u8>> {
    match frame {
        Some(frame) => seq![
            spec_u64_to_le_bytes(frame.x as u64),
            spec_u64_to_le_bytes(frame.y as u64),
            spec_u64_to_le_bytes(frame.width as u64),
            spec_u64_to_le_bytes(frame.height as u64),
        ],
        None => seq![],
    }
}

/// What the digest covers of an element behind its frame.
spec fn rest_writes(element: A11yElementView) -> Seq<Seq<u8>> {
    seq![spec_u64_to_le_bytes(element.node)] + (text_writes(element.label) + (text_writes(
        element.value,
    ) + seq![spec_u64_to_le_bytes(element.traits)]))
}

proof fn lemma_element_writes(element: A11yElementView)
    ensures
        element_writes(element) == frame_writes(element.frame) + rest_writes(element),
{
    assert(element_writes(element) =~= frame_writes(element.frame) + rest_writes(element));
}

/// The second write of an element tells whether it has a frame: a coordinate takes eight bytes,
/// the mark of a text one.
proof fn lemma_frame_shows(element: A11yElementView, x: Seq<Seq<u8>>)
    ensures
        element_writes(element).len() >= 4,
        (element_writes(element) + x)[1].len() == if element.frame is Some {
            8nat
        } else {
            1nat
        },
{
    lemma_element_writes(element);
    let all = element_writes(element) + x;
    assert(all[1] == element_writes(element)[1]);
    match element.frame {
        Some(frame) => {
            lemma_number_written(frame.y as u64, frame.y as u64);
            assert(element_writes(element)[1] == frame_writes(element.frame)[1]);
        },
        None => {
            assert(element_writes(element)[1] == rest_writes(element)[1]);
            assert(rest_writes(element)[1] == text_writes(element.label)[0]);
        },
    }
}

/// Frames that differ are written differently.
proof fn lemma_frame_written(a: Option<ElementFrame>, b: Option<ElementFrame>)
    requires
        a is Some <==> b is Some,
        frame_writes(a) == frame_writes(b),
    ensures
        a == b,
{
    if a is Some {
        let (p, q) = (a->0, b->0);
        let (wp, wq) = (frame_writes(a), frame_writes(b));
        assert(wp[0] == wq[0] && wp[1] == wq[1] && wp[2] == wq[2] && wp[3] == wq[3]);
        lemma_coordinate_written(p.x, q.x);
        lemma_coordinate_written(p.y, q.y);
        lemma_coordinate_written(p.width, q.width);
        lemma_coordinate_written(p.height, q.height);
    }
}

proof fn lemma_one_number_written(a: u64, x: Seq<Seq<u8>>, b: u64, y: Seq<Seq<u8>>)
    requires
        seq![spec_u64_to_le_bytes(a)] + x == seq![spec_u64_to_le_bytes(b)] + y,
    ensures
        a == b,
        x == y,
{
    let (p, q) = (seq![spec_u64_to_le_bytes(a)], seq![spec_u64_to_le_bytes(b)]);
    lemma_cut(p, x, q, y);
    assert(p[0] == q[0]);
    lemma_number_written(a, b);
}

proof fn lemma_rest_regroups(element: A11yElementView, x: Seq<Seq<u8>>)
    ensures
        rest_writes(element) + x == seq![spec_u64_to_le_bytes(element.node)] + (text_writes(
            element.label,
        ) + (text_writes(element.value) + (seq![spec_u64_to_le_bytes(element.traits)] + x))),
{
    let node = seq![spec_u64_to_le_bytes(element.node)];
    let label = text_writes(element.label);
    let value = text_writes(element.value);
    let traits = seq![spec_u64_to_le_bytes(element.traits)];
    lemma_regroup(node, label + (value + traits), x);
    lemma_regroup(label, value + traits, x);
    lemma_regroup(value, traits, x);
}

/// Elements that differ behind their frames are written differently there.
proof fn lemma_rest_written(
    a: A11yElementView,
    x: Seq<Seq<u8>>,
    b: A11yElementView,
    y: Seq<Seq<u8>>,
)
    requires
        rest_writes(a) + x == rest_writes(b) + y,
    ensures
        a.node == b.node,
        a.label == b.label,
        a.value == b.value,
        a.traits == b.traits,
        x == y,
{
    lemma_rest_regroups(a, x);
    lemma_rest_regroups(b, y);
    let (p, q) = (
        seq![spec_u64_to_le_bytes(a.traits)] + x,
        seq![spec_u64_to_le_bytes(b.traits)] + y,
    );
    let (v, w) = (text_writes(a.value) + p, text_writes(b.value) + q);
    lemma_one_number_written(
        a.node,
        text_writes(a.label) + v,
        b.node,
        text_writes(b.label) + w,
    );
    lemma_text_written(a.label, v, b.label, w);
    lemma_text_written(a.value, p, b.value, q);
    lemma_one_number_written(a.traits, x, b.traits, y);
}

/// Elements that differ are written differently, whatever follows them.
proof fn lemma_element_written(
    a: A11yElementView,
    x: Seq<Seq<u8>>,
    b: A11yElementView,
    y: Seq<Seq<u8>>,
)
    requires
        element_writes(a) + x == element_writes(b) + y,
    ensures
        a == b,
        x == y,
{
    lemma_frame_shows(a, x);
    lemma_frame_shows(b, y);
    lemma_element_writes(a);
    lemma_element_writes(b);
    lemma_regroup(frame_writes(a.frame), rest_writes(a), x);
    lemma_regroup(frame_writes(b.frame), rest_writes(b), y);
    lemma_cut(
        frame_writes(a.frame),
        rest_writes(a) + x,
        frame_writes(b.frame),
        rest_writes(b) + y,
    );
    lemma_frame_written(a.frame, b.frame);
    lemma_rest_written(a, x, b, y);
}

/// A list is written front to back.
proof fn lemma_list_written_from_the_front(list: Seq<A11yElementView>)
    requires
        list.len() > 0,
    ensures
        list_writes(list) == element_writes(list[0]) + list_writes(list.drop_first()),
    decreases list.len(),
{
    let rest = list.drop_first();
    if list.len() == 1 {
        assert(list.drop_last() =~= Seq::empty());
        assert(rest =~= Seq::empty());
        assert(list_writes(list) =~= element_writes(list[0]) + list_writes(rest));
    } else {
        let shorter = list.drop_last();
        lemma_list_written_from_the_front(shorter);
        assert(shorter.drop_first() =~= rest.drop_last());
        assert(list_writes(list) =~= element_writes(list[0]) + list_writes(rest));
    }
}

/// Lists that differ in any element's node, label, value, frame or traits, or in their order, are
/// handed to the hasher as different writes. Only a collision of its digests can hide a change.
pub proof fn law_lists_that_differ_are_written_differently(
    a: Seq<A11yElementView>,
    b: Seq<A11yElementView>,
)
    requires
        list_writes(a) == list_writes(b),
    ensures
        a == b,
    decreases a.len(),
{
    if a.len() > 0 {
        lemma_list_written_from_the_front(a);
        lemma_frame_shows(a[0], list_writes(a.drop_first()));
    }
    if b.len() > 0 {
        lemma_list_written_from_the_front(b);
        lemma_frame_shows(b[0], list_writes(b.drop_first()));
    }
    if a.len() > 0 && b.len() > 0 {
        let (x, y) = (a.drop_first(), b.drop_first());
        lemma_element_written(a[0], list_writes(x), b[0], list_writes(y));
        law_lists_that_differ_are_written_differently(x, y);
        assert(a =~= seq![a[0]] + x);
        assert(b =~= seq![b[0]] + y);
    } else {
        assert(a =~= b);
    }
}

/// After one tree, the next is posted exactly when its list or its focus is another, unless the
/// digests of the two lists collide.
pub proof fn law_a_change_is_posted(
    bridge: BridgeState,
    shown: AccessTreeView,
    next: AccessTreeView,
    bits: TraitBits,
)
    requires
        shown.reading_order() is Some,
        next.reading_order() is Some,
        ({
            let before = shown.elements(shown.reading_order()->0, bits);
            let after = next.elements(next.reading_order()->0, bits);
            DefaultHasher::spec_finish(list_writes(before)) == DefaultHasher::spec_finish(
                list_writes(after),
            ) ==> list_writes(before) == list_writes(after)
        }),
    ensures
        ({
            let before = shown.elements(shown.reading_order()->0, bits);
            let after = next.elements(next.reading_order()->0, bits);
            let told = bridge.updated(shown, bits).told(next, bits);
            &&& told is Changed <==> before != after || shown.focus != next.focus
            &&& told is Unchanged <==> before == after && shown.focus == next.focus
        }),
{
    let before = shown.elements(shown.reading_order()->0, bits);
    let after = next.elements(next.reading_order()->0, bits);
    if list_digest(before) == list_digest(after) {
        law_lists_that_differ_are_written_differently(before, after);
    }
}

} // verus!
