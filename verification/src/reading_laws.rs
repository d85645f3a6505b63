//! How a tree is read: in which order, as which elements, and what the view gets of it.

use crate::a11y::{list_writes, A11yUpdate, BridgeState, TraitBits};
use crate::a11y_tree::{
    described_tree, node_children, node_is_disabled, node_is_selected, node_label, node_role,
    node_role_description, node_supports_action, node_value, AccessNodeView, AccessTreeView,
    ElementFrame,
};
use accesskit::Role;
use std::collections::hash_map::DefaultHasher;
use vstd::prelude::*;
use vstd::std_specs::hash::DefaultHasherAdditionalSpecFns;

verus! {

/// The nodes at and below `id` that are worth a stop, down to `depth` nodes deep: the node itself,
/// then all of its first child's, then all of its second child's, and so on.
pub open spec fn read_from(tree: AccessTreeView, id: u64, depth: nat) -> Seq<u64>
    decreases depth, 0nat,
{
    match tree.node(id) {
        Some(node) if depth > 0 => {
            let own = if node.role != Role::Window && node.role != Role::GenericContainer && (
            node.label is Some || node.value is Some || node.clickable) {
                seq![id]
            } else {
                seq![]
            };
            own + read_each(tree, node.children, (depth - 1) as nat).flatten()
        },
        _ => seq![],
    }
}

/// What is read from each of `children`.
pub open spec fn read_each(tree: AccessTreeView, children: Seq<u64>, depth: nat) -> Seq<Seq<u64>>
    decreases depth, 1nat,
{
    Seq::new(children.len(), |i: int| read_from(tree, children[i], depth))
}

proof fn lemma_read_from(tree: AccessTreeView, id: u64, depth: nat)
    requires
        tree.stops(id, depth) is Some,
    ensures
        tree.stops(id, depth)->0 == read_from(tree, id, depth),
    decreases depth, 0nat,
{
    if let Some(node) = tree.node(id) {
        if depth > 0 {
            let below = (depth - 1) as nat;
            lemma_read_row(tree, node.children, node.children.len(), below);
            assert(node.children.take(node.children.len() as int) =~= node.children);
            assert(tree.stops(id, depth)->0 =~= read_from(tree, id, depth));
        }
    }
}

proof fn lemma_read_row(tree: AccessTreeView, children: Seq<u64>, count: nat, depth: nat)
    requires
        count <= children.len(),
        tree.stops_of(children, count, depth) is Some,
    ensures
        tree.stops_of(children, count, depth)->0 == read_each(
            tree,
            children.take(count as int),
            depth,
        ).flatten(),
    decreases depth, count,
{
    let rows = read_each(tree, children.take(count as int), depth);
    rows.lemma_flatten_and_flatten_alt_are_equivalent();
    if count > 0 {
        lemma_read_row(tree, children, (count - 1) as nat, depth);
        lemma_read_from(tree, children[count - 1], depth);
        let earlier = read_each(tree, children.take(count - 1), depth);
        earlier.lemma_flatten_and_flatten_alt_are_equivalent();
        assert(rows.drop_last() =~= earlier);
    }
}

/// A tree is read from its root down: each node before what lies below it, and its children in
/// their order, each with all that lies below it.
pub proof fn law_a_tree_is_read_from_the_root_down(tree: AccessTreeView)
    requires
        tree.reading_order() is Some,
    ensures
        tree.reading_order()->0 == read_from(tree, tree.root, tree.nodes.len()),
{
    lemma_read_from(tree, tree.root, tree.nodes.len());
}

proof fn lemma_last_of_its_id(tree: AccessTreeView, id: u64, count: int)
    requires
        0 <= count <= tree.nodes.len(),
    ensures
        tree.position(id, count) matches Some(at) ==> {
            &&& 0 <= at < count
            &&& tree.nodes[at].id == id
            &&& forall|later: int| at < later < count ==> (#[trigger] tree.nodes[later]).id != id
        },
        tree.position(id, count) is None ==> forall|at: int|
            0 <= at < count ==> (#[trigger] tree.nodes[at]).id != id,
    decreases count,
{
    if count > 0 {
        lemma_last_of_its_id(tree, id, count - 1);
    }
}

/// The node of an id is the last one listed under it, and there is one exactly where one is
/// listed.
pub proof fn law_a_later_node_stands_for_an_earlier_one(tree: AccessTreeView, id: u64, at: int)
    requires
        0 <= at < tree.nodes.len(),
        tree.nodes[at].id == id,
        forall|later: int|
            at < later < tree.nodes.len() ==> (#[trigger] tree.nodes[later]).id != id,
    ensures
        tree.node(id) == Some(tree.nodes[at]),
{
    lemma_last_of_its_id(tree, id, tree.nodes.len() as int);
}

/// A tree has no node of an id that none is listed under.
pub proof fn law_only_listed_nodes_are_found(tree: AccessTreeView, id: u64)
    requires
        forall|at: int| 0 <= at < tree.nodes.len() ==> (#[trigger] tree.nodes[at]).id != id,
    ensures
        tree.node(id) is None,
{
    lemma_last_of_its_id(tree, id, tree.nodes.len() as int);
}

/// The list has one element for each stop, in reading order, with the label, the value, the frame
/// and the traits of that stop's own node.
pub proof fn law_each_stop_is_listed_as_its_own_node(
    tree: AccessTreeView,
    order: Seq<u64>,
    bits: TraitBits,
    i: int,
)
    requires
        0 <= i < order.len(),
        tree.node(order[i]) is Some,
    ensures
        tree.elements(order, bits).len() == order.len(),
        ({
            let element = tree.elements(order, bits)[i];
            let node = tree.node(order[i])->0;
            &&& element.node == order[i]
            &&& element.label == node.label
            &&& element.value == node.value
            &&& element.frame == node.frame
            &&& element.traits == node.traits(bits)
        }),
{
    lemma_last_of_its_id(tree, order[i], tree.nodes.len() as int);
}

/// The traits of a node that is neither a key, nor selected, nor disabled are those of its role.
pub proof fn law_each_role_has_its_traits(node: AccessNodeView, bits: TraitBits)
    requires
        node.role_description is None,
        node.selected is None,
        !node.disabled,
    ensures
        node.role == Role::Button ==> node.traits(bits) == bits.button,
        node.role == Role::DefaultButton ==> node.traits(bits) == bits.button,
        node.role == Role::Tab ==> node.traits(bits) == bits.button,
        node.role == Role::MenuItem ==> node.traits(bits) == bits.button,
        node.role == Role::ListBoxOption ==> node.traits(bits) == bits.button,
        node.role == Role::Link ==> node.traits(bits) == bits.link,
        node.role == Role::Heading ==> node.traits(bits) == bits.header,
        node.role == Role::Image ==> node.traits(bits) == bits.image,
        node.role == Role::SearchInput ==> node.traits(bits) == bits.search_field,
        node.role == Role::TextInput ==> node.traits(bits) == bits.none,
        node.role == Role::MultilineTextInput ==> node.traits(bits) == bits.none,
        node.role == Role::Label ==> node.traits(bits) == bits.static_text,
        node.role == Role::Paragraph ==> node.traits(bits) == bits.static_text,
        node.role == Role::Terminal || node.role == Role::Log || node.role == Role::Timer
            || node.role == Role::Status ==> node.traits(bits) == bits.static_text
            | bits.updates_frequently,
        ({
            let listed = node.role == Role::Button || node.role == Role::DefaultButton || node.role
                == Role::Tab || node.role == Role::MenuItem || node.role == Role::ListBoxOption
                || node.role == Role::Link || node.role == Role::Heading || node.role == Role::Image
                || node.role == Role::SearchInput || node.role == Role::TextInput || node.role
                == Role::MultilineTextInput || node.role == Role::Label || node.role
                == Role::Paragraph || node.role == Role::Terminal || node.role == Role::Log
                || node.role == Role::Timer || node.role == Role::Status;
            &&& !listed && node.clickable ==> node.traits(bits) == bits.button
            &&& !listed && !node.clickable ==> node.traits(bits) == bits.none
        }),
{
}

/// What a node is besides its role adds its trait to those of the role and takes none away: being
/// described as a key, being selected, being disabled. Nothing else of a node but whether it can
/// be clicked plays a part.
pub proof fn law_states_add_their_traits(node: AccessNodeView, bits: TraitBits)
    ensures
        ({
            let plain = AccessNodeView {
                id: 0,
                role: node.role,
                label: None,
                value: None,
                role_description: None,
                clickable: node.clickable,
                selected: None,
                disabled: false,
                children: seq![],
                frame: None,
            };
            let key = if node.role_description == Some("key"@) {
                bits.keyboard_key
            } else {
                0
            };
            let selected = if node.selected == Some(true) {
                bits.selected
            } else {
                0
            };
            let disabled = if node.disabled {
                bits.not_enabled
            } else {
                0
            };
            node.traits(bits) == ((plain.traits(bits) | key) | selected) | disabled
        }),
{
    assert(forall|a: u64| #[trigger] (a | 0) == a) by (bit_vector);
}

/// What an update leaves the view with: the new list exactly where a change is posted, and the
/// old one otherwise. A tree that loops changes nothing at all; any other is remembered, by its
/// focus and by the digest of its list. Whether the bridge is active never changes.
pub proof fn law_the_view_gets_the_list_that_is_posted(
    bridge: BridgeState,
    tree: AccessTreeView,
    bits: TraitBits,
)
    ensures
        ({
            let told = bridge.told(tree, bits);
            let after = bridge.updated(tree, bits);
            let order = tree.reading_order();
            let list = tree.elements(order->0, bits);
            &&& told is Cyclic <==> order is None
            &&& !(told is OffMainThread)
            &&& told is Cyclic ==> after == bridge
            &&& told is Changed ==> after.elements == Some(list)
            &&& told is Unchanged ==> after.elements == bridge.elements
            &&& after.active == bridge.active
            &&& order is Some ==> after.focus == Some(tree.focus)
            &&& order is Some ==> after.digest == DefaultHasher::spec_finish(list_writes(list))
            &&& told is Unchanged ==> bridge.focus == Some(tree.focus) && bridge.digest
                == DefaultHasher::spec_finish(list_writes(list))
        }),
{
}

/// A new bridge has no list, and posts the first tree it gets whatever is in it. Activation
/// changes nothing but that the bridge is active.
pub proof fn law_the_first_tree_is_posted(
    active: bool,
    bridge: BridgeState,
    tree: AccessTreeView,
    bits: TraitBits,
)
    requires
        tree.reading_order() is Some,
    ensures
        BridgeState::starting(active).active == active,
        BridgeState::starting(active).elements is None,
        BridgeState::starting(active).told(tree, bits) is Changed,
        bridge.activated().active,
        bridge.activated().elements == bridge.elements,
        bridge.activated().told(tree, bits) == bridge.told(tree, bits),
{
}

/// A tree is read as accesskit describes it: each node by its own id, role, texts, state,
/// children and frame, clickable where it supports a click; from the root the update names, or
/// the node 0 where it names none.
pub proof fn law_a_tree_is_read_as_it_is_described(
    update: accesskit::TreeUpdate,
    frames: Seq<Option<ElementFrame>>,
    i: int,
)
    requires
        0 <= i < update.nodes@.len(),
    ensures
        ({
            let tree = described_tree(update, frames);
            let node = update.nodes@[i].1;
            let read = tree.nodes[i];
            &&& update.tree matches Some(info) ==> tree.root == info.root.0
            &&& update.tree is None ==> tree.root == 0
            &&& tree.focus == update.focus.0
            &&& tree.nodes.len() == update.nodes@.len()
            &&& read.id == update.nodes@[i].0.0
            &&& read.role == node_role(node)
            &&& read.label == node_label(node)
            &&& read.value == node_value(node)
            &&& read.role_description == node_role_description(node)
            &&& read.clickable == node_supports_action(node, accesskit::Action::Click)
            &&& read.selected == node_is_selected(node)
            &&& read.disabled == node_is_disabled(node)
            &&& read.frame == frames[i]
            &&& read.children.len() == node_children(node).len()
            &&& forall|k: int|
                0 <= k < read.children.len() ==> #[trigger] read.children[k] == node_children(
                    node,
                )[k].0
        }),
{
}

} // verus!
