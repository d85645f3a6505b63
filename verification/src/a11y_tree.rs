//! An accesskit tree, read into plain values.
//!
//! A node of accesskit is opaque here: what it holds is what its getters say, each under a name
//! of its own. [`read_tree`] turns an update into an [`AccessTree`], which everything else works
//! on.

use crate::text::text_of;
use vstd::prelude::*;

verus! {

/// `accesskit::Role`, the purpose of a node.
#[verifier::external_type_specification]
pub struct ExRole(accesskit::Role);

/// `accesskit::Action`, what can be asked of a node.
#[verifier::external_type_specification]
pub struct ExAction(accesskit::Action);

/// `accesskit::NodeId`, the identity of a node, unique within its tree.
#[verifier::external_type_specification]
pub struct ExNodeId(accesskit::NodeId);

/// `accesskit::TreeId`, the identity of a tree.
#[verifier::external_type_specification]
#[verifier::external_body]
pub struct ExTreeId(accesskit::TreeId);

/// `accesskit::TreeInfo`, which names a tree's root.
#[verifier::external_type_specification]
pub struct ExTreeInfo(accesskit::TreeInfo);

/// `accesskit::Node`, one node and all it says of itself.
#[verifier::external_type_specification]
#[verifier::external_body]
pub struct ExNode(accesskit::Node);

/// `accesskit::TreeUpdate`, the nodes of a tree and which of them has the focus.
#[verifier::external_type_specification]
pub struct ExTreeUpdate(accesskit::TreeUpdate);

/// What `Node::role` returns.
pub uninterp spec fn node_role(node: accesskit::Node) -> accesskit::Role;

/// What `Node::label` returns.
pub uninterp spec fn node_label(node: accesskit::Node) -> Option<Seq<char>>;

/// What `Node::value` returns.
pub uninterp spec fn node_value(node: accesskit::Node) -> Option<Seq<char>>;

/// What `Node::role_description` returns.
pub uninterp spec fn node_role_description(node: accesskit::Node) -> Option<Seq<char>>;

/// What `Node::supports_action` returns.
pub uninterp spec fn node_supports_action(
    node: accesskit::Node,
    action: accesskit::Action,
) -> bool;

/// What `Node::children` returns.
pub uninterp spec fn node_children(node: accesskit::Node) -> Seq<accesskit::NodeId>;

/// What `Node::is_selected` returns.
pub uninterp spec fn node_is_selected(node: accesskit::Node) -> Option<bool>;

/// What `Node::is_disabled` returns.
pub uninterp spec fn node_is_disabled(node: accesskit::Node) -> bool;

/// `accesskit::Node::role` reads the role the node holds.
pub assume_specification[ accesskit::Node::role ](node: &accesskit::Node) -> (role:
    accesskit::Role)
    ensures
        role == node_role(*node),
;

/// `accesskit::Node::label` reads the label the node holds, if it holds one.
pub assume_specification[ accesskit::Node::label ](node: &accesskit::Node) -> (label: Option<&str>)
    ensures
        match label {
            Some(text) => node_label(*node) == Some(text@),
            None => node_label(*node) is None,
        },
;

/// `accesskit::Node::value` reads the value the node holds, if it holds one.
pub assume_specification[ accesskit::Node::value ](node: &accesskit::Node) -> (value: Option<&str>)
    ensures
        match value {
            Some(text) => node_value(*node) == Some(text@),
            None => node_value(*node) is None,
        },
;

/// `accesskit::Node::role_description` reads the role description the node holds, if it holds
/// one.
pub assume_specification[ accesskit::Node::role_description ](node: &accesskit::Node) -> (
    description: Option<&str>)
    ensures
        match description {
            Some(text) => node_role_description(*node) == Some(text@),
            None => node_role_description(*node) is None,
        },
;

/// `accesskit::Node::supports_action` tells whether the node holds the action.
pub assume_specification[ accesskit::Node::supports_action ](
    node: &accesskit::Node,
    action: accesskit::Action,
) -> (supported: bool)
    ensures
        supported == node_supports_action(*node, action),
;

/// `accesskit::Node::children` reads the children the node holds, in order.
pub assume_specification[ accesskit::Node::children ](node: &accesskit::Node) -> (children:
    &[accesskit::NodeId])
    ensures
        children@ == node_children(*node),
;

/// `accesskit::Node::is_selected` reads the selection state the node holds, if it holds one.
pub assume_specification[ accesskit::Node::is_selected ](node: &accesskit::Node) -> (selected:
    Option<bool>)
    ensures
        selected == node_is_selected(*node),
;

/// `accesskit::Node::is_disabled` tells whether the node holds the disabled flag.
pub assume_specification[ accesskit::Node::is_disabled ](node: &accesskit::Node) -> (disabled: bool)
    ensures
        disabled == node_is_disabled(*node),
;

/// Where an element lies in its view, in whole points.
#[derive(Debug, Clone, Copy, PartialEq, Eq, Structural)]
pub struct ElementFrame {
    pub x: i64,
    pub y: i64,
    pub width: i64,
    pub height: i64,
}

/// What a screen reader is told of a node.
#[derive(Debug)]
pub struct AccessNode {
    pub id: u64,
    pub role: accesskit::Role,
    pub label: Option<String>,
    pub value: Option<String>,
    pub role_description: Option<String>,
    pub clickable: bool,
    pub selected: Option<bool>,
    pub disabled: bool,
    pub children: Vec<u64>,
    pub frame: Option<ElementFrame>,
}

/// What an [`AccessNode`] holds.
pub struct AccessNodeView {
    pub id: u64,
    pub role: accesskit::Role,
    pub label: Option<Seq<char>>,
    pub value: Option<Seq<char>>,
    pub role_description: Option<Seq<char>>,
    pub clickable: bool,
    pub selected: Option<bool>,
    pub disabled: bool,
    pub children: Seq<u64>,
    pub frame: Option<ElementFrame>,
}

/// A tree of nodes. A node that comes later stands for an earlier one of the same id.
#[derive(Debug)]
pub struct AccessTree {
    pub root: u64,
    pub focus: u64,
    pub nodes: Vec<AccessNode>,
}

/// What an [`AccessTree`] holds.
pub struct AccessTreeView {
    pub root: u64,
    pub focus: u64,
    pub nodes: Seq<AccessNodeView>,
}

impl View for AccessNode {
    type V = AccessNodeView;

    open spec fn view(&self) -> AccessNodeView {
        AccessNodeView {
            id: self.id,
            role: self.role,
            label: text_of(self.label),
            value: text_of(self.value),
            role_description: text_of(self.role_description),
            clickable: self.clickable,
            selected: self.selected,
            disabled: self.disabled,
            children: self.children@,
            frame: self.frame,
        }
    }
}

impl View for AccessTree {
    type V = AccessTreeView;

    open spec fn view(&self) -> AccessTreeView {
        AccessTreeView {
            root: self.root,
            focus: self.focus,
            nodes: Seq::new(self.nodes@.len(), |i: int| self.nodes@[i]@),
        }
    }
}

/// What accesskit says of a node that lies in `frame`.
pub open spec fn described_node(
    id: accesskit::NodeId,
    node: accesskit::Node,
    frame: Option<ElementFrame>,
) -> AccessNodeView {
    AccessNodeView {
        id: id.0,
        role: node_role(node),
        label: node_label(node),
        value: node_value(node),
        role_description: node_role_description(node),
        clickable: node_supports_action(node, accesskit::Action::Click),
        selected: node_is_selected(node),
        disabled: node_is_disabled(node),
        children: Seq::new(node_children(node).len(), |i: int| node_children(node)[i].0),
        frame,
    }
}

/// What accesskit says of a tree whose nodes lie in `frames`. An update that names no root is
/// about the tree of the node 0.
pub open spec fn described_tree(
    update: accesskit::TreeUpdate,
    frames: Seq<Option<ElementFrame>>,
) -> AccessTreeView {
    AccessTreeView {
        root: match update.tree {
            Some(info) => info.root.0,
            None => 0,
        },
        focus: update.focus.0,
        nodes: Seq::new(
            update.nodes@.len(),
            |i: int| described_node(update.nodes@[i].0, update.nodes@[i].1, frames[i]),
        ),
    }
}

fn owned(text: Option<&str>) -> (copy: Option<String>)
    ensures
        match text {
            Some(text) => text_of(copy) == Some(text@),
            None => copy is None,
        },
{
    match text {
        Some(text) => Some(text.to_owned()),
        None => None,
    }
}

/// Reads a node that lies in `frame`.
pub fn read_node(
    id: accesskit::NodeId,
    node: &accesskit::Node,
    frame: Option<ElementFrame>,
) -> (read: AccessNode)
    ensures
        read@ == described_node(id, *node, frame),
{
    let listed = node.children();
    let mut children: Vec<u64> = Vec::new();
    let mut i: usize = 0;
    while i < listed.len()
        invariant
            i <= listed@.len(),
            children@ == Seq::new(i as nat, |j: int| listed@[j].0),
        decreases listed.len() - i,
    {
        children.push(listed[i].0);
        proof {
            assert(children@ =~= Seq::new((i + 1) as nat, |j: int| listed@[j].0));
        }
        i = i + 1;
    }
    let read = AccessNode {
        id: id.0,
        role: node.role(),
        label: owned(node.label()),
        value: owned(node.value()),
        role_description: owned(node.role_description()),
        clickable: node.supports_action(accesskit::Action::Click),
        selected: node.is_selected(),
        disabled: node.is_disabled(),
        children,
        frame,
    };
    proof {
        assert(read@.children =~= described_node(id, *node, frame).children);
    }
    read
}

/// Reads a tree; `frames` says where each of its nodes lies.
pub fn read_tree(
    update: &accesskit::TreeUpdate,
    frames: &Vec<Option<ElementFrame>>,
) -> (tree: AccessTree)
    requires
        frames@.len() == update.nodes@.len(),
    ensures
        tree@ == described_tree(*update, frames@),
{
    let mut nodes: Vec<AccessNode> = Vec::new();
    let mut i: usize = 0;
    while i < update.nodes.len()
        invariant
            i <= update.nodes@.len(),
            frames@.len() == update.nodes@.len(),
            nodes@.len() == i,
            forall|j: int|
                0 <= j < i ==> (#[trigger] nodes@[j])@ == described_node(
                    update.nodes@[j].0,
                    update.nodes@[j].1,
                    frames@[j],
                ),
        decreases update.nodes.len() - i,
    {
        let entry = &update.nodes[i];
        nodes.push(read_node(entry.0, &entry.1, frames[i]));
        i = i + 1;
    }
    let root: u64 = match &update.tree {
        Some(info) => info.root.0,
        None => 0,
    };
    let tree = AccessTree { root, focus: update.focus.0, nodes };
    proof {
        assert(tree@.nodes =~= described_tree(*update, frames@).nodes);
    }
    tree
}

} // verus!
