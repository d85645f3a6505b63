//! VoiceOver: an accesskit tree, mirrored as a flat list of elements in reading order.
//!
//! The tree is turned on the first time UIKit asks a view for its accessibility elements, or at
//! once when VoiceOver is already running. Every update then rebuilds the list: one element per
//! node with a label, a value or a click action (containers are walked, not exposed), with its
//! frame, and traits from the node's role and state. VoiceOver is told of a layout change
//! whenever the list or the focus changes, and led to the focused element when the focus has.

use crate::a11y_tree::{
    described_tree, read_tree, AccessNode, AccessNodeView, AccessTree, AccessTreeView,
    ElementFrame,
};
use crate::text::text_of;
use accesskit::Role;
use std::collections::hash_map::DefaultHasher;
use std::collections::HashMap;
use std::hash::Hasher;
use vstd::bytes::{spec_u64_to_le_bytes, u64_to_le_bytes};
use vstd::prelude::*;
use vstd::std_specs::hash::DefaultHasherAdditionalSpecFns;
use vstd::string::*;
use vstd::utf8::encode_utf8;

verus! {

/// UIKit's accessibility traits, each a bit.
#[derive(Debug, Clone, Copy, PartialEq, Eq, Structural)]
pub struct TraitBits {
    pub none: u64,
    pub button: u64,
    pub link: u64,
    pub header: u64,
    pub image: u64,
    pub keyboard_key: u64,
    pub search_field: u64,
    pub static_text: u64,
    pub selected: u64,
    pub not_enabled: u64,
    pub updates_frequently: u64,
}

impl AccessNodeView {
    /// Whether a screen reader stops at the node. Windows and generic containers only lend their
    /// order.
    pub open spec fn exposed(self) -> bool {
        &&& !(self.role is Window || self.role is GenericContainer)
        &&& self.label is Some || self.value is Some || self.clickable
    }

    /// The traits of the node's role.
    pub open spec fn role_traits(self, bits: TraitBits) -> u64 {
        match self.role {
            Role::Button | Role::DefaultButton | Role::Tab | Role::MenuItem
            | Role::ListBoxOption => bits.button,
            Role::Link => bits.link,
            Role::Heading => bits.header,
            Role::Image => bits.image,
            Role::SearchInput => bits.search_field,
            Role::TextInput | Role::MultilineTextInput => bits.none,
            Role::Terminal | Role::Log | Role::Timer | Role::Status => bits.static_text
                | bits.updates_frequently,
            Role::Label | Role::Paragraph => bits.static_text,
            _ => if self.clickable {
                bits.button
            } else {
                bits.none
            },
        }
    }

    /// The traits of the node: those of its role, and of its state.
    pub open spec fn traits(self, bits: TraitBits) -> u64 {
        let role = self.role_traits(bits);
        let named = if self.role_description == Some("key"@) {
            role | bits.keyboard_key
        } else {
            role
        };
        let marked = if self.selected == Some(true) {
            named | bits.selected
        } else {
            named
        };
        if self.disabled {
            marked | bits.not_enabled
        } else {
            marked
        }
    }
}

/// Whether a screen reader stops at a node.
pub fn exposed(node: &AccessNode) -> (stop: bool)
    ensures
        stop == node@.exposed(),
{
    let container = match node.role {
        Role::Window | Role::GenericContainer => true,
        _ => false,
    };
    !container && (node.label.is_some() || node.value.is_some() || node.clickable)
}

/// The UIKit traits of a node.
pub fn traits_for(node: &AccessNode, bits: &TraitBits) -> (traits: u64)
    ensures
        traits == node@.traits(*bits),
{
    let mut traits: u64 = match node.role {
        Role::Button | Role::DefaultButton | Role::Tab | Role::MenuItem
        | Role::ListBoxOption => bits.button,
        Role::Link => bits.link,
        Role::Heading => bits.header,
        Role::Image => bits.image,
        Role::SearchInput => bits.search_field,
        Role::TextInput | Role::MultilineTextInput => bits.none,
        Role::Terminal | Role::Log | Role::Timer | Role::Status => bits.static_text
            | bits.updates_frequently,
        Role::Label | Role::Paragraph => bits.static_text,
        _ => if node.clickable {
            bits.button
        } else {
            bits.none
        },
    };
    if let Some(description) = &node.role_description {
        if *description == "key".to_string() {
            traits = traits | bits.keyboard_key;
        }
    }
    if let Some(selected) = node.selected {
        if selected {
            traits = traits | bits.selected;
        }
    }
    if node.disabled {
        traits = traits | bits.not_enabled;
    }
    traits
}

impl AccessTreeView {
    /// Where the node `id` lies among the first `count`: the last of that id.
    pub open spec fn position(self, id: u64, count: int) -> Option<int>
        decreases count,
    {
        if count <= 0 {
            None
        } else if self.nodes[count - 1].id == id {
            Some(count - 1)
        } else {
            self.position(id, count - 1)
        }
    }

    /// The node `id`.
    pub open spec fn node(self, id: u64) -> Option<AccessNodeView> {
        match self.position(id, self.nodes.len() as int) {
            Some(at) => Some(self.nodes[at]),
            None => None,
        }
    }

    /// The stops at and below the node `id`, depth first, where no path from it has more than
    /// `depth` nodes; `None` where one has. A node the tree lacks has no stops.
    pub open spec fn stops(self, id: u64, depth: nat) -> Option<Seq<u64>>
        decreases depth, 0nat,
    {
        match self.node(id) {
            None => Some(seq![]),
            Some(node) => if depth == 0 {
                None
            } else {
                match self.stops_of(node.children, node.children.len(), (depth - 1) as nat) {
                    None => None,
                    Some(below) => Some(
                        if node.exposed() {
                            seq![id] + below
                        } else {
                            below
                        },
                    ),
                }
            },
        }
    }

    /// The stops at and below the first `count` of `children`, in order.
    pub open spec fn stops_of(self, children: Seq<u64>, count: nat, depth: nat) -> Option<Seq<u64>>
        decreases depth, count,
    {
        if count == 0 {
            Some(seq![])
        } else {
            match (
                self.stops_of(children, (count - 1) as nat, depth),
                self.stops(children[count - 1], depth),
            ) {
                (Some(earlier), Some(last)) => Some(earlier + last),
                _ => None,
            }
        }
    }

    /// The whole tree's reading order. A path of more nodes than there are visits one twice, so
    /// `None` means that a cycle can be reached from the root.
    pub open spec fn reading_order(self) -> Option<Seq<u64>> {
        self.stops(self.root, self.nodes.len())
    }
}

/// Where each node lies, by its id.
pub open spec fn indexes(index: Map<u64, usize>, tree: AccessTreeView) -> bool {
    forall|id: u64|
        match #[trigger] tree.position(id, tree.nodes.len() as int) {
            Some(at) => index.contains_key(id) && index[id] == at,
            None => !index.contains_key(id),
        }
}

/// Finds the place of every node.
fn index_nodes(tree: &AccessTree) -> (index: HashMap<u64, usize>)
    ensures
        indexes(index@, tree@),
{
    broadcast use vstd::std_specs::hash::group_hash_axioms;

    let mut index: HashMap<u64, usize> = HashMap::new();
    let mut i: usize = 0;
    while i < tree.nodes.len()
        invariant
            i <= tree.nodes@.len(),
            forall|id: u64|
                match #[trigger] tree@.position(id, i as int) {
                    Some(at) => index@.contains_key(id) && index@[id] == at,
                    None => !index@.contains_key(id),
                },
        decreases tree.nodes.len() - i,
    {
        let id: u64 = tree.nodes[i].id;
        index.insert(id, i);
        proof {
            assert forall|other: u64|
                match #[trigger] tree@.position(other, i + 1) {
                    Some(at) => index@.contains_key(other) && index@[other] == at,
                    None => !index@.contains_key(other),
                } by {
                assert(tree@.position(other, i + 1) == if other == id {
                    Some(i as int)
                } else {
                    tree@.position(other, i as int)
                });
            }
        }
        i = i + 1;
    }
    index
}

/// Appends the stops at and below the node `id` to `out`. Tells whether no path from it has more
/// than `depth` nodes; where one has, what was appended means nothing.
fn walk(
    tree: &AccessTree,
    index: &HashMap<u64, usize>,
    id: u64,
    depth: usize,
    out: &mut Vec<u64>,
) -> (walked: bool)
    requires
        indexes(index@, tree@),
    ensures
        match tree@.stops(id, depth as nat) {
            Some(stops) => walked && final(out)@ == old(out)@ + stops,
            None => !walked,
        },
    decreases depth,
{
    broadcast use vstd::std_specs::hash::group_hash_axioms;

    proof {
        lemma_position(tree@, id, tree@.nodes.len() as int);
    }
    let node = match index.get(&id) {
        Some(at) => &tree.nodes[*at],
        None => {
            proof {
                assert(out@ =~= old(out)@ + seq![]);
            }
            return true;
        },
    };
    if depth == 0 {
        return false;
    }
    if exposed(node) {
        out.push(id);
    }
    let ghost own = if node@.exposed() {
        seq![id]
    } else {
        seq![]
    };
    let mut i: usize = 0;
    proof {
        assert(out@ =~= old(out)@ + (own + seq![]));
    }
    while i < node.children.len()
        invariant
            i <= node.children@.len(),
            depth > 0,
            indexes(index@, tree@),
            tree@.node(id) == Some(node@),
            match tree@.stops_of(node.children@, i as nat, (depth - 1) as nat) {
                Some(stops) => out@ == old(out)@ + (own + stops),
                None => false,
            },
        decreases node.children.len() - i,
    {
        let ghost earlier = tree@.stops_of(node.children@, i as nat, (depth - 1) as nat);
        let ghost last = tree@.stops(node.children@[i as int], (depth - 1) as nat);
        let below = walk(tree, index, node.children[i], depth - 1, out);
        proof {
            assert(tree@.stops_of(node.children@, (i + 1) as nat, (depth - 1) as nat) == match (
                earlier,
                last,
            ) {
                (Some(a), Some(b)) => Some(a + b),
                _ => None,
            });
        }
        if !below {
            proof {
                lemma_stops_none(
                    tree@,
                    node.children@,
                    (i + 1) as nat,
                    node.children@.len(),
                    (depth - 1) as nat,
                );
            }
            return false;
        }
        proof {
            assert(out@ =~= old(out)@ + (own + (earlier->0 + last->0)));
        }
        i = i + 1;
    }
    proof {
        assert(own + tree@.stops_of(
            node.children@,
            node.children@.len(),
            (depth - 1) as nat,
        )->0 =~= tree@.stops(id, depth as nat)->0);
    }
    true
}

proof fn lemma_position(tree: AccessTreeView, id: u64, count: int)
    requires
        count <= tree.nodes.len(),
    ensures
        tree.position(id, count) matches Some(at) ==> 0 <= at < count && tree.nodes[at].id == id,
    decreases count,
{
    if count > 0 {
        lemma_position(tree, id, count - 1);
    }
}

/// Once one child goes too deep, so does the whole row.
proof fn lemma_stops_none(
    tree: AccessTreeView,
    children: Seq<u64>,
    some: nat,
    all: nat,
    depth: nat,
)
    requires
        some <= all,
        tree.stops_of(children, some, depth) is None,
    ensures
        tree.stops_of(children, all, depth) is None,
    decreases all,
{
    if some < all {
        lemma_stops_none(tree, children, some, (all - 1) as nat, depth);
    }
}

/// One element of the list handed to the view.
#[derive(Debug)]
pub struct A11yElement {
    /// The node it stands for, which its activation clicks.
    pub node: u64,
    pub label: Option<String>,
    pub value: Option<String>,
    pub traits: u64,
    pub frame: Option<ElementFrame>,
}

/// What an [`A11yElement`] holds.
pub struct A11yElementView {
    pub node: u64,
    pub label: Option<Seq<char>>,
    pub value: Option<Seq<char>>,
    pub traits: u64,
    pub frame: Option<ElementFrame>,
}

impl View for A11yElement {
    type V = A11yElementView;

    open spec fn view(&self) -> A11yElementView {
        A11yElementView {
            node: self.node,
            label: text_of(self.label),
            value: text_of(self.value),
            traits: self.traits,
            frame: self.frame,
        }
    }
}

/// What a list of elements holds.
pub open spec fn list_view(list: Seq<A11yElement>) -> Seq<A11yElementView> {
    Seq::new(list.len(), |i: int| list[i]@)
}

impl AccessNodeView {
    /// The element a screen reader stops at.
    pub open spec fn element(self, bits: TraitBits) -> A11yElementView {
        A11yElementView {
            node: self.id,
            label: self.label,
            value: self.value,
            traits: self.traits(bits),
            frame: self.frame,
        }
    }
}

impl AccessTreeView {
    /// The elements of these nodes.
    pub open spec fn elements(self, order: Seq<u64>, bits: TraitBits) -> Seq<A11yElementView> {
        Seq::new(order.len(), |i: int| self.node(order[i])->0.element(bits))
    }
}

/// The last place of `id` in `order`.
pub open spec fn last_place(order: Seq<u64>, id: u64) -> Option<usize>
    decreases order.len(),
{
    if order.len() == 0 {
        None
    } else if order.last() == id {
        Some((order.len() - 1) as usize)
    } else {
        last_place(order.drop_last(), id)
    }
}

/// Every stop is a node of the tree.
proof fn lemma_stops_are_nodes(tree: AccessTreeView, id: u64, depth: nat)
    ensures
        tree.stops(id, depth) matches Some(stops) ==> forall|i: int|
            0 <= i < stops.len() ==> tree.node(#[trigger] stops[i]) is Some,
    decreases depth, 0nat,
{
    if tree.node(id) is Some && depth > 0 {
        let node = tree.node(id)->0;
        lemma_row_stops_are_nodes(tree, node.children, node.children.len(), (depth - 1) as nat);
    }
}

proof fn lemma_row_stops_are_nodes(
    tree: AccessTreeView,
    children: Seq<u64>,
    count: nat,
    depth: nat,
)
    ensures
        tree.stops_of(children, count, depth) matches Some(stops) ==> forall|i: int|
            0 <= i < stops.len() ==> tree.node(#[trigger] stops[i]) is Some,
    decreases depth, count,
{
    if count > 0 {
        lemma_row_stops_are_nodes(tree, children, (count - 1) as nat, depth);
        lemma_stops_are_nodes(tree, children[count - 1], depth);
    }
}

fn copied(text: &Option<String>) -> (copy: Option<String>)
    ensures
        text_of(copy) == text_of(*text),
{
    match text {
        Some(text) => Some(text.as_str().to_owned()),
        None => None,
    }
}

/// What the digest of a text covers: whether there is one, and its bytes up to a byte that no
/// text has.
pub open spec fn text_writes(text: Option<Seq<char>>) -> Seq<Seq<u8>> {
    match text {
        None => seq![seq![0u8]],
        Some(text) => seq![seq![1u8], encode_utf8(text), seq![0xffu8]],
    }
}

/// What the digest of an element covers: its frame if it has one, its node, its texts and its
/// traits.
pub open spec fn element_writes(element: A11yElementView) -> Seq<Seq<u8>> {
    let frame = match element.frame {
        Some(frame) => seq![
            spec_u64_to_le_bytes(frame.x as u64),
            spec_u64_to_le_bytes(frame.y as u64),
            spec_u64_to_le_bytes(frame.width as u64),
            spec_u64_to_le_bytes(frame.height as u64),
        ],
        None => seq![],
    };
    frame + seq![spec_u64_to_le_bytes(element.node)] + text_writes(element.label) + text_writes(
        element.value,
    ) + seq![spec_u64_to_le_bytes(element.traits)]
}

/// What the digest of a list covers.
pub open spec fn list_writes(list: Seq<A11yElementView>) -> Seq<Seq<u8>>
    decreases list.len(),
{
    if list.len() == 0 {
        seq![]
    } else {
        list_writes(list.drop_last()) + element_writes(list.last())
    }
}

/// The digest of a list: what the standard library's hasher makes of all a screen reader can
/// perceive of it.
pub open spec fn list_digest(list: Seq<A11yElementView>) -> u64 {
    DefaultHasher::spec_finish(list_writes(list))
}

fn hash_number(hasher: &mut DefaultHasher, number: u64)
    ensures
        final(hasher)@ == old(hasher)@ + seq![spec_u64_to_le_bytes(number)],
{
    let bytes = u64_to_le_bytes(number);
    hasher.write(bytes.as_slice());
}

fn hash_text(hasher: &mut DefaultHasher, text: &Option<String>)
    ensures
        final(hasher)@ == old(hasher)@ + text_writes(text_of(*text)),
{
    match text {
        None => {
            let absent: [u8; 1] = [0];
            hasher.write(absent.as_slice());
            proof {
                assert(absent@ =~= seq![0u8]);
            }
        },
        Some(text) => {
            let present: [u8; 1] = [1];
            let end: [u8; 1] = [0xff];
            hasher.write(present.as_slice());
            hasher.write(text.as_str().as_bytes());
            hasher.write(end.as_slice());
            proof {
                assert(present@ =~= seq![1u8]);
                assert(end@ =~= seq![0xffu8]);
                assert(hasher@ =~= old(hasher)@ + text_writes(Some(text@)));
            }
        },
    }
}

fn hash_element(hasher: &mut DefaultHasher, element: &A11yElement)
    ensures
        final(hasher)@ == old(hasher)@ + element_writes(element@),
{
    if let Some(frame) = element.frame {
        hash_number(hasher, frame.x as u64);
        hash_number(hasher, frame.y as u64);
        hash_number(hasher, frame.width as u64);
        hash_number(hasher, frame.height as u64);
    }
    hash_number(hasher, element.node);
    hash_text(hasher, &element.label);
    hash_text(hasher, &element.value);
    hash_number(hasher, element.traits);
    proof {
        assert(hasher@ =~= old(hasher)@ + element_writes(element@));
    }
}

/// What VoiceOver is told after an update.
#[derive(Debug, Clone, Copy, PartialEq, Eq, Structural)]
pub enum A11yUpdate {
    /// Trees are mirrored on the main thread alone.
    OffMainThread,
    /// The tree loops back on itself and has no reading order.
    Cyclic,
    /// Nothing a screen reader can perceive has moved.
    Unchanged,
    /// The view has a new list, and a layout change is posted: to lead VoiceOver to the element
    /// at this place, or with `None` to have it read the screen again in place.
    Changed(Option<usize>),
}

/// What an [`A11yBridge`] remembers.
pub struct BridgeState {
    pub active: bool,
    pub elements: Option<Seq<A11yElementView>>,
    pub digest: u64,
    pub focus: Option<u64>,
}

impl BridgeState {
    /// A bridge that has mirrored nothing.
    pub open spec fn starting(active: bool) -> Self {
        BridgeState { active, elements: None, digest: 0, focus: None }
    }

    pub open spec fn activated(self) -> Self {
        BridgeState { active: true, ..self }
    }

    /// Whether `list`, or the focus on `focus`, is news.
    pub open spec fn is_news(self, list: Seq<A11yElementView>, focus: u64) -> bool {
        list_digest(list) != self.digest || self.focus != Some(focus)
    }

    /// What VoiceOver is told of a tree.
    pub open spec fn told(self, tree: AccessTreeView, bits: TraitBits) -> A11yUpdate {
        match tree.reading_order() {
            None => A11yUpdate::Cyclic,
            Some(order) => if self.is_news(tree.elements(order, bits), tree.focus) {
                A11yUpdate::Changed(
                    if self.focus != Some(tree.focus) {
                        last_place(order, tree.focus)
                    } else {
                        None
                    },
                )
            } else {
                A11yUpdate::Unchanged
            },
        }
    }

    /// The bridge once it has mirrored a tree.
    pub open spec fn updated(self, tree: AccessTreeView, bits: TraitBits) -> Self {
        match tree.reading_order() {
            None => self,
            Some(order) => {
                let list = tree.elements(order, bits);
                BridgeState {
                    active: self.active,
                    elements: if self.is_news(list, tree.focus) {
                        Some(list)
                    } else {
                        self.elements
                    },
                    digest: list_digest(list),
                    focus: Some(tree.focus),
                }
            },
        }
    }
}

/// One window's bridge.
#[derive(Debug)]
pub struct A11yBridge {
    active: bool,
    /// The current elements, in reading order, as handed to the view.
    elements: Option<Vec<A11yElement>>,
    /// Digest of the last list, to post a layout change only when something the screen reader
    /// can perceive moved.
    digest: u64,
    focus: Option<u64>,
}

impl View for A11yBridge {
    type V = BridgeState;

    closed spec fn view(&self) -> BridgeState {
        BridgeState {
            active: self.active,
            elements: match self.elements {
                Some(list) => Some(list_view(list@)),
                None => None,
            },
            digest: self.digest,
            focus: self.focus,
        }
    }
}

impl A11yBridge {
    /// A new window's bridge, and whether its tree must be turned on now.
    pub fn new(voice_over_running: bool) -> (made: (Self, bool))
        ensures
            made.0@ == BridgeState::starting(voice_over_running),
            made.1 == voice_over_running,
    {
        let mut bridge = A11yBridge { active: false, elements: None, digest: 0, focus: None };
        let turn_on = voice_over_running && bridge.activate();
        (bridge, turn_on)
    }

    /// Activates the bridge, and tells whether its tree must be turned on now: only the first
    /// time. The next frame's tree then arrives through [`Self::update`].
    pub fn activate(&mut self) -> (turn_on: bool)
        ensures
            final(self)@ == old(self)@.activated(),
            turn_on == !old(self)@.active,
    {
        let turn_on = !self.active;
        self.active = true;
        turn_on
    }

    /// What UIKit is told when it asks for the view's elements, beside whether the tree must be
    /// turned on now: the first request activates the bridge.
    pub fn elements(&mut self) -> (asked: (bool, Option<&Vec<A11yElement>>))
        ensures
            final(self)@ == old(self)@.activated(),
            asked.0 == !old(self)@.active,
            match asked.1 {
                Some(list) => old(self)@.elements == Some(list_view(list@)),
                None => old(self)@.elements is None,
            },
    {
        let turn_on = self.activate();
        (turn_on, self.elements.as_ref())
    }

    /// The current elements, as handed to the view.
    pub fn listed(&self) -> (elements: Option<&Vec<A11yElement>>)
        ensures
            match elements {
                Some(list) => self@.elements == Some(list_view(list@)),
                None => self@.elements is None,
            },
    {
        self.elements.as_ref()
    }

    /// The elements of these nodes, the place of the focused one, and the digest of the list.
    fn build(tree: &AccessTree, index: &HashMap<u64, usize>, order: &Vec<u64>, bits: &TraitBits) -> (
    built: (Vec<A11yElement>, Option<usize>, u64))
        requires
            indexes(index@, tree@),
            forall|i: int| 0 <= i < order@.len() ==> tree@.node(#[trigger] order@[i]) is Some,
        ensures
            list_view(built.0@) == tree@.elements(order@, *bits),
            built.1 == last_place(order@, tree@.focus),
            built.2 == list_digest(tree@.elements(order@, *bits)),
    {
        broadcast use vstd::std_specs::hash::group_hash_axioms;

        let mut hasher = DefaultHasher::new();
        let mut elements: Vec<A11yElement> = Vec::new();
        let mut focused: Option<usize> = None;
        let mut i: usize = 0;
        proof {
            assert(hasher@ =~= list_writes(list_view(elements@)));
            assert(list_view(elements@) =~= tree@.elements(order@.take(0), *bits));
        }
        while i < order.len()
            invariant
                i <= order@.len(),
                indexes(index@, tree@),
                forall|j: int| 0 <= j < order@.len() ==> tree@.node(#[trigger] order@[j]) is Some,
                list_view(elements@) == tree@.elements(order@.take(i as int), *bits),
                elements@.len() == i,
                focused == last_place(order@.take(i as int), tree@.focus),
                hasher@ == list_writes(list_view(elements@)),
            decreases order.len() - i,
        {
            let id: u64 = order[i];
            let ghost before = list_view(elements@);
            proof {
                lemma_position(tree@, id, tree@.nodes.len() as int);
                assert(tree@.node(order@[i as int]) is Some);
                assert(order@.take(i + 1).drop_last() =~= order@.take(i as int));
            }
            if let Some(at) = index.get(&id) {
                let node = &tree.nodes[*at];
                let element = A11yElement {
                    node: id,
                    label: copied(&node.label),
                    value: copied(&node.value),
                    traits: traits_for(node, bits),
                    frame: node.frame,
                };
                hash_element(&mut hasher, &element);
                if id == tree.focus {
                    focused = Some(elements.len());
                }
                elements.push(element);
                proof {
                    let listed = tree@.elements(order@.take(i + 1), *bits);
                    assert(element@ == tree@.node(id)->0.element(*bits));
                    assert forall|j: int| 0 <= j < listed.len() implies list_view(elements@)[j]
                        == listed[j] by {
                        if j < i {
                            assert(list_view(elements@)[j] == before[j]);
                            assert(before[j] == tree@.elements(order@.take(i as int), *bits)[j]);
                        }
                    }
                    assert(list_view(elements@) =~= listed);
                    assert(list_view(elements@).drop_last() =~= before);
                    assert(list_view(elements@).last() == element@);
                }
            }
            i = i + 1;
        }
        proof {
            assert(order@.take(i as int) =~= order@);
        }
        (elements, focused, hasher.finish())
    }

    /// Mirrors a tree, and says what VoiceOver is told of it.
    pub fn update_tree(&mut self, tree: &AccessTree, bits: &TraitBits) -> (told: A11yUpdate)
        ensures
            told == old(self)@.told(tree@, *bits),
            final(self)@ == old(self)@.updated(tree@, *bits),
    {
        let index = index_nodes(tree);
        let mut order: Vec<u64> = Vec::new();
        if !walk(tree, &index, tree.root, tree.nodes.len(), &mut order) {
            return A11yUpdate::Cyclic;
        }
        proof {
            lemma_stops_are_nodes(tree@, tree@.root, tree@.nodes.len());
            assert(order@ =~= tree@.reading_order()->0);
        }
        let (elements, focused, digest) = Self::build(tree, &index, &order, bits);
        let list_changed = digest != self.digest;
        self.digest = digest;
        let focus_changed = match self.focus {
            Some(focus) => focus != tree.focus,
            None => true,
        };
        self.focus = Some(tree.focus);
        if !list_changed && !focus_changed {
            return A11yUpdate::Unchanged;
        }
        self.elements = Some(elements);
        A11yUpdate::Changed(
            if focus_changed {
                focused
            } else {
                None
            },
        )
    }

    /// Mirrors a new frame's tree, whose nodes lie in `frames`, and says what VoiceOver is told
    /// of it. Off the main thread the tree is ignored.
    pub fn update(
        &mut self,
        update: &accesskit::TreeUpdate,
        frames: &Vec<Option<ElementFrame>>,
        bits: &TraitBits,
        on_main_thread: bool,
    ) -> (told: A11yUpdate)
        requires
            frames@.len() == update.nodes@.len(),
        ensures
            on_main_thread ==> told == old(self)@.told(described_tree(*update, frames@), *bits),
            on_main_thread ==> final(self)@ == old(self)@.updated(
                described_tree(*update, frames@),
                *bits,
            ),
            !on_main_thread ==> told is OffMainThread && final(self)@ == old(self)@,
    {
        if !on_main_thread {
            return A11yUpdate::OffMainThread;
        }
        let tree = read_tree(update, frames);
        self.update_tree(&tree, bits)
    }
}

} // verus!
