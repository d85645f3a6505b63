//! Accesskit trees as VoiceOver sees them.

use accesskit::{Action, Node, NodeId, Role, TreeId, TreeInfo, TreeUpdate};
use apple_frames::a11y::{A11yBridge, A11yUpdate, TraitBits};
use apple_frames::a11y_tree::{read_tree, ElementFrame};

const BITS: TraitBits = TraitBits {
    none: 0,
    button: 1,
    link: 2,
    header: 4,
    image: 8,
    keyboard_key: 16,
    search_field: 32,
    static_text: 64,
    selected: 128,
    not_enabled: 256,
    updates_frequently: 512,
};

fn node(role: Role, label: Option<&str>, children: &[u64]) -> Node {
    let mut node = Node::new(role);
    if let Some(label) = label {
        node.set_label(label);
    }
    node.set_children(children.iter().map(|id| NodeId(*id)).collect::<Vec<_>>());
    node
}

fn update(nodes: Vec<(u64, Node)>, root: Option<u64>, focus: u64) -> TreeUpdate {
    TreeUpdate {
        nodes: nodes.into_iter().map(|(id, node)| (NodeId(id), node)).collect(),
        tree: root.map(|root| TreeInfo::new(NodeId(root))),
        tree_id: TreeId::ROOT,
        focus: NodeId(focus),
    }
}

fn mirror(bridge: &mut A11yBridge, update: &TreeUpdate) -> A11yUpdate {
    let frames = vec![None; update.nodes.len()];
    bridge.update(update, &frames, &BITS, true)
}

fn listed(bridge: &mut A11yBridge) -> Vec<u64> {
    let (_, elements) = bridge.elements();
    elements.unwrap().iter().map(|element| element.node).collect()
}

fn window() -> TreeUpdate {
    update(
        vec![
            (1, node(Role::Window, Some("window"), &[2, 5, 9])),
            (2, node(Role::GenericContainer, Some("group"), &[3, 4])),
            (3, node(Role::Button, Some("ok"), &[])),
            (4, node(Role::Label, None, &[])),
            (5, node(Role::List, Some("list"), &[6])),
            (6, node(Role::ListItem, Some("item"), &[])),
        ],
        Some(1),
        6,
    )
}

#[test]
fn elements_are_listed_in_reading_order() {
    let (mut bridge, turn_on) = A11yBridge::new(false);
    assert!(!turn_on);
    assert_eq!(mirror(&mut bridge, &window()), A11yUpdate::Changed(Some(2)));
    assert_eq!(listed(&mut bridge), vec![3, 5, 6]);
}

#[test]
fn the_same_tree_is_posted_once() {
    let (mut bridge, _) = A11yBridge::new(true);
    assert!(matches!(mirror(&mut bridge, &window()), A11yUpdate::Changed(_)));
    assert_eq!(mirror(&mut bridge, &window()), A11yUpdate::Unchanged);
}

#[test]
fn voice_over_is_led_only_where_the_focus_moves() {
    let (mut bridge, _) = A11yBridge::new(true);
    mirror(&mut bridge, &window());
    let mut focused = window();
    focused.focus = NodeId(3);
    assert_eq!(mirror(&mut bridge, &focused), A11yUpdate::Changed(Some(0)));
    focused.nodes[2].1.set_label("cancel");
    assert_eq!(mirror(&mut bridge, &focused), A11yUpdate::Changed(None));
    focused.focus = NodeId(1);
    assert_eq!(
        mirror(&mut bridge, &focused),
        A11yUpdate::Changed(None),
        "the window is no element"
    );
}

#[test]
fn everything_a_screen_reader_perceives_is_news() {
    let (mut bridge, _) = A11yBridge::new(true);
    let mut tree = window();
    let count = tree.nodes.len();
    let mut frames = vec![None; count];
    assert!(matches!(
        bridge.update(&tree, &frames, &BITS, true),
        A11yUpdate::Changed(_)
    ));
    frames[2] = Some(ElementFrame { x: 1, y: -2, width: 3, height: 4 });
    assert_eq!(bridge.update(&tree, &frames, &BITS, true), A11yUpdate::Changed(None));
    tree.nodes[2].1.set_value("on");
    assert_eq!(bridge.update(&tree, &frames, &BITS, true), A11yUpdate::Changed(None));
    tree.nodes[2].1.set_disabled();
    assert_eq!(bridge.update(&tree, &frames, &BITS, true), A11yUpdate::Changed(None));
    tree.nodes[1].1.set_label("renamed");
    assert_eq!(
        bridge.update(&tree, &frames, &BITS, true),
        A11yUpdate::Unchanged,
        "a container is not perceived"
    );
    frames[1] = Some(ElementFrame { x: 0, y: 0, width: 9, height: 9 });
    assert_eq!(bridge.update(&tree, &frames, &BITS, true), A11yUpdate::Unchanged);
}

#[test]
fn an_element_says_what_its_node_says() {
    let (mut bridge, _) = A11yBridge::new(true);
    let mut slider = node(Role::Slider, Some("volume"), &[]);
    slider.set_value("7");
    let frame = ElementFrame { x: 10, y: 20, width: 30, height: 40 };
    let tree = update(vec![(0, slider)], None, 0);
    assert_eq!(
        bridge.update(&tree, &vec![Some(frame)], &BITS, true),
        A11yUpdate::Changed(Some(0)),
        "a tree without a root is that of the node 0"
    );
    let (_, elements) = bridge.elements();
    let element = &elements.unwrap()[0];
    assert_eq!(element.node, 0);
    assert_eq!(element.label.as_deref(), Some("volume"));
    assert_eq!(element.value.as_deref(), Some("7"));
    assert_eq!(element.traits, BITS.none);
    assert_eq!(element.frame, Some(frame));
}

fn traits_of(node: Node) -> u64 {
    let (mut bridge, _) = A11yBridge::new(true);
    mirror(&mut bridge, &update(vec![(0, node)], Some(0), 0));
    let (_, elements) = bridge.elements();
    elements.unwrap()[0].traits
}

#[test]
fn traits_follow_the_role_and_the_state() {
    let labelled = |role| node(role, Some("x"), &[]);
    for role in [
        Role::Button,
        Role::DefaultButton,
        Role::Tab,
        Role::MenuItem,
        Role::ListBoxOption,
    ] {
        assert_eq!(traits_of(labelled(role)), BITS.button);
    }
    assert_eq!(traits_of(labelled(Role::Link)), BITS.link);
    assert_eq!(traits_of(labelled(Role::Heading)), BITS.header);
    assert_eq!(traits_of(labelled(Role::Image)), BITS.image);
    assert_eq!(traits_of(labelled(Role::SearchInput)), BITS.search_field);
    assert_eq!(traits_of(labelled(Role::Label)), BITS.static_text);
    assert_eq!(traits_of(labelled(Role::Paragraph)), BITS.static_text);
    for role in [Role::Terminal, Role::Log, Role::Timer, Role::Status] {
        assert_eq!(traits_of(labelled(role)), BITS.static_text | BITS.updates_frequently);
    }
    let mut input = labelled(Role::TextInput);
    input.add_action(Action::Click);
    assert_eq!(traits_of(input), BITS.none);
    let mut cell = node(Role::Cell, None, &[]);
    cell.add_action(Action::Click);
    assert_eq!(traits_of(cell), BITS.button);
    let mut key = labelled(Role::Button);
    key.set_role_description("key");
    key.set_selected(true);
    key.set_disabled();
    assert_eq!(
        traits_of(key),
        BITS.button | BITS.keyboard_key | BITS.selected | BITS.not_enabled
    );
    let mut other = labelled(Role::Button);
    other.set_role_description("keys");
    other.set_selected(false);
    assert_eq!(traits_of(other), BITS.button);
}

#[test]
fn a_later_node_stands_for_an_earlier_one() {
    let (mut bridge, _) = A11yBridge::new(true);
    let tree = update(
        vec![
            (1, node(Role::Window, None, &[2])),
            (2, node(Role::Button, Some("old"), &[])),
            (2, node(Role::Button, Some("new"), &[])),
        ],
        Some(1),
        2,
    );
    mirror(&mut bridge, &tree);
    let (_, elements) = bridge.elements();
    let elements = elements.unwrap();
    assert_eq!(elements.len(), 1);
    assert_eq!(elements[0].label.as_deref(), Some("new"));
}

#[test]
fn a_tree_that_loops_has_no_reading_order() {
    let (mut bridge, _) = A11yBridge::new(true);
    let looping = update(
        vec![
            (1, node(Role::Window, None, &[2])),
            (2, node(Role::List, Some("list"), &[1])),
        ],
        Some(1),
        2,
    );
    assert_eq!(mirror(&mut bridge, &looping), A11yUpdate::Cyclic);
    assert!(bridge.elements().1.is_none());
    // A node that several share is no loop, and a stop each time.
    let shared = update(
        vec![
            (1, node(Role::Window, None, &[2, 2])),
            (2, node(Role::Button, Some("ok"), &[])),
        ],
        Some(1),
        2,
    );
    assert_eq!(mirror(&mut bridge, &shared), A11yUpdate::Changed(Some(1)));
    assert_eq!(listed(&mut bridge), vec![2, 2]);
}

#[test]
fn a_loop_the_root_never_reaches_does_no_harm() {
    let (mut bridge, _) = A11yBridge::new(true);
    let tree = update(
        vec![
            (1, node(Role::Window, None, &[2])),
            (2, node(Role::Button, Some("ok"), &[])),
            (7, node(Role::List, Some("lost"), &[8])),
            (8, node(Role::List, Some("lost"), &[7])),
        ],
        Some(1),
        2,
    );
    assert_eq!(mirror(&mut bridge, &tree), A11yUpdate::Changed(Some(0)));
    assert_eq!(listed(&mut bridge), vec![2]);
}

#[test]
fn trees_are_ignored_off_the_main_thread() {
    let (mut bridge, _) = A11yBridge::new(true);
    let tree = window();
    let frames = vec![None; tree.nodes.len()];
    assert_eq!(
        bridge.update(&tree, &frames, &BITS, false),
        A11yUpdate::OffMainThread
    );
    assert!(bridge.elements().1.is_none());
}

#[test]
fn the_tree_is_turned_on_once() {
    let (mut bridge, turn_on) = A11yBridge::new(true);
    assert!(turn_on);
    assert!(!bridge.activate());
    let (mut quiet, turn_on) = A11yBridge::new(false);
    assert!(!turn_on);
    assert!(quiet.elements().0, "the first request turns the tree on");
    assert!(!quiet.elements().0);
    assert!(!quiet.activate());
}

#[test]
fn reading_a_tree_keeps_all_it_says() {
    let mut button = node(Role::Button, Some("ok"), &[8, 7]);
    button.set_value("v");
    button.set_role_description("key");
    button.add_action(Action::Click);
    button.set_selected(true);
    button.set_disabled();
    let tree = update(vec![(3, button)], Some(3), 9);
    let read = read_tree(&tree, &vec![None]);
    assert_eq!((read.root, read.focus), (3, 9));
    let node = &read.nodes[0];
    assert_eq!(node.id, 3);
    assert_eq!(node.role, Role::Button);
    assert_eq!(node.label.as_deref(), Some("ok"));
    assert_eq!(node.value.as_deref(), Some("v"));
    assert_eq!(node.role_description.as_deref(), Some("key"));
    assert!(node.clickable && node.disabled);
    assert_eq!(node.selected, Some(true));
    assert_eq!(node.children, vec![8, 7]);
    assert_eq!(node.frame, None);
}
