use gristmill::cell::Arena;
use gristmill::color::Color;
use gristmill::gui::{Delivery, Gui, PointerState, Visual};
use gristmill::layout::NodeId;
use gristmill::render::PaintCommand;
use gristmill::style::{Align, Dimension, Direction, Edges, Extent, Gap, NodeStyle, Place};
use gristmill::two::Vec2;

fn boxed(x: f32, y: f32, width: f32, height: f32) -> NodeStyle {
    NodeStyle {
        place: Place::At { left: x as i32, top: y as i32 },
        size: Extent { width: Dimension::Length(width as u32), height: Dimension::Length(height as u32) },
        ..NodeStyle::new()
    }
}

fn filled(color: Color) -> Visual {
    Visual { background: Some(color), border: None, foreground: false }
}

fn red() -> Color {
    Color::new(255, 0, 0, 255)
}

fn blue() -> Color {
    Color::new(0, 0, 255, 255)
}

/// Root 800x600 with A at (0,0,100,100) and B at (50,50,100,100), B added last.
fn two_boxes() -> (Gui, NodeId, NodeId) {
    let mut gui = Gui::new();
    let root = gui.root();
    let a = gui.add_view_control(root, filled(red()), boxed(0., 0., 100., 100.));
    let b = gui.add_view_control(root, filled(blue()), boxed(50., 50., 100., 100.));
    gui.set_screen_size(800, 600);
    (gui, a, b)
}

#[test]
fn new_gui_holds_only_a_root() {
    let gui = Gui::new();
    assert_eq!(gui.allocated(), 1);
    assert_eq!(gui.state().highlight, None);
    assert!(!gui.state().pointer_down);
    assert_eq!(gui.hit_test(0, 0), None);
    assert_eq!(gui.render(), Vec::<PaintCommand>::new());
}

#[test]
fn later_sibling_is_hit_first() {
    let (gui, a, b) = two_boxes();
    assert_eq!(gui.hit_test(75, 75), Some(b));
    assert_eq!(gui.hit_test(10, 10), Some(a));
    assert_eq!(gui.hit_test(700, 700), None);
}

#[test]
fn hit_test_is_half_open() {
    let (gui, a, b) = two_boxes();
    assert_eq!(gui.hit_test(0, 0), Some(a));
    assert_eq!(gui.hit_test(49, 99), Some(a));
    assert_eq!(gui.hit_test(50, 50), Some(b));
    assert_eq!(gui.hit_test(149, 149), Some(b));
    assert_eq!(gui.hit_test(150, 149), None);
    assert_eq!(gui.hit_test(100, 10), None);
    assert_eq!(gui.hit_test(-1, 10), None);
}

#[test]
fn node_without_background_is_not_hit() {
    let mut gui = Gui::new();
    let root = gui.root();
    let plain = gui.add_node(root, boxed(0., 0., 100., 100.));
    let bordered = gui.add_view(
        root,
        Visual { background: None, border: None, foreground: true },
        boxed(0., 0., 50., 50.),
    );
    gui.set_screen_size(800, 600);
    assert_eq!(gui.hit_test(10, 10), None);
    gui.set_visual(plain, Some(filled(red())));
    assert_eq!(gui.hit_test(10, 10), Some(plain));
    gui.set_visual(bordered, Some(filled(blue())));
    assert_eq!(gui.hit_test(10, 10), Some(bordered));
}

#[test]
fn child_is_hit_in_the_space_of_its_parent() {
    let mut gui = Gui::new();
    let root = gui.root();
    let panel = gui.add_view(root, filled(red()), boxed(200., 100., 300., 300.));
    let button = gui.add_view(panel, filled(blue()), boxed(10., 20., 30., 40.));
    gui.set_screen_size(800, 600);
    assert_eq!(gui.hit_test(210, 120), Some(button));
    assert_eq!(gui.hit_test(239, 159), Some(button));
    assert_eq!(gui.hit_test(240, 159), Some(panel));
    assert_eq!(gui.hit_test(209, 120), Some(panel));
    assert_eq!(gui.hit_test(10, 20), None);
}

#[test]
fn child_outside_its_parent_is_clipped() {
    let mut gui = Gui::new();
    let root = gui.root();
    let panel = gui.add_view(root, filled(red()), boxed(0., 0., 100., 100.));
    let _overhang = gui.add_view(panel, filled(blue()), boxed(50., 50., 100., 100.));
    gui.set_screen_size(800, 600);
    assert_eq!(gui.hit_test(120, 120), None);
}

#[test]
fn motion_moves_the_highlight_and_tells_the_controls() {
    let (mut gui, a, b) = two_boxes();
    let deliveries = gui.handle_pointer_motion(10, 10);
    assert_eq!(deliveries, vec![Delivery { node: a, state: PointerState::Over }]);
    assert_eq!(gui.state().highlight, Some(a));
    assert_eq!(gui.state().pointer_x, 10);
    assert_eq!(gui.state().pointer_y, 10);

    let deliveries = gui.handle_pointer_motion(75, 75);
    assert_eq!(
        deliveries,
        vec![
            Delivery { node: a, state: PointerState::Idle },
            Delivery { node: b, state: PointerState::Over },
        ]
    );
    assert_eq!(gui.state().highlight, Some(b));

    let deliveries = gui.handle_pointer_motion(80, 80);
    assert_eq!(deliveries, vec![]);
    assert_eq!(gui.state().highlight, Some(b));

    let deliveries = gui.handle_pointer_motion(700, 700);
    assert_eq!(deliveries, vec![Delivery { node: b, state: PointerState::Idle }]);
    assert_eq!(gui.state().highlight, None);
}

#[test]
fn motion_with_the_button_down_delivers_press() {
    let (mut gui, a, _b) = two_boxes();
    assert_eq!(gui.handle_pointer_button(true), None);
    let deliveries = gui.handle_pointer_motion(10, 10);
    assert_eq!(deliveries, vec![Delivery { node: a, state: PointerState::Press }]);
}

#[test]
fn repeated_button_value_is_one_transition() {
    let (mut gui, a, _b) = two_boxes();
    gui.handle_pointer_motion(10, 10);
    assert_eq!(
        gui.handle_pointer_button(true),
        Some(Delivery { node: a, state: PointerState::Press })
    );
    assert!(gui.state().pointer_down);
    assert_eq!(gui.handle_pointer_button(true), None);
    assert!(gui.state().pointer_down);
    assert_eq!(
        gui.handle_pointer_button(false),
        Some(Delivery { node: a, state: PointerState::Over })
    );
    assert_eq!(gui.handle_pointer_button(false), None);
    assert!(!gui.state().pointer_down);
}

#[test]
fn highlight_without_control_owes_nothing() {
    let mut gui = Gui::new();
    let root = gui.root();
    let view = gui.add_view(root, filled(red()), boxed(0., 0., 100., 100.));
    gui.set_screen_size(800, 600);
    assert_eq!(gui.handle_pointer_motion(10, 10), vec![]);
    assert_eq!(gui.state().highlight, Some(view));
    assert_eq!(gui.handle_pointer_button(true), None);
    assert!(gui.state().pointer_down);
}

#[test]
fn destroy_clears_the_highlight_and_the_registry() {
    let (mut gui, a, b) = two_boxes();
    gui.handle_pointer_motion(75, 75);
    assert_eq!(gui.state().highlight, Some(b));
    gui.destroy(b);
    assert_eq!(gui.state().highlight, None);
    assert_eq!(gui.hit_test(75, 75), Some(a));
    assert_eq!(gui.hit_test(120, 120), None);
    let deliveries = gui.handle_pointer_motion(120, 120);
    assert_eq!(deliveries, vec![]);
}

#[test]
fn destroy_of_another_node_keeps_the_highlight() {
    let (mut gui, a, b) = two_boxes();
    gui.handle_pointer_motion(10, 10);
    gui.destroy(b);
    assert_eq!(gui.state().highlight, Some(a));
}

#[test]
fn remove_child_detaches_and_clears_the_highlight() {
    let (mut gui, a, b) = two_boxes();
    let root = gui.root();
    gui.handle_pointer_motion(75, 75);
    gui.remove_child(root, b);
    assert_eq!(gui.state().highlight, None);
    assert_eq!(gui.hit_test(120, 120), None);
    assert_eq!(gui.hit_test(75, 75), Some(a));
    gui.add_child(root, b);
    gui.layout();
    assert_eq!(gui.hit_test(120, 120), Some(b));
}

#[test]
fn hit_test_after_many_changes_stays_in_the_tree() {
    let mut gui = Gui::new();
    let root = gui.root();
    let mut nodes: Vec<NodeId> = Vec::new();
    for i in 0..8 {
        let offset = (i * 10) as f32;
        nodes.push(gui.add_view_control(root, filled(red()), boxed(offset, offset, 50., 50.)));
    }
    gui.set_screen_size(800, 600);
    assert_eq!(gui.hit_test(75, 75), Some(nodes[7]));
    gui.destroy(nodes[7]);
    assert_eq!(gui.hit_test(75, 75), Some(nodes[6]));
    gui.remove_child(root, nodes[6]);
    assert_eq!(gui.hit_test(75, 75), Some(nodes[5]));
    gui.destroy(nodes[5]);
    gui.destroy(nodes[3]);
    assert_eq!(gui.hit_test(75, 75), Some(nodes[4]));
    gui.add_child(root, nodes[6]);
    gui.layout();
    assert_eq!(gui.hit_test(75, 75), Some(nodes[6]));
}

#[test]
fn destroyed_parent_leaves_its_children_detached() {
    let mut gui = Gui::new();
    let root = gui.root();
    let panel = gui.add_view(root, filled(red()), boxed(0., 0., 100., 100.));
    let inner = gui.add_view(panel, filled(blue()), boxed(0., 0., 50., 50.));
    gui.set_screen_size(800, 600);
    assert_eq!(gui.hit_test(10, 10), Some(inner));
    gui.destroy(panel);
    assert_eq!(gui.hit_test(10, 10), None);
    gui.add_child(root, inner);
    gui.layout();
    assert_eq!(gui.hit_test(10, 10), Some(inner));
}

#[test]
fn set_root_lays_out_and_looks_under_the_pointer() {
    let (mut gui, a, _b) = two_boxes();
    gui.handle_pointer_motion(10, 10);
    assert_eq!(gui.state().highlight, Some(a));
    let other = gui.add_root();
    let deliveries = gui.set_root(other);
    assert_eq!(deliveries, vec![Delivery { node: a, state: PointerState::Idle }]);
    assert_eq!(gui.root(), other);
    assert_eq!(gui.state().highlight, None);
    assert_eq!(gui.set_root(other), vec![]);
}

#[test]
fn paint_order_is_tree_order() {
    let mut gui = Gui::new();
    let root = gui.root();
    let a = gui.add_view(
        root,
        Visual { background: Some(red()), border: None, foreground: true },
        boxed(0., 0., 100., 100.),
    );
    let inner = gui.add_view(a, filled(blue()), boxed(10., 20., 30., 40.));
    let b = gui.add_view(root, filled(blue()), boxed(50., 50., 100., 100.));
    gui.set_screen_size(800, 600);
    let _ = (inner, b);
    assert_eq!(
        gui.render(),
        vec![
            PaintCommand::Rect {
                position: Vec2::new(0, 0),
                size: Vec2::new(6400, 6400),
                color: red(),
            },
            PaintCommand::Foreground {
                node: a,
                position: Vec2::new(0, 0),
                size: Vec2::new(6400, 6400),
            },
            PaintCommand::Rect {
                position: Vec2::new(640, 1280),
                size: Vec2::new(1920, 2560),
                color: blue(),
            },
            PaintCommand::Rect {
                position: Vec2::new(3200, 3200),
                size: Vec2::new(6400, 6400),
                color: blue(),
            },
        ]
    );
}

#[test]
fn set_style_moves_a_node_at_the_next_layout() {
    let (mut gui, a, _b) = two_boxes();
    gui.set_style(a, boxed(300., 300., 10., 10.));
    assert_eq!(gui.hit_test(10, 10), Some(a));
    gui.layout();
    assert_eq!(gui.hit_test(10, 10), None);
    assert_eq!(gui.hit_test(305, 305), Some(a));
}

#[test]
fn root_is_as_large_as_the_screen() {
    let mut gui = Gui::new();
    let root = gui.root();
    let corner = gui.add_view(root, filled(red()), boxed(750., 550., 100., 100.));
    gui.set_screen_size(800, 600);
    assert_eq!(gui.hit_test(790, 590), Some(corner));
    assert_eq!(gui.hit_test(810, 560), None);
    assert_eq!(gui.hit_test(760, 610), None);
    gui.set_screen_size(1000, 1000);
    assert_eq!(gui.hit_test(810, 560), Some(corner));
    assert_eq!(gui.state().screen_width, 1000);
    assert_eq!(gui.state().screen_height, 1000);
}

#[test]
fn tree_can_be_asked_for_its_links() {
    let mut gui = Gui::new();
    let root = gui.root();
    let panel = gui.add_node(root, boxed(0., 0., 100., 100.));
    let first = gui.add_node(panel, boxed(0., 0., 10., 10.));
    let second = gui.add_node(panel, boxed(0., 0., 10., 10.));
    let loose = gui.add_root();
    assert!(gui.contains(root));
    assert!(gui.contains(second));
    assert!(gui.contains(loose));
    assert!(!gui.contains(loose + 1000));
    assert_eq!(gui.parent(root), None);
    assert_eq!(gui.parent(panel), Some(root));
    assert_eq!(gui.parent(second), Some(panel));
    assert_eq!(gui.parent(loose), None);
    assert_eq!(gui.children(root), vec![panel]);
    assert_eq!(gui.children(panel), vec![first, second]);
    assert_eq!(gui.children(first), Vec::<NodeId>::new());
    assert!(gui.has_child(panel, second));
    assert!(!gui.has_child(root, second));
    assert!(gui.is_ancestor(root, second));
    assert!(gui.is_ancestor(panel, second));
    assert!(gui.is_ancestor(second, second));
    assert!(!gui.is_ancestor(first, second));
    assert!(!gui.is_ancestor(second, panel));
    assert!(!gui.is_ancestor(root, loose));
    assert_eq!(gui.allocated(), 5);
    gui.destroy(first);
    assert!(!gui.contains(first));
    assert_eq!(gui.children(panel), vec![second]);
    assert_eq!(gui.allocated(), 5);
}

#[test]
fn deep_chain_is_searched_to_its_end() {
    let mut gui = Gui::new();
    let mut parent = gui.root();
    let mut chain: Vec<NodeId> = Vec::new();
    for _ in 0..40 {
        parent = gui.add_view(parent, filled(red()), boxed(1., 1., 500., 500.));
        chain.push(parent);
    }
    gui.set_screen_size(800, 600);
    assert_eq!(gui.hit_test(45, 45), Some(chain[39]));
    assert_eq!(gui.hit_test(39, 45), Some(chain[38]));
    assert_eq!(gui.hit_test(1, 1), Some(chain[0]));
    assert_eq!(gui.hit_test(0, 0), None);
    assert_eq!(gui.render().len(), 40);
}

#[test]
fn border_and_foreground_are_painted_after_the_background() {
    let mut gui = Gui::new();
    let root = gui.root();
    let node = gui.add_view(
        root,
        Visual {
            background: Some(red()),
            border: Some(gristmill::gui::Border {
                widths: gristmill::two::EdgeRect::new(64, 0, 0, 0),
                color: blue(),
            }),
            foreground: true,
        },
        boxed(10., 20., 100., 50.),
    );
    gui.set_screen_size(800, 600);
    assert_eq!(
        gui.render(),
        vec![
            PaintCommand::Rect {
                position: Vec2::new(640, 1280),
                size: Vec2::new(6400, 3200),
                color: red(),
            },
            PaintCommand::Rect {
                position: Vec2::new(640, 1280),
                size: Vec2::new(6400, 64),
                color: blue(),
            },
            PaintCommand::Foreground {
                node,
                position: Vec2::new(640, 1280),
                size: Vec2::new(6400, 3200),
            },
        ]
    );
}

#[test]
fn visual_can_be_taken_away() {
    let (mut gui, a, _b) = two_boxes();
    gui.handle_pointer_motion(10, 10);
    assert_eq!(gui.state().highlight, Some(a));
    gui.set_visual(a, Some(Visual { background: Some(blue()), border: None, foreground: false }));
    assert_eq!(gui.state().highlight, Some(a));
    gui.set_visual(a, None);
    assert_eq!(gui.state().highlight, None);
    assert_eq!(gui.hit_test(10, 10), None);
    assert!(Visual { background: Some(red()), border: None, foreground: false }.can_highlight());
    assert!(!Visual { background: None, border: None, foreground: true }.can_highlight());
}

#[test]
fn created_node_waits_for_a_parent() {
    let mut gui = Gui::new();
    let root = gui.root();
    let node = gui.create_node(boxed(0., 0., 100., 100.), Some(filled(red())));
    let bare = gui.create_node(boxed(0., 0., 100., 100.), None);
    gui.set_screen_size(800, 600);
    assert!(gui.contains(node));
    assert_eq!(gui.parent(node), None);
    assert_eq!(gui.hit_test(10, 10), None);
    gui.add_child(root, bare);
    gui.layout();
    assert_eq!(gui.hit_test(10, 10), None);
    gui.add_child(root, node);
    gui.layout();
    assert_eq!(gui.hit_test(10, 10), Some(node));
    assert_eq!(gui.handle_pointer_motion(10, 10), vec![]);
}

#[test]
fn created_widget_is_bound_to_its_node() {
    let mut gui = Gui::new();
    let root = gui.root();
    let mut arena: Arena<(NodeId, &str)> = Arena::new();
    let (node, widget) = gui.create_widget(
        &mut arena,
        boxed(0., 0., 100., 100.),
        Some(filled(red())),
        |node| (node, "button"),
    );
    assert_eq!(*widget.read(&arena), (node, "button"));
    gui.add_child(root, node);
    gui.set_screen_size(800, 600);
    assert_eq!(
        gui.handle_pointer_motion(10, 10),
        vec![Delivery { node, state: PointerState::Over }]
    );
    gui.destroy(node);
    assert_eq!(*widget.read(&arena), (node, "button"));
    assert_eq!(gui.state().highlight, None);
}

/// A forest kept beside the registry, to hold its answers against.
struct Shadow {
    nodes: Vec<NodeId>,
    parent: Vec<Option<NodeId>>,
    children: Vec<Vec<NodeId>>,
    gone: Vec<NodeId>,
}

impl Shadow {
    fn at(&self, node: NodeId) -> usize {
        self.nodes.iter().position(|n| *n == node).unwrap()
    }

    fn add(&mut self, node: NodeId) {
        assert!(!self.nodes.contains(&node));
        self.nodes.push(node);
        self.parent.push(None);
        self.children.push(Vec::new());
    }

    fn link(&mut self, parent: NodeId, child: NodeId) {
        let p = self.at(parent);
        let c = self.at(child);
        self.children[p].push(child);
        self.parent[c] = Some(parent);
    }

    fn unlink(&mut self, parent: NodeId, child: NodeId) {
        let p = self.at(parent);
        let c = self.at(child);
        self.children[p].retain(|n| *n != child);
        self.parent[c] = None;
    }

    fn remove(&mut self, node: NodeId) {
        let at = self.at(node);
        if let Some(parent) = self.parent[at] {
            let p = self.at(parent);
            self.children[p].retain(|n| *n != node);
        }
        for child in self.children[at].clone() {
            let c = self.at(child);
            self.parent[c] = None;
        }
        self.nodes.remove(at);
        self.parent.remove(at);
        self.children.remove(at);
        self.gone.push(node);
    }

    fn is_ancestor(&self, ancestor: NodeId, node: NodeId) -> bool {
        let mut current = Some(node);
        while let Some(n) = current {
            if n == ancestor {
                return true;
            }
            current = self.parent[self.at(n)];
        }
        false
    }

    fn agrees_with(&self, gui: &Gui) {
        for (at, node) in self.nodes.iter().enumerate() {
            assert!(gui.contains(*node));
            assert_eq!(gui.parent(*node), self.parent[at]);
            assert_eq!(gui.children(*node), self.children[at]);
        }
        for node in &self.gone {
            if !self.nodes.contains(node) {
                assert!(!gui.contains(*node));
            }
        }
    }
}

#[test]
fn registry_follows_a_long_run_of_changes() {
    let mut gui = Gui::new();
    let root = gui.root();
    let mut shadow =
        Shadow { nodes: Vec::new(), parent: Vec::new(), children: Vec::new(), gone: Vec::new() };
    shadow.add(root);
    gui.set_screen_size(800, 600);
    let mut seed: u64 = 12345;
    let mut next = |bound: usize| -> usize {
        seed = seed.wrapping_mul(6364136223846793005).wrapping_add(1442695040888963407);
        ((seed >> 33) as usize) % bound
    };
    for step in 0..400 {
        let first = shadow.nodes[next(shadow.nodes.len())];
        let second = shadow.nodes[next(shadow.nodes.len())];
        match next(6) {
            0 | 1 => {
                let offset = (step % 50) as f32;
                let node = gui.add_view_control(first, filled(red()), boxed(offset, offset, 300., 300.));
                shadow.add(node);
                shadow.link(first, node);
            }
            2 => {
                let node = gui.add_root();
                shadow.add(node);
            }
            3 => {
                let orphan = shadow.parent[shadow.at(second)].is_none();
                assert_eq!(gui.is_ancestor(second, first), shadow.is_ancestor(second, first));
                if orphan && second != root && !shadow.is_ancestor(second, first) {
                    gui.add_child(first, second);
                    shadow.link(first, second);
                }
            }
            4 => {
                assert_eq!(
                    gui.has_child(first, second),
                    shadow.children[shadow.at(first)].contains(&second)
                );
                if gui.has_child(first, second) {
                    gui.remove_child(first, second);
                    shadow.unlink(first, second);
                }
            }
            _ => {
                if first != root {
                    gui.destroy(first);
                    shadow.remove(first);
                }
            }
        }
        shadow.agrees_with(&gui);
        gui.layout();
        let x = next(900) as i32 - 50;
        let y = next(700) as i32 - 50;
        let found = gui.hit_test(x, y);
        if let Some(node) = found {
            assert!(gui.contains(node));
            assert!(shadow.is_ancestor(root, node));
        }
        let deliveries = gui.handle_pointer_motion(x, y);
        assert_eq!(gui.state().highlight, found);
        for delivery in deliveries {
            assert!(gui.contains(delivery.node));
        }
        assert_eq!(gui.render().len(), gui.render().len());
    }
    assert!(shadow.nodes.len() > 10);
    assert!(shadow.gone.len() > 10);
}

#[test]
fn root_can_be_destroyed_and_replaced() {
    let (mut gui, a, b) = two_boxes();
    let old_root = gui.root();
    assert!(gui.rooted());
    gui.handle_pointer_motion(10, 10);
    gui.destroy(old_root);
    assert!(!gui.rooted());
    assert!(!gui.contains(old_root));
    assert_eq!(gui.parent(a), None);
    assert_eq!(gui.parent(b), None);
    assert_eq!(gui.state().highlight, Some(a));
    let deliveries = gui.set_root(b);
    assert!(gui.rooted());
    assert_eq!(gui.root(), b);
    assert_eq!(gui.hit_test(10, 10), Some(b));
    assert_eq!(gui.state().highlight, Some(b));
    assert_eq!(
        deliveries,
        vec![
            Delivery { node: a, state: PointerState::Idle },
            Delivery { node: b, state: PointerState::Over },
        ]
    );
}

#[test]
fn nothing_below_a_removed_child_is_hit() {
    let mut gui = Gui::new();
    let root = gui.root();
    let panel = gui.add_view(root, filled(red()), boxed(0., 0., 400., 400.));
    let inner = gui.add_view(panel, filled(blue()), boxed(0., 0., 200., 200.));
    let leaf = gui.add_view(inner, filled(red()), boxed(0., 0., 100., 100.));
    gui.set_screen_size(800, 600);
    assert_eq!(gui.hit_test(10, 10), Some(leaf));
    gui.remove_child(root, panel);
    gui.layout();
    for x in [0, 10, 150, 300, 399] {
        for y in [0, 10, 150, 300, 399] {
            assert_eq!(gui.hit_test(x, y), None);
        }
    }
    assert!(gui.contains(leaf));
    assert!(gui.is_ancestor(panel, leaf));
    assert!(!gui.is_ancestor(root, leaf));
}

/// The boxes that the tree paints, in pixels: x, y, width, height.
fn painted_boxes(gui: &Gui) -> Vec<(i32, i32, i32, i32)> {
    gui.render()
        .into_iter()
        .filter_map(|command| match command {
            PaintCommand::Rect { position, size, .. } => {
                Some((position.x / 64, position.y / 64, size.x / 64, size.y / 64))
            }
            _ => None,
        })
        .collect()
}

fn fixed(width: u32, height: u32) -> NodeStyle {
    NodeStyle::new().with_size(width, height)
}

#[test]
fn plain_style_asks_for_nothing() {
    let style = NodeStyle::new();
    assert_eq!(style.direction, Direction::Row);
    assert_eq!(style.grow, 0);
    assert_eq!(style.align_items, None);
    assert_eq!(style.size, Extent { width: Dimension::Auto, height: Dimension::Auto });
    assert_eq!(style.min_size, Extent { width: Dimension::Auto, height: Dimension::Auto });
    assert_eq!(style.padding, Edges { left: 0, right: 0, top: 0, bottom: 0 });
    assert_eq!(style.gap, Gap { width: 0, height: 0 });
    assert_eq!(style.place, Place::Flow);
    let sized = style.with_size(7, 9);
    assert_eq!(sized.size, Extent { width: Dimension::Length(7), height: Dimension::Length(9) });
    assert_eq!(NodeStyle { size: style.size, ..sized }, style);
}

#[test]
fn registry_keeps_the_style_of_each_node() {
    let mut gui = Gui::new();
    let root = gui.root();
    assert_eq!(gui.style(root), NodeStyle::new());
    let node = gui.add_node(root, fixed(10, 20));
    assert_eq!(gui.style(node), fixed(10, 20));
    let other = NodeStyle { grow: 3, direction: Direction::Column, ..NodeStyle::new() };
    gui.set_style(node, other);
    assert_eq!(gui.style(node), other);
    gui.set_screen_size(800, 600);
    assert_eq!(gui.style(root), fixed(800, 600));
    assert_eq!(gui.style(node), other);
}

#[test]
fn row_with_padding_and_gap_lines_its_children_up() {
    let mut gui = Gui::new();
    let root = gui.root();
    gui.set_style(
        root,
        NodeStyle {
            direction: Direction::Row,
            align_items: Some(Align::Start),
            padding: Edges { left: 64, right: 64, top: 64, bottom: 64 },
            gap: Gap { width: 16, height: 16 },
            ..NodeStyle::new()
        },
    );
    gui.add_view(root, filled(red()), fixed(128, 32));
    gui.add_view(root, filled(blue()), fixed(256, 32));
    gui.set_screen_size(800, 600);
    assert_eq!(painted_boxes(&gui), vec![(64, 64, 128, 32), (208, 64, 256, 32)]);
}

#[test]
fn direction_decides_where_the_line_runs() {
    let mut gui = Gui::new();
    let root = gui.root();
    gui.add_view(root, filled(red()), fixed(100, 50));
    gui.add_view(root, filled(blue()), fixed(100, 50));
    gui.set_screen_size(800, 600);
    assert_eq!(painted_boxes(&gui), vec![(0, 0, 100, 50), (100, 0, 100, 50)]);
    gui.set_style(root, NodeStyle { direction: Direction::Column, ..NodeStyle::new() });
    gui.layout();
    assert_eq!(painted_boxes(&gui), vec![(0, 0, 100, 50), (0, 50, 100, 50)]);
    gui.set_style(root, NodeStyle { direction: Direction::RowReverse, ..NodeStyle::new() });
    gui.layout();
    assert_eq!(painted_boxes(&gui), vec![(700, 0, 100, 50), (600, 0, 100, 50)]);
    gui.set_style(root, NodeStyle { direction: Direction::ColumnReverse, ..NodeStyle::new() });
    gui.layout();
    assert_eq!(painted_boxes(&gui), vec![(0, 550, 100, 50), (0, 500, 100, 50)]);
}

#[test]
fn alignment_places_children_across_the_line() {
    let mut gui = Gui::new();
    let root = gui.root();
    gui.add_view(root, filled(red()), NodeStyle { size: Extent { width: Dimension::Length(100), height: Dimension::Auto }, ..NodeStyle::new() });
    gui.add_view(root, filled(blue()), fixed(100, 50));
    gui.set_screen_size(800, 600);
    // Left to the engine, children stretch across the line.
    assert_eq!(painted_boxes(&gui), vec![(0, 0, 100, 600), (100, 0, 100, 50)]);
    let aligned = |align| NodeStyle { align_items: Some(align), ..NodeStyle::new() };
    gui.set_style(root, aligned(Align::Stretch));
    gui.layout();
    assert_eq!(painted_boxes(&gui), vec![(0, 0, 100, 600), (100, 0, 100, 50)]);
    gui.set_style(root, aligned(Align::Start));
    gui.layout();
    assert_eq!(painted_boxes(&gui), vec![(0, 0, 100, 0), (100, 0, 100, 50)]);
    gui.set_style(root, aligned(Align::FlexStart));
    gui.layout();
    assert_eq!(painted_boxes(&gui), vec![(0, 0, 100, 0), (100, 0, 100, 50)]);
    gui.set_style(root, aligned(Align::End));
    gui.layout();
    assert_eq!(painted_boxes(&gui), vec![(0, 600, 100, 0), (100, 550, 100, 50)]);
    gui.set_style(root, aligned(Align::FlexEnd));
    gui.layout();
    assert_eq!(painted_boxes(&gui), vec![(0, 600, 100, 0), (100, 550, 100, 50)]);
    gui.set_style(root, aligned(Align::Center));
    gui.layout();
    assert_eq!(painted_boxes(&gui), vec![(0, 300, 100, 0), (100, 275, 100, 50)]);
    // Lined up by their lower edges, which stand for the baselines.
    gui.set_style(root, aligned(Align::Baseline));
    gui.layout();
    assert_eq!(painted_boxes(&gui), vec![(0, 50, 100, 0), (100, 0, 100, 50)]);
}

#[test]
fn growing_children_share_the_space_that_is_left() {
    let mut gui = Gui::new();
    let root = gui.root();
    gui.add_view(root, filled(red()), fixed(200, 50));
    gui.add_view(root, filled(blue()), NodeStyle { grow: 1, ..fixed(0, 50) });
    gui.add_view(root, filled(red()), NodeStyle { grow: 2, ..fixed(0, 50) });
    gui.set_screen_size(800, 600);
    assert_eq!(
        painted_boxes(&gui),
        vec![(0, 0, 200, 50), (200, 0, 200, 50), (400, 0, 400, 50)]
    );
}

#[test]
fn least_size_holds_against_the_size_asked_for() {
    let mut gui = Gui::new();
    let root = gui.root();
    gui.add_view(
        root,
        filled(red()),
        NodeStyle {
            min_size: Extent { width: Dimension::Length(128), height: Dimension::Length(32) },
            ..fixed(10, 10)
        },
    );
    gui.add_view(
        root,
        filled(blue()),
        NodeStyle {
            min_size: Extent { width: Dimension::Length(24), height: Dimension::Auto },
            ..fixed(10, 10)
        },
    );
    gui.set_screen_size(800, 600);
    assert_eq!(painted_boxes(&gui), vec![(0, 0, 128, 32), (128, 0, 24, 10)]);
}

#[test]
fn placed_node_leaves_the_line() {
    let mut gui = Gui::new();
    let root = gui.root();
    gui.add_view(root, filled(red()), fixed(100, 50));
    gui.add_view(
        root,
        filled(blue()),
        NodeStyle { place: Place::At { left: -20, top: 30 }, ..fixed(40, 40) },
    );
    gui.add_view(root, filled(red()), fixed(100, 50));
    gui.set_screen_size(800, 600);
    assert_eq!(
        painted_boxes(&gui),
        vec![(0, 0, 100, 50), (-20, 30, 40, 40), (100, 0, 100, 50)]
    );
}

#[test]
fn layout_comes_back_for_the_largest_lengths() {
    let mut gui = Gui::new();
    let root = gui.root();
    let huge = NodeStyle {
        grow: u16::MAX,
        align_items: Some(Align::Baseline),
        size: Extent { width: Dimension::Length(u32::MAX), height: Dimension::Length(u32::MAX) },
        min_size: Extent { width: Dimension::Length(u32::MAX), height: Dimension::Length(u32::MAX) },
        padding: Edges { left: u32::MAX, right: u32::MAX, top: u32::MAX, bottom: u32::MAX },
        gap: Gap { width: u32::MAX, height: u32::MAX },
        ..NodeStyle::new()
    };
    let mut parent = root;
    for depth in 0..6 {
        let placed = NodeStyle { place: Place::At { left: i32::MIN, top: i32::MAX }, ..huge };
        parent = gui.add_view(parent, filled(red()), if depth % 2 == 0 { huge } else { placed });
        gui.add_view(parent, filled(blue()), huge);
        gui.add_view(parent, filled(blue()), placed);
    }
    gui.set_style(root, huge);
    gui.set_screen_size(u32::MAX, u32::MAX);
    gui.set_screen_size(0, 0);
    assert_eq!(gui.render().len(), 18);
    assert!(gui.hit_test(0, 0).is_none() || gui.contains(gui.hit_test(0, 0).unwrap()));
}
